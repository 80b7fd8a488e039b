//! The packet queues between the host and the TCP stack: packets from the
//! host wait in the receive queue, packets for the host in the transmit
//! queue. Each queue hands its packets out in the order in which they came.

use std::collections::VecDeque;
use vstd::prelude::*;

verus! {

/// Maximum transmission unit of a device, unless another one is set.
pub const MTU: usize = 1500;

/// A queue of packets, oldest first.
pub type PacketQueue = VecDeque<Vec<u8>>;

/// A virtual tunnel device: two packet queues and a maximum transmission
/// unit.
pub struct VirtualTunDevice {
    rx_queue: PacketQueue,
    tx_queue: PacketQueue,
    mtu: usize,
}

/// The device as plain values.
pub struct DeviceView {
    /// The packets from the host that the stack has not taken yet, oldest
    /// first.
    pub rx: Seq<Vec<u8>>,
    /// The packets for the host that the host has not taken yet, oldest
    /// first.
    pub tx: Seq<Vec<u8>>,
    pub mtu: usize,
}

impl View for VirtualTunDevice {
    type V = DeviceView;

    closed spec fn view(&self) -> DeviceView {
        DeviceView { rx: self.rx_queue@, tx: self.tx_queue@, mtu: self.mtu }
    }
}

impl VirtualTunDevice {
    /// A device with empty queues and the default maximum transmission unit.
    pub fn new() -> (device: VirtualTunDevice)
        ensures
            device@.rx.len() == 0,
            device@.tx.len() == 0,
            device@.mtu == MTU,
    {
        VirtualTunDevice { rx_queue: VecDeque::new(), tx_queue: VecDeque::new(), mtu: MTU }
    }

    /// The same device with another maximum transmission unit.
    pub fn with_mtu(self, mtu: usize) -> (device: VirtualTunDevice)
        ensures
            device@ == (DeviceView { mtu, ..self@ }),
    {
        let mut device = self;
        device.mtu = mtu;
        device
    }

    /// The maximum transmission unit.
    pub fn mtu(&self) -> (mtu: usize)
        ensures
            mtu == self@.mtu,
    {
        self.mtu
    }

    /// The receive queue.
    pub fn rx_queue(&self) -> (queue: &PacketQueue)
        ensures
            queue@ == self@.rx,
    {
        &self.rx_queue
    }

    /// The transmit queue.
    pub fn tx_queue(&self) -> (queue: &PacketQueue)
        ensures
            queue@ == self@.tx,
    {
        &self.tx_queue
    }

    /// Puts a packet from the host at the end of the receive queue.
    pub fn inject_packet(&mut self, packet: Vec<u8>)
        ensures
            final(self)@ == (DeviceView { rx: old(self)@.rx.push(packet), ..old(self)@ }),
    {
        self.rx_queue.push_back(packet);
    }

    /// Takes the oldest packet from the receive queue, for the stack.
    pub fn receive(&mut self) -> (packet: Option<Vec<u8>>)
        ensures
            match packet {
                Some(p) => old(self)@.rx.len() > 0 && p == old(self)@.rx[0] && final(self)@ == (
                DeviceView { rx: old(self)@.rx.subrange(1, old(self)@.rx.len() as int), ..old(self)@ }),
                None => old(self)@.rx.len() == 0 && final(self)@ == old(self)@,
            },
    {
        self.rx_queue.pop_front()
    }

    /// Puts a packet from the stack at the end of the transmit queue.
    pub fn transmit(&mut self, packet: Vec<u8>)
        ensures
            final(self)@ == (DeviceView { tx: old(self)@.tx.push(packet), ..old(self)@ }),
    {
        self.tx_queue.push_back(packet);
    }

    /// Takes every packet from the transmit queue, oldest first, for the
    /// host.
    pub fn take_packets(&mut self) -> (packets: Vec<Vec<u8>>)
        ensures
            packets@ == old(self)@.tx,
            final(self)@ == (DeviceView { tx: Seq::empty(), ..old(self)@ }),
    {
        let mut packets: Vec<Vec<u8>> = Vec::new();
        loop
            invariant
                self@.rx == old(self)@.rx,
                self@.mtu == old(self)@.mtu,
                packets@ + self@.tx == old(self)@.tx,
            ensures
                self@.tx.len() == 0,
            decreases self@.tx.len(),
        {
            match self.tx_queue.pop_front() {
                Some(p) => {
                    packets.push(p);
                    assert(packets@ + self@.tx =~= old(self)@.tx);
                },
                None => {
                    break ;
                },
            }
        }
        assert(self@.tx =~= Seq::<Vec<u8>>::empty());
        assert(packets@ =~= packets@ + self@.tx);
        packets
    }

    /// Whether a packet from the host waits for the stack.
    pub fn has_rx_packets(&self) -> (r: bool)
        ensures
            r == (self@.rx.len() > 0),
    {
        self.rx_queue.len() > 0
    }

    /// The number of packets that wait for the host.
    pub fn pending_tx_count(&self) -> (n: usize)
        ensures
            n == self@.tx.len(),
    {
        self.tx_queue.len()
    }
}

impl Default for VirtualTunDevice {
    fn default() -> (device: VirtualTunDevice)
        ensures
            device@.rx.len() == 0,
            device@.tx.len() == 0,
            device@.mtu == MTU,
    {
        VirtualTunDevice::new()
    }
}

} // verus!

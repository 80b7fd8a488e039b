//! The side of the network interface that is this library's own: the tunnel
//! device, the local ports handed to new sockets, and the choice of the
//! sockets to drop.

use vstd::prelude::*;

use crate::connection::{SocketHandle, TcpState};
use crate::device::{DeviceView, VirtualTunDevice};

verus! {

/// The first of the local ports for sockets.
pub const FIRST_LOCAL_PORT: u16 = 49152;

/// The interface manager as plain values.
pub struct InterfaceView {
    pub device: DeviceView,
    /// The local port that the next socket gets.
    pub next_local_port: u16,
}

/// The tunnel device with a cursor over the local ports 49152 to 65535.
pub struct InterfaceManager {
    device: VirtualTunDevice,
    next_local_port: u16,
}

impl View for InterfaceManager {
    type V = InterfaceView;

    closed spec fn view(&self) -> InterfaceView {
        InterfaceView { device: self.device@, next_local_port: self.next_local_port }
    }
}

/// The port after `port` in the round of local ports: one up, and back to
/// the first after the last.
pub open spec fn next_local_port(port: u16) -> u16 {
    if port == 0xFFFF {
        FIRST_LOCAL_PORT
    } else {
        (port + 1) as u16
    }
}

/// The sockets among `observed` that are closed, in their order.
pub open spec fn closed_sockets(observed: Seq<(SocketHandle, TcpState)>) -> Seq<SocketHandle>
    decreases observed.len(),
{
    if observed.len() == 0 {
        Seq::empty()
    } else {
        let before = closed_sockets(observed.drop_last());
        if observed.last().1 == TcpState::Closed {
            before.push(observed.last().0)
        } else {
            before
        }
    }
}

impl InterfaceManager {
    /// The invariant of the interface manager: the cursor stands on a local
    /// port for sockets.
    pub open spec fn wf(&self) -> bool {
        self@.next_local_port >= FIRST_LOCAL_PORT
    }

    /// A manager with an empty device, its cursor on the first local port.
    pub fn new() -> (manager: InterfaceManager)
        ensures
            manager.wf(),
            manager@.next_local_port == FIRST_LOCAL_PORT,
            manager@.device.rx.len() == 0,
            manager@.device.tx.len() == 0,
            manager@.device.mtu == crate::device::MTU,
    {
        InterfaceManager { device: VirtualTunDevice::new(), next_local_port: FIRST_LOCAL_PORT }
    }

    /// The tunnel device.
    pub fn device(&self) -> (device: &VirtualTunDevice)
        ensures
            device@ == self@.device,
    {
        &self.device
    }

    /// The tunnel device, to work on. The cursor stays.
    pub fn device_mut(&mut self) -> (device: &mut VirtualTunDevice)
        ensures
            device@ == old(self)@.device,
            final(self)@.device == final(device)@,
            final(self)@.next_local_port == old(self)@.next_local_port,
    {
        &mut self.device
    }

    /// Puts a packet from the host at the end of the device's receive queue.
    pub fn inject_packet(&mut self, packet: Vec<u8>)
        ensures
            final(self)@ == (InterfaceView {
                device: DeviceView { rx: old(self)@.device.rx.push(packet), ..old(self)@.device },
                ..old(self)@
            }),
    {
        self.device.inject_packet(packet);
    }

    /// Takes every packet from the device's transmit queue, oldest first.
    pub fn take_packets(&mut self) -> (packets: Vec<Vec<u8>>)
        ensures
            packets@ == old(self)@.device.tx,
            final(self)@ == (InterfaceView {
                device: DeviceView { tx: Seq::empty(), ..old(self)@.device },
                ..old(self)@
            }),
    {
        self.device.take_packets()
    }

    /// Hands out the local port under the cursor and moves the cursor on,
    /// back to 49152 after 65535.
    pub fn allocate_local_port(&mut self) -> (port: u16)
        requires
            old(self).wf(),
        ensures
            final(self).wf(),
            port == old(self)@.next_local_port,
            port >= FIRST_LOCAL_PORT,
            final(self)@ == (InterfaceView {
                next_local_port: next_local_port(port),
                ..old(self)@
            }),
    {
        let port = self.next_local_port;
        self.next_local_port = self.next_local_port.wrapping_add(1);
        if self.next_local_port < FIRST_LOCAL_PORT {
            self.next_local_port = FIRST_LOCAL_PORT;
        }
        port
    }

    /// The sockets to drop: those among `observed`, pairs of a socket and
    /// its state, that are closed.
    pub fn cleanup_closed_sockets(observed: &Vec<(SocketHandle, TcpState)>) -> (closed: Vec<
        SocketHandle,
    >)
        ensures
            closed@ == closed_sockets(observed@),
    {
        let mut closed: Vec<SocketHandle> = Vec::new();
        let mut i: usize = 0;
        while i < observed.len()
            invariant
                i <= observed.len(),
                closed@ == closed_sockets(observed@.take(i as int)),
            decreases observed.len() - i,
        {
            assert(observed@.take(i + 1).drop_last() =~= observed@.take(i as int));
            match observed[i].1 {
                TcpState::Closed => {
                    closed.push(observed[i].0);
                },
                _ => {},
            }
            i += 1;
        }
        assert(observed@.take(observed.len() as int) =~= observed@);
        closed
    }
}

impl Default for InterfaceManager {
    fn default() -> (manager: InterfaceManager)
        ensures
            manager.wf(),
            manager@.next_local_port == FIRST_LOCAL_PORT,
    {
        InterfaceManager::new()
    }
}

} // verus!

//! Connections: the flow table bound to the sockets of a TCP stack, with
//! totals over all connections.

use std::collections::HashMap;
use vstd::prelude::*;

use crate::error::{invalid_packet, VoyageError};
use crate::nat_table::{
    entry_of, evict, has_key, lemma_key_index, lookup, with_entry, NatEntry, NatKey, NatManager,
    NatRecord, NatState, NatView,
};
use crate::packet::ParsedPacket;

verus! {

broadcast use vstd::std_specs::hash::group_hash_axioms;

/// The state of a connection, as callers see it.
#[derive(Debug, Clone, Copy, PartialEq, Eq, Structural)]
pub enum ConnectionState {
    Connecting,
    Established,
    Closing,
    Closed,
}

impl ConnectionState {
    /// The connection state that a flow state shows as.
    pub open spec fn of(state: NatState) -> ConnectionState {
        match state {
            NatState::SynSent => ConnectionState::Connecting,
            NatState::Established => ConnectionState::Established,
            NatState::FinWait => ConnectionState::Closing,
            NatState::Closing => ConnectionState::Closing,
            NatState::Closed => ConnectionState::Closed,
        }
    }
}

impl From<NatState> for ConnectionState {
    fn from(state: NatState) -> (r: ConnectionState) {
        match state {
            NatState::SynSent => ConnectionState::Connecting,
            NatState::Established => ConnectionState::Established,
            NatState::FinWait | NatState::Closing => ConnectionState::Closing,
            NatState::Closed => ConnectionState::Closed,
        }
    }
}

impl vstd::std_specs::convert::FromSpecImpl<NatState> for ConnectionState {
    open spec fn obeys_from_spec() -> bool {
        true
    }

    open spec fn from_spec(state: NatState) -> ConnectionState {
        ConnectionState::of(state)
    }
}

/// The name of a socket in the TCP stack.
#[derive(Debug, Clone, Copy, PartialEq, Eq, Hash, Structural)]
pub struct SocketHandle {
    pub id: usize,
}

/// The states of a TCP socket, as the TCP stack reports them.
#[derive(Debug, Clone, Copy, PartialEq, Eq, Structural)]
pub enum TcpState {
    Closed,
    Listen,
    SynSent,
    SynReceived,
    Established,
    FinWait1,
    FinWait2,
    CloseWait,
    Closing,
    LastAck,
    TimeWait,
}

/// The flow state that a socket state calls for; none for the states that
/// leave the flow as it is.
pub open spec fn spec_nat_state_for(state: TcpState) -> Option<NatState> {
    match state {
        TcpState::Established => Some(NatState::Established),
        TcpState::FinWait1 | TcpState::FinWait2 | TcpState::Closing | TcpState::TimeWait => Some(
            NatState::FinWait,
        ),
        TcpState::Closed | TcpState::CloseWait | TcpState::LastAck => Some(NatState::Closed),
        _ => None,
    }
}

/// The flow state that a socket state calls for.
pub fn nat_state_for(state: TcpState) -> (r: Option<NatState>)
    ensures
        r == spec_nat_state_for(state),
{
    match state {
        TcpState::Established => Some(NatState::Established),
        TcpState::FinWait1 | TcpState::FinWait2 | TcpState::Closing | TcpState::TimeWait => Some(
            NatState::FinWait,
        ),
        TcpState::Closed | TcpState::CloseWait | TcpState::LastAck => Some(NatState::Closed),
        _ => None,
    }
}

/// What is known of one connection.
#[derive(Debug, Clone, Copy, PartialEq, Eq, Structural)]
pub struct ConnectionInfo {
    pub key: NatKey,
    pub local_port: u16,
    pub socket_handle: Option<SocketHandle>,
    pub state: ConnectionState,
    pub bytes_sent: u64,
    pub bytes_received: u64,
    /// When the information was put together.
    pub created_at: u64,
}

/// The information on a flow with its entry.
pub open spec fn info_of(
    key: NatKey,
    entry: NatEntry,
    socket_handle: Option<SocketHandle>,
    now: u64,
) -> ConnectionInfo {
    ConnectionInfo {
        key,
        local_port: entry.local_port,
        socket_handle,
        state: ConnectionState::of(entry.state),
        bytes_sent: entry.bytes_sent,
        bytes_received: entry.bytes_received,
        created_at: now,
    }
}

/// A flow with the socket registered for it.
pub type SocketRecord = (NatKey, SocketHandle);

/// Whether a socket is registered for the flow `key`.
pub open spec fn has_socket(sockets: Seq<SocketRecord>, key: NatKey) -> bool {
    exists|i: int| 0 <= i < sockets.len() && (#[trigger] sockets[i]).0 == key
}

/// The index at which the socket of the flow `key` is registered.
pub open spec fn socket_index(sockets: Seq<SocketRecord>, key: NatKey) -> int {
    choose|i: int| 0 <= i < sockets.len() && (#[trigger] sockets[i]).0 == key
}

/// The socket registered for the flow `key`, if there is one.
pub open spec fn handle_of(sockets: Seq<SocketRecord>, key: NatKey) -> Option<SocketHandle> {
    if has_socket(sockets, key) {
        Some(sockets[socket_index(sockets, key)].1)
    } else {
        None
    }
}

/// Whether no flow has two sockets registered.
pub open spec fn distinct_sockets(sockets: Seq<SocketRecord>) -> bool {
    forall|i: int, j: int|
        0 <= i < sockets.len() && 0 <= j < sockets.len() && i != j ==> (#[trigger] sockets[i]).0
            != (#[trigger] sockets[j]).0
}

/// `sockets` with `handle` registered for the flow `key`, in place of the
/// socket that was registered for it, if any.
pub open spec fn with_socket(sockets: Seq<SocketRecord>, key: NatKey, handle: SocketHandle) -> Seq<
    SocketRecord,
> {
    if has_socket(sockets, key) {
        sockets.update(socket_index(sockets, key), (key, handle))
    } else {
        sockets.push((key, handle))
    }
}

/// `sockets` without the socket of the flow `key`.
pub open spec fn without_socket(sockets: Seq<SocketRecord>, key: NatKey) -> Seq<SocketRecord> {
    if has_socket(sockets, key) {
        sockets.remove(socket_index(sockets, key))
    } else {
        sockets
    }
}

/// With distinct flows, the socket of a flow is found at the one index that
/// holds the flow.
pub proof fn lemma_socket_index(sockets: Seq<SocketRecord>, i: int)
    requires
        distinct_sockets(sockets),
        0 <= i < sockets.len(),
    ensures
        has_socket(sockets, sockets[i].0),
        socket_index(sockets, sockets[i].0) == i,
        handle_of(sockets, sockets[i].0) == Some(sockets[i].1),
{
    let key = sockets[i].0;
    assert(sockets[i].0 == key);
    let j = socket_index(sockets, key);
    assert(0 <= j < sockets.len() && sockets[j].0 == key);
}

/// The connection manager as plain values.
pub struct ConnectionView {
    /// The flow table.
    pub nat: NatView,
    /// The socket registered for each flow that has one.
    pub sockets: Seq<SocketRecord>,
    /// The flow that each registered socket was last registered for.
    pub handle_index: Map<usize, NatKey>,
    pub total_bytes_sent: u64,
    pub total_bytes_received: u64,
    pub total_connections: u64,
}

impl ConnectionView {
    /// The invariant of the connection manager.
    pub open spec fn wf(self) -> bool {
        self.nat.wf() && distinct_sockets(self.sockets)
    }

    /// Whether `after` and `result` are what taking in the packet `packet`
    /// at `now` gives.
    ///
    /// A packet without a flow key is refused as invalid, and nothing
    /// changes. Otherwise the flow table is asked for the flow. Where it has
    /// no room the result is `NatTableFull`. Where it has, the result is the
    /// information on the flow, and the count of connections goes up by one
    /// if the flow is new to the table and the packet is a TCP connection
    /// request. Sockets and byte totals stay.
    pub open spec fn after_process_packet(
        self,
        packet: ParsedPacket,
        now: u64,
        after: ConnectionView,
        result: Result<ConnectionInfo, VoyageError>,
    ) -> bool {
        match packet.spec_nat_key() {
            None => {
                &&& result matches Err(e) && e matches VoyageError::InvalidPacket(m) && m@
                    == "Cannot create NAT key"@
                &&& after == self
            },
            Some(key) => {
                let known = has_key(self.nat.records, key);
                let counted = !known && (packet.tcp matches Some(t) && t.flags.syn && !t.flags.ack);
                &&& after.sockets == self.sockets
                &&& after.handle_index == self.handle_index
                &&& after.total_bytes_sent == self.total_bytes_sent
                &&& after.total_bytes_received == self.total_bytes_received
                &&& match result {
                    Ok(info) => {
                        &&& lookup(after.nat.records, key) matches Some(entry) && info == info_of(
                            key,
                            entry,
                            handle_of(self.sockets, key),
                            now,
                        ) && self.nat.after_get_or_create(
                            key,
                            now,
                            after.nat,
                            Ok::<NatEntry, VoyageError>(entry),
                        )
                        &&& after.total_connections == if counted {
                            self.total_connections.wrapping_add(1)
                        } else {
                            self.total_connections
                        }
                    },
                    Err(e) => {
                        &&& e == VoyageError::NatTableFull
                        &&& self.nat.after_get_or_create(
                            key,
                            now,
                            after.nat,
                            Err::<NatEntry, VoyageError>(VoyageError::NatTableFull),
                        )
                        &&& after.total_connections == self.total_connections
                    },
                }
            },
        }
    }
}

/// The flow table with, for each flow, the socket that stands for it in the
/// TCP stack, and totals over all connections.
pub struct ConnectionManager {
    nat: NatManager,
    socket_handles: Vec<SocketRecord>,
    handle_to_key: HashMap<usize, NatKey>,
    total_bytes_sent: u64,
    total_bytes_received: u64,
    total_connections: u64,
}

impl View for ConnectionManager {
    type V = ConnectionView;

    closed spec fn view(&self) -> ConnectionView {
        ConnectionView {
            nat: self.nat@,
            sockets: self.socket_handles@,
            handle_index: self.handle_to_key@,
            total_bytes_sent: self.total_bytes_sent,
            total_bytes_received: self.total_bytes_received,
            total_connections: self.total_connections,
        }
    }
}

impl ConnectionManager {
    /// The invariant of the connection manager.
    pub open spec fn wf(&self) -> bool {
        self@.wf()
    }

    /// A manager with an empty flow table of the default configuration, no
    /// sockets and zero totals.
    pub fn new() -> (manager: ConnectionManager)
        ensures
            manager.wf(),
            manager@.nat.records.len() == 0,
            manager@.sockets.len() == 0,
            manager@.handle_index == Map::<usize, NatKey>::empty(),
            manager@.total_bytes_sent == 0,
            manager@.total_bytes_received == 0,
            manager@.total_connections == 0,
    {
        ConnectionManager {
            nat: NatManager::new(),
            socket_handles: Vec::new(),
            handle_to_key: HashMap::new(),
            total_bytes_sent: 0,
            total_bytes_received: 0,
            total_connections: 0,
        }
    }

    /// The index of the socket of the flow `key`.
    fn find_socket(&self, key: &NatKey) -> (r: Option<usize>)
        ensures
            r matches Some(i) ==> i < self@.sockets.len() && self@.sockets[i as int].0 == *key,
            r is Some <==> has_socket(self@.sockets, *key),
    {
        let mut i: usize = 0;
        while i < self.socket_handles.len()
            invariant
                i <= self.socket_handles.len(),
                forall|k: int| 0 <= k < i ==> (#[trigger] self.socket_handles@[k]).0 != *key,
            decreases self.socket_handles.len() - i,
        {
            if self.socket_handles[i].0 == *key {
                assert(self@.sockets[i as int].0 == *key);
                return Some(i);
            }
            i += 1;
        }
        None
    }

    /// The flow table.
    pub fn nat_table(&self) -> (table: &NatManager)
        ensures
            table@ == self@.nat,
    {
        &self.nat
    }

    /// Takes the flow of a packet into the table, where it is not there yet,
    /// and reports on its connection.
    ///
    /// Fails with `InvalidPacket` on a packet that is neither TCP nor UDP,
    /// and with `NatTableFull` where the table has no room or no port for a
    /// new flow. The count of connections goes up by one where the packet is
    /// a TCP connection request and its flow is new to the table.
    pub fn process_packet(&mut self, packet: &ParsedPacket, now: u64) -> (result: Result<
        ConnectionInfo,
        VoyageError,
    >)
        requires
            old(self).wf(),
        ensures
            final(self).wf(),
            old(self)@.after_process_packet(*packet, now, final(self)@, result),
    {
        let key = match packet.to_nat_key() {
            Some(key) => key,
            None => {
                return Err(invalid_packet("Cannot create NAT key"));
            },
        };
        let known = self.nat.get(&key).is_some();
        let entry = match self.nat.get_or_create(key, now) {
            Ok(entry) => *entry,
            Err(e) => {
                return Err(e);
            },
        };
        proof {
            let records = self@.nat.records;
            if !known {
                assert(records[records.len() - 1].0 == key);
                lemma_key_index(records, records.len() - 1);
            }
        }
        if !known && packet.is_tcp_syn() {
            self.total_connections = self.total_connections.wrapping_add(1);
        }
        let socket_handle = self.get_socket_handle(&key);
        Ok(
            ConnectionInfo {
                key,
                local_port: entry.local_port,
                socket_handle,
                state: ConnectionState::from(entry.state),
                bytes_sent: entry.bytes_sent,
                bytes_received: entry.bytes_received,
                created_at: now,
            },
        )
    }

    /// Registers a socket for a flow, in both directions: the flow leads to
    /// the socket, in place of the socket that it led to before, and the
    /// socket leads to the flow, in place of the flow that it led to before.
    pub fn register_socket(&mut self, key: NatKey, handle: SocketHandle)
        requires
            old(self).wf(),
        ensures
            final(self).wf(),
            final(self)@ == (ConnectionView {
                sockets: with_socket(old(self)@.sockets, key, handle),
                handle_index: old(self)@.handle_index.insert(handle.id, key),
                ..old(self)@
            }),
            handle_of(final(self)@.sockets, key) == Some(handle),
    {
        match self.find_socket(&key) {
            Some(i) => {
                proof {
                    lemma_socket_index(self@.sockets, i as int);
                }
                self.socket_handles.set(i, (key, handle));
                proof {
                    let after = self@.sockets;
                    assert forall|a: int, b: int|
                        0 <= a < after.len() && 0 <= b < after.len() && a != b implies (
                    #[trigger] after[a]).0 != (#[trigger] after[b]).0 by {
                        assert(after[a].0 == old(self)@.sockets[a].0);
                        assert(after[b].0 == old(self)@.sockets[b].0);
                    }
                    lemma_socket_index(after, i as int);
                }
            },
            None => {
                self.socket_handles.push((key, handle));
                proof {
                    let after = self@.sockets;
                    assert forall|a: int, b: int|
                        0 <= a < after.len() && 0 <= b < after.len() && a != b implies (
                    #[trigger] after[a]).0 != (#[trigger] after[b]).0 by {
                        if a < after.len() - 1 {
                            assert(old(self)@.sockets[a].0 != key);
                        }
                        if b < after.len() - 1 {
                            assert(old(self)@.sockets[b].0 != key);
                        }
                    }
                    lemma_socket_index(after, after.len() - 1);
                }
            },
        }
        self.handle_to_key.insert(handle.id, key);
    }

    /// The socket registered for a flow.
    pub fn get_socket_handle(&self, key: &NatKey) -> (handle: Option<SocketHandle>)
        requires
            self.wf(),
        ensures
            handle == handle_of(self@.sockets, *key),
    {
        match self.find_socket(key) {
            Some(i) => {
                proof {
                    lemma_socket_index(self@.sockets, i as int);
                }
                Some(self.socket_handles[i].1)
            },
            None => None,
        }
    }

    /// The flow that a socket was last registered for.
    pub fn get_key_for_handle(&self, handle: SocketHandle) -> (key: Option<&NatKey>)
        ensures
            match key {
                Some(k) => self@.handle_index.contains_key(handle.id)
                    && self@.handle_index[handle.id] == *k,
                None => !self@.handle_index.contains_key(handle.id),
            },
    {
        self.handle_to_key.get(&handle.id)
    }

    /// The connection on a local port.
    pub fn get_by_port(&self, port: u16, now: u64) -> (info: Option<ConnectionInfo>)
        requires
            self.wf(),
        ensures
            match info {
                Some(i) => {
                    &&& self@.nat.port_index.contains_key(port)
                    &&& i.key == self@.nat.port_index[port]
                    &&& lookup(self@.nat.records, i.key) matches Some(entry) && i == info_of(
                        i.key,
                        entry,
                        handle_of(self@.sockets, i.key),
                        now,
                    )
                },
                None => !self@.nat.port_index.contains_key(port),
            },
    {
        let key = match self.nat.get_key_by_port(port) {
            Some(key) => *key,
            None => {
                return None;
            },
        };
        let entry = match self.nat.get_by_port(port) {
            Some(entry) => *entry,
            None => {
                return None;
            },
        };
        let socket_handle = self.get_socket_handle(&key);
        Some(
            ConnectionInfo {
                key,
                local_port: entry.local_port,
                socket_handle,
                state: ConnectionState::from(entry.state),
                bytes_sent: entry.bytes_sent,
                bytes_received: entry.bytes_received,
                created_at: now,
            },
        )
    }

    /// Moves a flow to `Established`. An unknown flow changes nothing, and
    /// neither does a closed one.
    pub fn establish(&mut self, key: &NatKey, now: u64)
        requires
            old(self).wf(),
        ensures
            final(self).wf(),
            crate::nat_table::was_closed(old(self)@.nat.records, *key) ==> final(self)@ == old(
                self,
            )@,
            crate::nat_table::closed_stay_closed(
                old(self)@.nat.records,
                final(self)@.nat.records,
            ),
            final(self)@ == (ConnectionView {
                nat: NatView {
                    records: with_entry(
                        old(self)@.nat.records,
                        *key,
                        entry_of(old(self)@.nat.records, *key).moved_to(NatState::Established, now),
                    ),
                    ..old(self)@.nat
                },
                ..old(self)@
            }),
    {
        self.nat.establish(key, now);
    }

    /// Moves a flow to `Closed`. An unknown flow changes nothing.
    pub fn close_connection(&mut self, key: &NatKey, now: u64)
        requires
            old(self).wf(),
        ensures
            final(self).wf(),
            final(self)@ == (ConnectionView {
                nat: NatView {
                    records: with_entry(
                        old(self)@.nat.records,
                        *key,
                        entry_of(old(self)@.nat.records, *key).moved_to(NatState::Closed, now),
                    ),
                    ..old(self)@.nat
                },
                ..old(self)@
            }),
    {
        self.nat.close(key, now);
    }

    /// Counts `bytes` as sent, on the flow where the table holds it and on
    /// the total in any case. Both counters wrap.
    pub fn add_bytes_sent(&mut self, key: &NatKey, bytes: u64, now: u64)
        requires
            old(self).wf(),
        ensures
            final(self).wf(),
            final(self)@ == (ConnectionView {
                nat: NatView {
                    records: with_entry(
                        old(self)@.nat.records,
                        *key,
                        (NatEntry {
                            bytes_sent: entry_of(
                                old(self)@.nat.records,
                                *key,
                            ).bytes_sent.wrapping_add(bytes),
                            ..entry_of(old(self)@.nat.records, *key)
                        }).touched(now),
                    ),
                    ..old(self)@.nat
                },
                total_bytes_sent: old(self)@.total_bytes_sent.wrapping_add(bytes),
                ..old(self)@
            }),
    {
        self.nat.add_bytes_sent(key, bytes, now);
        self.total_bytes_sent = self.total_bytes_sent.wrapping_add(bytes);
    }

    /// Counts `bytes` as received, on the flow where the table holds it and
    /// on the total in any case. Both counters wrap.
    pub fn add_bytes_received(&mut self, key: &NatKey, bytes: u64, now: u64)
        requires
            old(self).wf(),
        ensures
            final(self).wf(),
            final(self)@ == (ConnectionView {
                nat: NatView {
                    records: with_entry(
                        old(self)@.nat.records,
                        *key,
                        (NatEntry {
                            bytes_received: entry_of(
                                old(self)@.nat.records,
                                *key,
                            ).bytes_received.wrapping_add(bytes),
                            ..entry_of(old(self)@.nat.records, *key)
                        }).touched(now),
                    ),
                    ..old(self)@.nat
                },
                total_bytes_received: old(self)@.total_bytes_received.wrapping_add(bytes),
                ..old(self)@
            }),
    {
        self.nat.add_bytes_received(key, bytes, now);
        self.total_bytes_received = self.total_bytes_received.wrapping_add(bytes);
    }

    /// Forgets the socket of a flow, in both directions.
    fn drop_socket(&mut self, key: &NatKey)
        requires
            old(self).wf(),
        ensures
            final(self).wf(),
            final(self)@ == (ConnectionView {
                sockets: without_socket(old(self)@.sockets, *key),
                handle_index: match handle_of(old(self)@.sockets, *key) {
                    Some(h) => old(self)@.handle_index.remove(h.id),
                    None => old(self)@.handle_index,
                },
                ..old(self)@
            }),
            !has_socket(final(self)@.sockets, *key),
            forall|other: NatKey|
                other != *key ==> handle_of(final(self)@.sockets, other) == handle_of(
                    old(self)@.sockets,
                    other,
                ),
    {
        let ghost before = self@.sockets;
        match self.find_socket(key) {
            Some(i) => {
                proof {
                    lemma_socket_index(before, i as int);
                }
                let record = self.socket_handles.remove(i);
                self.handle_to_key.remove(&record.1.id);
                proof {
                    let after = self@.sockets;
                    assert(after == before.remove(i as int));
                    assert forall|a: int, b: int|
                        0 <= a < after.len() && 0 <= b < after.len() && a != b implies (
                    #[trigger] after[a]).0 != (#[trigger] after[b]).0 by {
                        let ja = if a < i {
                            a
                        } else {
                            a + 1
                        };
                        let jb = if b < i {
                            b
                        } else {
                            b + 1
                        };
                        assert(after[a] == before[ja]);
                        assert(after[b] == before[jb]);
                    }
                    assert(!has_socket(after, *key)) by {
                        if has_socket(after, *key) {
                            let a = socket_index(after, *key);
                            let ja = if a < i {
                                a
                            } else {
                                a + 1
                            };
                            assert(after[a] == before[ja]);
                        }
                    }
                    assert forall|other: NatKey| other != *key implies handle_of(after, other)
                        == handle_of(before, other) by {
                        if has_socket(before, other) {
                            let j = socket_index(before, other);
                            let a = if j < i {
                                j
                            } else {
                                j - 1
                            };
                            assert(after[a] == before[j]);
                            lemma_socket_index(after, a);
                            lemma_socket_index(before, j);
                        }
                        if has_socket(after, other) {
                            let a = socket_index(after, other);
                            let j = if a < i {
                                a
                            } else {
                                a + 1
                            };
                            assert(after[a] == before[j]);
                            lemma_socket_index(after, a);
                            lemma_socket_index(before, j);
                        }
                    }
                }
            },
            None => {},
        }
    }

    /// Removes a connection: its flow leaves the table, and its socket is
    /// forgotten. Hands back what was known of it, without the socket. An
    /// unknown flow changes nothing.
    pub fn remove_connection(&mut self, key: &NatKey, now: u64) -> (removed: Option<
        ConnectionInfo,
    >)
        requires
            old(self).wf(),
        ensures
            final(self).wf(),
            match lookup(old(self)@.nat.records, *key) {
                Some(entry) => {
                    &&& removed == Some(info_of(*key, entry, None, now))
                    &&& final(self)@.nat.records == crate::nat_table::without_key(
                        old(self)@.nat.records,
                        *key,
                    )
                    &&& final(self)@.nat.port_index == old(self)@.nat.port_index.remove(
                        entry.local_port,
                    )
                    &&& final(self)@.nat.next_port == old(self)@.nat.next_port
                    &&& final(self)@.nat.same_config(old(self)@.nat)
                    &&& final(self)@.sockets == without_socket(old(self)@.sockets, *key)
                    &&& final(self)@.handle_index == match handle_of(old(self)@.sockets, *key) {
                        Some(h) => old(self)@.handle_index.remove(h.id),
                        None => old(self)@.handle_index,
                    }
                    &&& final(self)@.total_bytes_sent == old(self)@.total_bytes_sent
                    &&& final(self)@.total_bytes_received == old(self)@.total_bytes_received
                    &&& final(self)@.total_connections == old(self)@.total_connections
                },
                None => removed is None && final(self)@ == old(self)@,
            },
    {
        let entry = match self.nat.remove(key) {
            Some(entry) => entry,
            None => {
                return None;
            },
        };
        self.drop_socket(key);
        Some(
            ConnectionInfo {
                key: *key,
                local_port: entry.local_port,
                socket_handle: None,
                state: ConnectionState::from(entry.state),
                bytes_sent: entry.bytes_sent,
                bytes_received: entry.bytes_received,
                created_at: now,
            },
        )
    }

    /// The number of live flows.
    pub fn active_connections(&self) -> (n: usize)
        ensures
            n == self@.nat.records.len(),
    {
        self.nat.len()
    }

    /// The bytes counted as sent since the manager was made, as a 64-bit
    /// counter that wraps.
    pub fn total_bytes_sent(&self) -> (n: u64)
        ensures
            n == self@.total_bytes_sent,
    {
        self.total_bytes_sent
    }

    /// The bytes counted as received since the manager was made, as a 64-bit
    /// counter that wraps.
    pub fn total_bytes_received(&self) -> (n: u64)
        ensures
            n == self@.total_bytes_received,
    {
        self.total_bytes_received
    }

    /// The connections counted since the manager was made.
    pub fn total_connections(&self) -> (n: u64)
        ensures
            n == self@.total_connections,
    {
        self.total_connections
    }

    /// What is known of every connection, oldest flow first.
    pub fn get_all_connections(&self, now: u64) -> (all: Vec<ConnectionInfo>)
        requires
            self.wf(),
        ensures
            all@.len() == self@.nat.records.len(),
            forall|i: int|
                0 <= i < all@.len() ==> #[trigger] all@[i] == info_of(
                    self@.nat.records[i].0,
                    self@.nat.records[i].1,
                    handle_of(self@.sockets, self@.nat.records[i].0),
                    now,
                ),
    {
        let records = self.nat.get_all_connections();
        let mut all: Vec<ConnectionInfo> = Vec::new();
        let mut i: usize = 0;
        while i < records.len()
            invariant
                i <= records.len(),
                self.wf(),
                records@ == self@.nat.records,
                all@.len() == i,
                forall|k: int|
                    0 <= k < i ==> #[trigger] all@[k] == info_of(
                        records@[k].0,
                        records@[k].1,
                        handle_of(self@.sockets, records@[k].0),
                        now,
                    ),
            decreases records.len() - i,
        {
            let key = records[i].0;
            let entry = records[i].1;
            let socket_handle = self.get_socket_handle(&key);
            all.push(
                ConnectionInfo {
                    key,
                    local_port: entry.local_port,
                    socket_handle,
                    state: ConnectionState::from(entry.state),
                    bytes_sent: entry.bytes_sent,
                    bytes_received: entry.bytes_received,
                    created_at: now,
                },
            );
            i += 1;
        }
        all
    }
}

/// The state that the observations report for a socket: that of the first
/// observation of the socket, if there is one.
pub open spec fn observed_state(observed: Seq<(SocketHandle, TcpState)>, handle: SocketHandle) -> Option<
    TcpState,
>
    decreases observed.len(),
{
    if observed.len() == 0 {
        None
    } else if observed[0].0 == handle {
        Some(observed[0].1)
    } else {
        observed_state(observed.drop_first(), handle)
    }
}

/// The entry of a flow after its state was brought in line with the state
/// of its socket. The entry changes only where the flow is not closed, has a
/// socket, the socket was observed, its state calls for a flow state, and
/// the flow is not in that state yet; it then moves to that state and is
/// touched. A closed flow stays as it is.
pub open spec fn synced_entry(
    key: NatKey,
    entry: NatEntry,
    sockets: Seq<SocketRecord>,
    observed: Seq<(SocketHandle, TcpState)>,
    now: u64,
) -> NatEntry {
    match handle_of(sockets, key) {
        None => entry,
        Some(handle) => match observed_state(observed, handle) {
            None => entry,
            Some(tcp) => match spec_nat_state_for(tcp) {
                None => entry,
                Some(state) => if entry.state != state {
                    entry.moved_to(state, now)
                } else {
                    entry
                },
            },
        },
    }
}

/// Whether one of the first `count` records is the flow `key` in state
/// `Closed`.
pub open spec fn closed_among(records: Seq<NatRecord>, key: NatKey, count: int) -> bool {
    exists|j: int|
        0 <= j < count && j < records.len() && (#[trigger] records[j]).0 == key
            && records[j].1.state == NatState::Closed
}

/// Whether the socket `id` is registered for a flow that is closed among
/// the first `count` records.
pub open spec fn socket_of_closed(
    records: Seq<NatRecord>,
    sockets: Seq<SocketRecord>,
    id: usize,
    count: int,
) -> bool {
    exists|j: int|
        0 <= j < count && j < records.len() && (#[trigger] records[j]).1.state == NatState::Closed
            && handle_of(sockets, records[j].0) == Some(SocketHandle { id })
}

/// The state that the observations report for a socket.
fn find_state(observed: &Vec<(SocketHandle, TcpState)>, handle: SocketHandle) -> (r: Option<
    TcpState,
>)
    ensures
        r == observed_state(observed@, handle),
{
    let mut i: usize = 0;
    assert(observed@.subrange(0, observed.len() as int) =~= observed@);
    while i < observed.len()
        invariant
            i <= observed.len(),
            observed_state(observed@, handle) == observed_state(
                observed@.subrange(i as int, observed.len() as int),
                handle,
            ),
        decreases observed.len() - i,
    {
        let ghost rest = observed@.subrange(i as int, observed.len() as int);
        assert(rest[0] == observed@[i as int]);
        if observed[i].0 == handle {
            return Some(observed[i].1);
        }
        assert(rest.drop_first() =~= observed@.subrange(i + 1, observed.len() as int));
        i += 1;
    }
    None
}

impl ConnectionManager {
    /// Removes what is over: the sockets of the closed flows are forgotten,
    /// in both directions, and the flow table evicts the flows that are due
    /// at `now`, the closed ones among them.
    pub fn cleanup(&mut self, now: u64)
        requires
            old(self).wf(),
        ensures
            final(self).wf(),
            final(self)@.nat.records == evict(
                old(self)@.nat.records,
                old(self)@.nat.tcp_timeout,
                old(self)@.nat.udp_timeout,
                now,
            ),
            final(self)@.nat.next_port == old(self)@.nat.next_port,
            final(self)@.nat.same_config(old(self)@.nat),
            final(self)@.total_bytes_sent == old(self)@.total_bytes_sent,
            final(self)@.total_bytes_received == old(self)@.total_bytes_received,
            final(self)@.total_connections == old(self)@.total_connections,
            forall|key: NatKey|
                #[trigger] handle_of(final(self)@.sockets, key) == if crate::nat_table::was_closed(
                    old(self)@.nat.records,
                    key,
                ) {
                    None
                } else {
                    handle_of(old(self)@.sockets, key)
                },
            forall|id: usize| #[trigger]
                final(self)@.handle_index.contains_key(id) <==> old(self)@.handle_index.contains_key(
                    id,
                ) && !socket_of_closed(
                    old(self)@.nat.records,
                    old(self)@.sockets,
                    id,
                    old(self)@.nat.records.len() as int,
                ),
            forall|id: usize| #[trigger]
                final(self)@.handle_index.contains_key(id) ==> final(self)@.handle_index[id] == old(
                    self,
                )@.handle_index[id],
    {
        let all = self.nat.get_all_connections();
        let ghost before = self@;
        let mut i: usize = 0;
        while i < all.len()
            invariant
                i <= all.len(),
                self.wf(),
                before.wf(),
                before == old(self)@,
                all@ == before.nat.records,
                self@.nat == before.nat,
                self@.total_bytes_sent == before.total_bytes_sent,
                self@.total_bytes_received == before.total_bytes_received,
                self@.total_connections == before.total_connections,
                forall|key: NatKey|
                    #[trigger] handle_of(self@.sockets, key) == if closed_among(
                        all@,
                        key,
                        i as int,
                    ) {
                        None
                    } else {
                        handle_of(before.sockets, key)
                    },
                forall|id: usize| #[trigger]
                    self@.handle_index.contains_key(id) <==> before.handle_index.contains_key(id)
                        && !socket_of_closed(all@, before.sockets, id, i as int),
                forall|id: usize| #[trigger]
                    self@.handle_index.contains_key(id) ==> self@.handle_index[id]
                        == before.handle_index[id],
            decreases all.len() - i,
        {
            let key = all[i].0;
            let entry = all[i].1;
            let ghost current = self@;
            if entry.state == NatState::Closed {
                proof {
                    assert(!closed_among(all@, key, i as int)) by {
                        if closed_among(all@, key, i as int) {
                            let j = choose|j: int|
                                0 <= j < i && j < all@.len() && (#[trigger] all@[j]).0 == key
                                    && all@[j].1.state == NatState::Closed;
                            assert(all@[j].0 == all@[i as int].0);
                        }
                    }
                    assert(handle_of(current.sockets, key) == handle_of(before.sockets, key));
                }
                self.drop_socket(&key);
                proof {
                    assert(closed_among(all@, key, i + 1)) by {
                        assert(all@[i as int].0 == key);
                    }
                    assert forall|other: NatKey|
                        #[trigger] handle_of(self@.sockets, other) == if closed_among(
                            all@,
                            other,
                            i + 1,
                        ) {
                            None
                        } else {
                            handle_of(before.sockets, other)
                        } by {
                        if other != key {
                            assert(closed_among(all@, other, i + 1) == closed_among(
                                all@,
                                other,
                                i as int,
                            )) by {
                                if closed_among(all@, other, i + 1) {
                                    let j = choose|j: int|
                                        0 <= j < i + 1 && j < all@.len() && (
                                        #[trigger] all@[j]).0 == other && all@[j].1.state
                                            == NatState::Closed;
                                    assert(j != i);
                                    assert(all@[j].0 == other);
                                }
                                if closed_among(all@, other, i as int) {
                                    let j = choose|j: int|
                                        0 <= j < i && j < all@.len() && (#[trigger] all@[j]).0
                                            == other && all@[j].1.state == NatState::Closed;
                                    assert(all@[j].0 == other);
                                }
                            }
                            assert(handle_of(current.sockets, other) == if closed_among(
                                all@,
                                other,
                                i as int,
                            ) {
                                None::<SocketHandle>
                            } else {
                                handle_of(before.sockets, other)
                            });
                        }
                    }
                    assert forall|id: usize| #[trigger]
                        self@.handle_index.contains_key(id) <==> before.handle_index.contains_key(
                            id,
                        ) && !socket_of_closed(all@, before.sockets, id, i + 1) by {
                        lemma_socket_of_closed_step(all@, before.sockets, id, i as int);
                        assert(current.handle_index.contains_key(id)
                            <==> before.handle_index.contains_key(id) && !socket_of_closed(
                            all@,
                            before.sockets,
                            id,
                            i as int,
                        ));
                    }
                    assert forall|id: usize| #[trigger]
                        self@.handle_index.contains_key(id) implies self@.handle_index[id]
                        == before.handle_index[id] by {
                        assert(current.handle_index.contains_key(id));
                    }
                }
            } else {
                proof {
                    assert forall|other: NatKey|
                        closed_among(all@, other, i + 1) == closed_among(all@, other, i as int) by {
                        if closed_among(all@, other, i + 1) {
                            let j = choose|j: int|
                                0 <= j < i + 1 && j < all@.len() && (#[trigger] all@[j]).0 == other
                                    && all@[j].1.state == NatState::Closed;
                            assert(j != i);
                            assert(all@[j].0 == other);
                        }
                        if closed_among(all@, other, i as int) {
                            let j = choose|j: int|
                                0 <= j < i && j < all@.len() && (#[trigger] all@[j]).0 == other
                                    && all@[j].1.state == NatState::Closed;
                            assert(all@[j].0 == other);
                        }
                    }
                    assert forall|id: usize| #[trigger]
                        self@.handle_index.contains_key(id) <==> before.handle_index.contains_key(
                            id,
                        ) && !socket_of_closed(all@, before.sockets, id, i + 1) by {
                        lemma_socket_of_closed_step(all@, before.sockets, id, i as int);
                    }
                }
            }
            i += 1;
        }
        proof {
            assert forall|key: NatKey|
                closed_among(all@, key, all@.len() as int) == crate::nat_table::was_closed(
                    before.nat.records,
                    key,
                ) by {
                if closed_among(all@, key, all@.len() as int) {
                    let j = choose|j: int|
                        0 <= j < all@.len() && j < all@.len() && (#[trigger] all@[j]).0 == key
                            && all@[j].1.state == NatState::Closed;
                    lemma_key_index(all@, j);
                }
                if crate::nat_table::was_closed(before.nat.records, key) {
                    let j = crate::nat_table::key_index(all@, key);
                    assert(all@[j].0 == key);
                }
            }
        }
        let ghost mid = self@;
        self.nat.cleanup_expired(now);
        proof {
            assert(self@.handle_index == mid.handle_index);
            assert(self@.sockets == mid.sockets);
            assert forall|id: usize| #[trigger]
                self@.handle_index.contains_key(id) <==> before.handle_index.contains_key(id)
                    && !socket_of_closed(
                    before.nat.records,
                    before.sockets,
                    id,
                    before.nat.records.len() as int,
                ) by {
                assert(mid.handle_index.contains_key(id) <==> before.handle_index.contains_key(id)
                    && !socket_of_closed(all@, before.sockets, id, all@.len() as int));
            }
            assert forall|id: usize| #[trigger]
                self@.handle_index.contains_key(id) implies self@.handle_index[id]
                == before.handle_index[id] by {
                assert(mid.handle_index.contains_key(id));
            }
        }
    }

    /// Brings the flow states in line with the states of the sockets, as
    /// `observed` reports them: pairs of a socket and its state. An
    /// established socket makes its flow `Established`; a socket in
    /// `FinWait1`, `FinWait2`, `Closing` or `TimeWait` makes it `FinWait`; a
    /// socket in `Closed`, `CloseWait` or `LastAck` makes it `Closed`. A flow
    /// that changes state is touched at `now`; every other flow stays as it
    /// is, and so does every closed flow, whatever its socket says.
    pub fn sync_socket_states(&mut self, observed: &Vec<(SocketHandle, TcpState)>, now: u64)
        requires
            old(self).wf(),
        ensures
            final(self).wf(),
            crate::nat_table::carries_on(old(self)@.nat.records, final(self)@.nat.records),
            crate::nat_table::closed_stay_closed(
                old(self)@.nat.records,
                final(self)@.nat.records,
            ),
            final(self)@.nat.records.len() == old(self)@.nat.records.len(),
            forall|i: int|
                0 <= i < old(self)@.nat.records.len() ==> #[trigger] final(self)@.nat.records[i]
                    == (
                    old(self)@.nat.records[i].0,
                    synced_entry(
                        old(self)@.nat.records[i].0,
                        old(self)@.nat.records[i].1,
                        old(self)@.sockets,
                        observed@,
                        now,
                    ),
                ),
            final(self)@ == (ConnectionView {
                nat: NatView { records: final(self)@.nat.records, ..old(self)@.nat },
                ..old(self)@
            }),
    {
        let all = self.nat.get_all_connections();
        let ghost before = self@;
        let mut i: usize = 0;
        while i < all.len()
            invariant
                i <= all.len(),
                self.wf(),
                before == old(self)@,
                all@ == before.nat.records,
                self@.nat.records.len() == all@.len(),
                self@ == (ConnectionView {
                    nat: NatView { records: self@.nat.records, ..before.nat },
                    ..before
                }),
                forall|k: int|
                    0 <= k < i ==> #[trigger] self@.nat.records[k] == (
                        all@[k].0,
                        synced_entry(all@[k].0, all@[k].1, before.sockets, observed@, now),
                    ),
                forall|k: int| i <= k < all@.len() ==> #[trigger] self@.nat.records[k] == all@[k],
            decreases all.len() - i,
        {
            let key = all[i].0;
            let entry = all[i].1;
            let ghost current = self@.nat.records;
            proof {
                assert(current[i as int] == all@[i as int]);
                lemma_key_index(current, i as int);
            }
            let target = match self.get_socket_handle(&key) {
                Some(handle) => match find_state(observed, handle) {
                    Some(tcp) => nat_state_for(tcp),
                    None => None,
                },
                None => None,
            };
            match target {
                Some(state) => {
                    if entry.state != state {
                        match state {
                            NatState::Established => {
                                self.nat.establish(&key, now);
                            },
                            NatState::FinWait => {
                                self.nat.start_close(&key, now);
                            },
                            NatState::Closed => {
                                self.nat.close(&key, now);
                            },
                            _ => {},
                        }
                    }
                },
                None => {},
            }
            proof {
                let after = self@.nat.records;
                assert(after.len() == current.len());
                assert forall|k: int| 0 <= k < i + 1 implies #[trigger] after[k] == (
                    all@[k].0,
                    synced_entry(all@[k].0, all@[k].1, before.sockets, observed@, now),
                ) by {
                    if k < i {
                        assert(current[k] == (
                            all@[k].0,
                            synced_entry(all@[k].0, all@[k].1, before.sockets, observed@, now),
                        ));
                    }
                }
                assert forall|k: int| i + 1 <= k < all@.len() implies #[trigger] after[k]
                    == all@[k] by {
                    assert(current[k] == all@[k]);
                }
            }
            i += 1;
        }
        proof {
            crate::nat_table::lemma_history_pointwise(before.nat.records, self@.nat.records);
        }
    }
}

/// One more record adds its own socket, where the record is closed, to the
/// sockets of the closed flows.
pub proof fn lemma_socket_of_closed_step(
    records: Seq<NatRecord>,
    sockets: Seq<SocketRecord>,
    id: usize,
    count: int,
)
    requires
        0 <= count < records.len(),
    ensures
        socket_of_closed(records, sockets, id, count + 1) <==> socket_of_closed(
            records,
            sockets,
            id,
            count,
        ) || (records[count].1.state == NatState::Closed && handle_of(sockets, records[count].0)
            == Some(SocketHandle { id })),
{
    if socket_of_closed(records, sockets, id, count + 1) {
        let j = choose|j: int|
            0 <= j < count + 1 && j < records.len() && (#[trigger] records[j]).1.state
                == NatState::Closed && handle_of(sockets, records[j].0) == Some(
                SocketHandle { id },
            );
        if j < count {
            assert(records[j].1.state == NatState::Closed);
        }
    }
    if socket_of_closed(records, sockets, id, count) {
        let j = choose|j: int|
            0 <= j < count && j < records.len() && (#[trigger] records[j]).1.state
                == NatState::Closed && handle_of(sockets, records[j].0) == Some(
                SocketHandle { id },
            );
        assert(records[j].1.state == NatState::Closed);
    }
    if records[count].1.state == NatState::Closed && handle_of(sockets, records[count].0) == Some(
        SocketHandle { id },
    ) {
        assert(records[count].1.state == NatState::Closed);
    }
}

impl Default for ConnectionManager {
    fn default() -> (manager: ConnectionManager)
        ensures
            manager.wf(),
            manager@.nat.records.len() == 0,
    {
        ConnectionManager::new()
    }
}

} // verus!

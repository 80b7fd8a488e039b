//! Flow tracking: a table from flow keys to locally allocated ports, with
//! the state and the byte counters of each flow.

use std::collections::HashMap;
use vstd::prelude::*;

use crate::addr::{IpAddr, SocketAddr};
use crate::error::VoyageError;

verus! {

broadcast use vstd::std_specs::hash::group_hash_axioms;

/// The five values that identify a transport flow. Two keys are equal when
/// all five are.
#[derive(Debug, Clone, Copy, PartialEq, Eq, Hash, Structural)]
pub struct NatKey {
    pub src_ip: IpAddr,
    pub src_port: u16,
    pub dst_ip: IpAddr,
    pub dst_port: u16,
    /// 6 for TCP, 17 for UDP.
    pub protocol: u8,
}

impl NatKey {
    /// The key of the flow from `src` to `dst` with the given protocol
    /// number.
    pub open spec fn spec_new(src: SocketAddr, dst: SocketAddr, protocol: u8) -> NatKey {
        NatKey {
            src_ip: src.spec_ip(),
            src_port: src.spec_port(),
            dst_ip: dst.spec_ip(),
            dst_port: dst.spec_port(),
            protocol,
        }
    }

    /// The key of the TCP flow from `src` to `dst`.
    pub fn tcp(src: SocketAddr, dst: SocketAddr) -> (key: NatKey)
        ensures
            key == Self::spec_new(src, dst, 6),
    {
        NatKey {
            src_ip: src.ip(),
            src_port: src.port(),
            dst_ip: dst.ip(),
            dst_port: dst.port(),
            protocol: 6,
        }
    }

    /// The key of the UDP flow from `src` to `dst`.
    pub fn udp(src: SocketAddr, dst: SocketAddr) -> (key: NatKey)
        ensures
            key == Self::spec_new(src, dst, 17),
    {
        NatKey {
            src_ip: src.ip(),
            src_port: src.port(),
            dst_ip: dst.ip(),
            dst_port: dst.port(),
            protocol: 17,
        }
    }

    /// The source of the flow.
    pub fn src_addr(&self) -> (addr: SocketAddr)
        ensures
            addr == SocketAddr::spec_new(self.src_ip, self.src_port),
    {
        SocketAddr::new(self.src_ip, self.src_port)
    }

    /// The destination of the flow.
    pub fn dst_addr(&self) -> (addr: SocketAddr)
        ensures
            addr == SocketAddr::spec_new(self.dst_ip, self.dst_port),
    {
        SocketAddr::new(self.dst_ip, self.dst_port)
    }

    pub fn is_tcp(&self) -> (r: bool)
        ensures
            r == (self.protocol == 6),
    {
        self.protocol == 6
    }

    pub fn is_udp(&self) -> (r: bool)
        ensures
            r == (self.protocol == 17),
    {
        self.protocol == 17
    }
}

/// Milliseconds after which an idle TCP flow is evicted.
pub const TCP_TIMEOUT_MS: u64 = 300_000;

/// Milliseconds after which an idle UDP flow is evicted.
pub const UDP_TIMEOUT_MS: u64 = 60_000;

/// Where a flow stands in its life.
#[derive(Debug, Clone, Copy, PartialEq, Eq, Structural)]
pub enum NatState {
    /// The flow was seen; the connection is being set up.
    SynSent,
    Established,
    /// A close was started.
    FinWait,
    Closing,
    Closed,
}

/// What the table holds of one flow. Times are milliseconds on a clock of
/// the caller's that never runs backwards.
#[derive(Debug, Clone, Copy, PartialEq, Eq, Structural)]
pub struct NatEntry {
    pub src_addr: SocketAddr,
    pub dst_addr: SocketAddr,
    /// The local port that stands for the flow.
    pub local_port: u16,
    pub state: NatState,
    /// When the flow was last touched.
    pub last_seen: u64,
    pub bytes_sent: u64,
    pub bytes_received: u64,
}

/// The later of two times.
pub open spec fn later(a: u64, b: u64) -> u64 {
    if a >= b {
        a
    } else {
        b
    }
}

impl NatEntry {
    /// The entry after a touch at `now`: its time of last activity never
    /// goes back.
    pub open spec fn touched(self, now: u64) -> NatEntry {
        NatEntry { last_seen: later(self.last_seen, now), ..self }
    }

    /// The entry after it was asked to move to `state` at `now`. A closed
    /// entry stays as it is unless it is asked to close, for a closed flow
    /// can only leave; any other entry, and a closed one that is asked to
    /// close, is in state `state` and touched.
    pub open spec fn moved_to(self, state: NatState, now: u64) -> NatEntry {
        if self.state == NatState::Closed && state != NatState::Closed {
            self
        } else {
            NatEntry { state, last_seen: later(self.last_seen, now), ..self }
        }
    }

    /// Whether more than `timeout` has passed at `now` since the entry was
    /// last touched.
    pub open spec fn spec_is_expired(self, timeout: u64, now: u64) -> bool {
        now > self.last_seen && now - self.last_seen > timeout
    }

    /// A fresh entry: state `SynSent`, last seen at `now`, no bytes counted.
    pub fn new(src_addr: SocketAddr, dst_addr: SocketAddr, local_port: u16, now: u64) -> (entry:
        NatEntry)
        ensures
            entry == (NatEntry {
                src_addr,
                dst_addr,
                local_port,
                state: NatState::SynSent,
                last_seen: now,
                bytes_sent: 0,
                bytes_received: 0,
            }),
    {
        NatEntry {
            src_addr,
            dst_addr,
            local_port,
            state: NatState::SynSent,
            last_seen: now,
            bytes_sent: 0,
            bytes_received: 0,
        }
    }

    /// Records activity at `now`.
    pub fn touch(&mut self, now: u64)
        ensures
            *final(self) == old(self).touched(now),
            final(self).last_seen >= old(self).last_seen,
    {
        if now > self.last_seen {
            self.last_seen = now;
        }
    }

    /// Whether more than `timeout` has passed at `now` since the entry was
    /// last touched.
    pub fn is_expired(&self, timeout: u64, now: u64) -> (r: bool)
        ensures
            r == self.spec_is_expired(timeout, now),
    {
        now > self.last_seen && now - self.last_seen > timeout
    }

    /// Moves the entry to `Established` and touches it. A closed entry stays
    /// as it is.
    pub fn establish(&mut self, now: u64)
        ensures
            *final(self) == old(self).moved_to(NatState::Established, now),
            old(self).state == NatState::Closed ==> *final(self) == *old(self),
            old(self).state != NatState::Closed ==> final(self).state == NatState::Established,
    {
        if self.state != NatState::Closed {
            self.state = NatState::Established;
            self.touch(now);
        }
    }

    /// Moves the entry to `FinWait` and touches it. A closed entry stays as
    /// it is.
    pub fn start_close(&mut self, now: u64)
        ensures
            *final(self) == old(self).moved_to(NatState::FinWait, now),
            old(self).state == NatState::Closed ==> *final(self) == *old(self),
            old(self).state != NatState::Closed ==> final(self).state == NatState::FinWait,
    {
        if self.state != NatState::Closed {
            self.state = NatState::FinWait;
            self.touch(now);
        }
    }

    /// Moves the entry to `Closed` and touches it.
    pub fn close(&mut self, now: u64)
        ensures
            *final(self) == old(self).moved_to(NatState::Closed, now),
            final(self).state == NatState::Closed,
    {
        self.state = NatState::Closed;
        self.touch(now);
    }
}

/// The fresh entry of the flow `key` on local port `port`.
pub open spec fn fresh_entry(key: NatKey, port: u16, now: u64) -> NatEntry {
    NatEntry {
        src_addr: SocketAddr::spec_new(key.src_ip, key.src_port),
        dst_addr: SocketAddr::spec_new(key.dst_ip, key.dst_port),
        local_port: port,
        state: NatState::SynSent,
        last_seen: now,
        bytes_sent: 0,
        bytes_received: 0,
    }
}

/// A flow with its entry.
pub type NatRecord = (NatKey, NatEntry);

/// Whether `records` holds the flow `key`.
pub open spec fn has_key(records: Seq<NatRecord>, key: NatKey) -> bool {
    exists|i: int| 0 <= i < records.len() && (#[trigger] records[i]).0 == key
}

/// The index at which `records` holds the flow `key`, where it holds it.
pub open spec fn key_index(records: Seq<NatRecord>, key: NatKey) -> int {
    choose|i: int| 0 <= i < records.len() && (#[trigger] records[i]).0 == key
}

/// The entry of the flow `key`, where `records` holds it.
pub open spec fn entry_of(records: Seq<NatRecord>, key: NatKey) -> NatEntry {
    records[key_index(records, key)].1
}

/// The entry of the flow `key` in `records`, if it is there.
pub open spec fn lookup(records: Seq<NatRecord>, key: NatKey) -> Option<NatEntry> {
    if has_key(records, key) {
        Some(entry_of(records, key))
    } else {
        None
    }
}

/// Whether `records` holds the flow `key` in state `Closed`.
pub open spec fn was_closed(records: Seq<NatRecord>, key: NatKey) -> bool {
    has_key(records, key) && entry_of(records, key).state == NatState::Closed
}

/// Whether no flow stands twice in `records`.
pub open spec fn distinct_keys(records: Seq<NatRecord>) -> bool {
    forall|i: int, j: int|
        0 <= i < records.len() && 0 <= j < records.len() && i != j ==> (#[trigger] records[i]).0
            != (#[trigger] records[j]).0
}

/// The upper end of the port range that allocation walks: `max`, or `min`
/// where `max` lies below it.
pub open spec fn effective_max(min: u16, max: u16) -> u16 {
    if max < min {
        min
    } else {
        max
    }
}

/// The port that the cursor moves to from `p`: one up, and back to `min`
/// after `max`.
pub open spec fn next_in_range(p: u16, min: u16, max: u16) -> u16 {
    if p >= max {
        min
    } else {
        (p + 1) as u16
    }
}

/// How many steps the cursor takes from `start` to reach `p`.
pub open spec fn probe_distance(start: u16, p: u16, min: u16, max: u16) -> int {
    if p >= start {
        p - start
    } else {
        (effective_max(min, max) - start + 1) + (p - min)
    }
}

/// Whether `p` is the port that allocation picks: the first port that is
/// not in use, walking up from `start` and wrapping to `min` after the end
/// of the range.
pub open spec fn is_first_free(used: Set<u16>, min: u16, max: u16, start: u16, p: u16) -> bool {
    &&& min <= p <= effective_max(min, max)
    &&& !used.contains(p)
    &&& forall|q: u16|
        min <= q <= effective_max(min, max) && !(#[trigger] used.contains(q)) ==> probe_distance(
            start,
            p,
            min,
            max,
        ) <= probe_distance(start, q, min, max)
}

/// Whether every port of the range is in use.
pub open spec fn no_free_port(used: Set<u16>, min: u16, max: u16) -> bool {
    forall|q: u16| min <= q <= effective_max(min, max) ==> #[trigger] used.contains(q)
}

/// Whether a flow is due for eviction at `now`: it is closed, or it was idle
/// for longer than the timeout of its protocol.
pub open spec fn is_evictable(
    record: NatRecord,
    tcp_timeout: u64,
    udp_timeout: u64,
    now: u64,
) -> bool {
    record.1.state == NatState::Closed || record.1.spec_is_expired(
        if record.0.protocol == 6 {
            tcp_timeout
        } else {
            udp_timeout
        },
        now,
    )
}

/// The records that stay after eviction at `now`, in their order.
pub open spec fn evict(
    records: Seq<NatRecord>,
    tcp_timeout: u64,
    udp_timeout: u64,
    now: u64,
) -> Seq<NatRecord>
    decreases records.len(),
{
    if records.len() == 0 {
        records
    } else {
        let before = evict(records.drop_last(), tcp_timeout, udp_timeout, now);
        if is_evictable(records.last(), tcp_timeout, udp_timeout, now) {
            before
        } else {
            before.push(records.last())
        }
    }
}

/// The sum of the sent-byte counters, as a 64-bit counter that wraps.
pub open spec fn total_sent(records: Seq<NatRecord>) -> u64
    decreases records.len(),
{
    if records.len() == 0 {
        0
    } else {
        total_sent(records.drop_last()).wrapping_add(records.last().1.bytes_sent)
    }
}

/// The sum of the received-byte counters, as a 64-bit counter that wraps.
pub open spec fn total_received(records: Seq<NatRecord>) -> u64
    decreases records.len(),
{
    if records.len() == 0 {
        0
    } else {
        total_received(records.drop_last()).wrapping_add(records.last().1.bytes_received)
    }
}

/// The table as plain values.
pub struct NatView {
    /// The live flows with their entries, oldest first.
    pub records: Seq<NatRecord>,
    /// The reverse index: the flow of each local port in use.
    pub port_index: Map<u16, NatKey>,
    /// The cursor of port allocation.
    pub next_port: u16,
    pub min_port: u16,
    pub max_port: u16,
    pub max_entries: usize,
    pub tcp_timeout: u64,
    pub udp_timeout: u64,
}

impl NatView {
    /// Whether `p` lies in the range that allocation walks.
    pub open spec fn in_range(self, p: u16) -> bool {
        self.min_port <= p <= effective_max(self.min_port, self.max_port)
    }

    /// The invariant of the table: no flow stands twice; the table holds no
    /// more flows than it has room for; the cursor and every port in use lie
    /// in the range; the reverse index holds the port of every flow, with
    /// that flow, and no other port; and every entry carries the addresses
    /// of its flow.
    pub open spec fn wf(self) -> bool {
        &&& distinct_keys(self.records)
        &&& self.records.len() <= self.max_entries
        &&& self.in_range(self.next_port)
        &&& forall|i: int|
            0 <= i < self.records.len() ==> {
                let r = #[trigger] self.records[i];
                &&& self.in_range(r.1.local_port)
                &&& self.port_index.contains_key(r.1.local_port)
                &&& self.port_index[r.1.local_port] == r.0
                &&& r.1.src_addr == SocketAddr::spec_new(r.0.src_ip, r.0.src_port)
                &&& r.1.dst_addr == SocketAddr::spec_new(r.0.dst_ip, r.0.dst_port)
            }
        &&& forall|p: u16| #[trigger]
            self.port_index.contains_key(p) ==> exists|i: int|
                0 <= i < self.records.len() && (#[trigger] self.records[i]).1.local_port == p
    }

    /// The local ports of the records.
    pub open spec fn record_ports(records: Seq<NatRecord>) -> Set<u16> {
        Set::new(
            |p: u16|
                exists|i: int| 0 <= i < records.len() && (#[trigger] records[i]).1.local_port == p,
        )
    }

    /// Whether `after` and `result` are what asking this table for the flow
    /// `key` at `now` gives.
    ///
    /// A flow that the table holds is handed back as it is, and nothing
    /// changes. For a new flow a full table first evicts the flows that are
    /// due at `now`. Where it is still full, or every port of the range is
    /// in use, the result is `NatTableFull`, and the cursor stays. Otherwise
    /// the flow gets the first free port from the cursor on and a fresh
    /// entry at the end of the records, and the cursor moves one past the
    /// port.
    pub open spec fn after_get_or_create(
        self,
        key: NatKey,
        now: u64,
        after: NatView,
        result: Result<NatEntry, VoyageError>,
    ) -> bool {
        if has_key(self.records, key) {
            &&& after == self
            &&& result matches Ok(e) && lookup(self.records, key) == Some(e)
        } else {
            let base = if self.records.len() >= self.max_entries {
                evict(self.records, self.tcp_timeout, self.udp_timeout, now)
            } else {
                self.records
            };
            let used = Self::record_ports(base);
            &&& after.same_config(self)
            &&& if base.len() >= self.max_entries || no_free_port(
                used,
                self.min_port,
                self.max_port,
            ) {
                &&& result matches Err(e) && e == VoyageError::NatTableFull
                &&& after.records == base
                &&& after.next_port == self.next_port
            } else {
                &&& result matches Ok(e)
                &&& is_first_free(used, self.min_port, self.max_port, self.next_port, e.local_port)
                &&& e == fresh_entry(key, e.local_port, now)
                &&& after.records == base.push((key, e))
                &&& after.next_port == next_in_range(e.local_port, self.min_port, self.max_port)
            }
        }
    }

    /// Whether the two tables are configured alike.
    pub open spec fn same_config(self, other: NatView) -> bool {
        &&& self.min_port == other.min_port
        &&& self.max_port == other.max_port
        &&& self.max_entries == other.max_entries
        &&& self.tcp_timeout == other.tcp_timeout
        &&& self.udp_timeout == other.udp_timeout
    }

    /// The local ports in use.
    pub open spec fn used_ports(self) -> Set<u16> {
        self.port_index.dom()
    }
}

/// What the invariant of the table gives: no two flows share a local port;
/// the reverse index leads from the port of every flow to that flow, and
/// from every port that it holds to a flow with that port; and the table
/// holds no more flows than it has room for.
pub proof fn lemma_table_invariants(v: NatView)
    requires
        v.wf(),
    ensures
        forall|i: int, j: int|
            0 <= i < v.records.len() && 0 <= j < v.records.len() && i != j ==> (
            #[trigger] v.records[i]).1.local_port != (#[trigger] v.records[j]).1.local_port,
        forall|i: int|
            0 <= i < v.records.len() ==> v.port_index.contains_key(
                (#[trigger] v.records[i]).1.local_port,
            ) && v.port_index[v.records[i].1.local_port] == v.records[i].0,
        forall|p: u16| #[trigger]
            v.port_index.contains_key(p) ==> lookup(v.records, v.port_index[p]) is Some && entry_of(
                v.records,
                v.port_index[p],
            ).local_port == p,
        v.records.len() <= v.max_entries,
{
    assert forall|i: int, j: int|
        0 <= i < v.records.len() && 0 <= j < v.records.len() && i != j implies (
    #[trigger] v.records[i]).1.local_port != (#[trigger] v.records[j]).1.local_port by {
        if v.records[i].1.local_port == v.records[j].1.local_port {
            assert(v.port_index[v.records[i].1.local_port] == v.records[i].0);
            assert(v.port_index[v.records[j].1.local_port] == v.records[j].0);
        }
    }
    assert forall|p: u16| #[trigger] v.port_index.contains_key(p) implies lookup(
        v.records,
        v.port_index[p],
    ) is Some && entry_of(v.records, v.port_index[p]).local_port == p by {
        let i = choose|i: int|
            0 <= i < v.records.len() && (#[trigger] v.records[i]).1.local_port == p;
        assert(v.port_index[v.records[i].1.local_port] == v.records[i].0);
        lemma_key_index(v.records, i);
    }
}

/// With distinct keys, a flow is found at the one index that holds it.
pub proof fn lemma_key_index(records: Seq<NatRecord>, i: int)
    requires
        distinct_keys(records),
        0 <= i < records.len(),
    ensures
        has_key(records, records[i].0),
        key_index(records, records[i].0) == i,
        entry_of(records, records[i].0) == records[i].1,
        lookup(records, records[i].0) == Some(records[i].1),
{
    let key = records[i].0;
    assert(records[i].0 == key);
    let j = key_index(records, key);
    assert(0 <= j < records.len() && records[j].0 == key);
}

/// The flow table: a forward index from flows to entries and a reverse index
/// from local ports to flows, changed together.
pub struct NatManager {
    entries: Vec<NatRecord>,
    port_to_key: HashMap<u16, NatKey>,
    next_port: u16,
    min_port: u16,
    max_port: u16,
    max_entries: usize,
    tcp_timeout: u64,
    udp_timeout: u64,
}

impl View for NatManager {
    type V = NatView;

    closed spec fn view(&self) -> NatView {
        NatView {
            records: self.entries@,
            port_index: self.port_to_key@,
            next_port: self.next_port,
            min_port: self.min_port,
            max_port: self.max_port,
            max_entries: self.max_entries,
            tcp_timeout: self.tcp_timeout,
            udp_timeout: self.udp_timeout,
        }
    }
}

impl NatManager {
    /// The invariant of the table.
    pub open spec fn wf(&self) -> bool {
        self@.wf()
    }

    /// A table with ports 10000 to 60000, room for 65535 flows, and the
    /// timeouts of 300 s for TCP and 60 s for UDP.
    pub fn new() -> (table: NatManager)
        ensures
            table.wf(),
            table@.records.len() == 0,
            table@.next_port == 10000,
            table@.min_port == 10000,
            table@.max_port == 60000,
            table@.max_entries == 65535,
            table@.tcp_timeout == TCP_TIMEOUT_MS,
            table@.udp_timeout == UDP_TIMEOUT_MS,
    {
        Self::with_config(10000, 60000, 65535)
    }

    /// An empty table with the given port range and room, and the timeouts
    /// of 300 s for TCP and 60 s for UDP. The cursor starts at `min_port`.
    pub fn with_config(min_port: u16, max_port: u16, max_entries: usize) -> (table: NatManager)
        ensures
            table.wf(),
            table@.records.len() == 0,
            table@.port_index == Map::<u16, NatKey>::empty(),
            table@.next_port == min_port,
            table@.min_port == min_port,
            table@.max_port == max_port,
            table@.max_entries == max_entries,
            table@.tcp_timeout == TCP_TIMEOUT_MS,
            table@.udp_timeout == UDP_TIMEOUT_MS,
    {
        NatManager {
            entries: Vec::new(),
            port_to_key: HashMap::new(),
            next_port: min_port,
            min_port,
            max_port,
            max_entries,
            tcp_timeout: TCP_TIMEOUT_MS,
            udp_timeout: UDP_TIMEOUT_MS,
        }
    }

    /// The index of the flow `key` in the forward index.
    fn find(&self, key: &NatKey) -> (r: Option<usize>)
        ensures
            r matches Some(i) ==> i < self@.records.len() && self@.records[i as int].0 == *key,
            r is None ==> !has_key(self@.records, *key),
            r is Some <==> has_key(self@.records, *key),
    {
        let mut i: usize = 0;
        while i < self.entries.len()
            invariant
                i <= self.entries.len(),
                forall|k: int| 0 <= k < i ==> (#[trigger] self.entries@[k]).0 != *key,
            decreases self.entries.len() - i,
        {
            if self.entries[i].0 == *key {
                assert(self@.records[i as int].0 == *key);
                return Some(i);
            }
            i += 1;
        }
        None
    }

    /// The entry of a flow.
    pub fn get(&self, key: &NatKey) -> (entry: Option<&NatEntry>)
        requires
            self.wf(),
        ensures
            match entry {
                Some(e) => lookup(self@.records, *key) == Some(*e),
                None => lookup(self@.records, *key) is None,
            },
    {
        match self.find(key) {
            Some(i) => {
                proof {
                    lemma_key_index(self@.records, i as int);
                }
                Some(&self.entries[i].1)
            },
            None => None,
        }
    }

    /// The flow of a local port.
    pub fn get_key_by_port(&self, port: u16) -> (key: Option<&NatKey>)
        requires
            self.wf(),
        ensures
            match key {
                Some(k) => self@.port_index.contains_key(port) && self@.port_index[port] == *k,
                None => !self@.port_index.contains_key(port),
            },
    {
        self.port_to_key.get(&port)
    }

    /// The entry of the flow of a local port.
    pub fn get_by_port(&self, port: u16) -> (entry: Option<&NatEntry>)
        requires
            self.wf(),
        ensures
            match entry {
                Some(e) => self@.port_index.contains_key(port) && lookup(
                    self@.records,
                    self@.port_index[port],
                ) == Some(*e) && e.local_port == port,
                None => !self@.port_index.contains_key(port),
            },
    {
        match self.port_to_key.get(&port) {
            Some(key) => {
                let found = self.find(key);
                proof {
                    let i = choose|i: int|
                        0 <= i < self@.records.len() && (#[trigger] self@.records[i]).1.local_port
                            == port;
                    assert(self@.records[i].0 == *key);
                    lemma_key_index(self@.records, i);
                }
                match found {
                    Some(i) => {
                        proof {
                            lemma_key_index(self@.records, i as int);
                        }
                        Some(&self.entries[i].1)
                    },
                    None => None,
                }
            },
            None => None,
        }
    }

    /// The number of live flows.
    pub fn len(&self) -> (n: usize)
        ensures
            n == self@.records.len(),
    {
        self.entries.len()
    }

    pub fn is_empty(&self) -> (r: bool)
        ensures
            r == (self@.records.len() == 0),
    {
        self.entries.len() == 0
    }

    /// The flows with their entries, oldest first.
    pub fn get_all_connections(&self) -> (all: Vec<(NatKey, NatEntry)>)
        ensures
            all@ == self@.records,
    {
        let mut all: Vec<(NatKey, NatEntry)> = Vec::new();
        let mut i: usize = 0;
        while i < self.entries.len()
            invariant
                i <= self.entries.len(),
                all@ == self.entries@.take(i as int),
            decreases self.entries.len() - i,
        {
            all.push(self.entries[i]);
            i += 1;
        }
        all
    }

    /// The sum of the sent-byte counters of the live flows, as a 64-bit
    /// counter that wraps.
    pub fn total_bytes_sent(&self) -> (total: u64)
        ensures
            total == total_sent(self@.records),
    {
        let mut total: u64 = 0;
        let mut i: usize = 0;
        while i < self.entries.len()
            invariant
                i <= self.entries.len(),
                total == total_sent(self.entries@.take(i as int)),
            decreases self.entries.len() - i,
        {
            assert(self.entries@.take(i + 1).drop_last() =~= self.entries@.take(i as int));
            total = total.wrapping_add(self.entries[i].1.bytes_sent);
            i += 1;
        }
        assert(self.entries@.take(i as int) =~= self.entries@);
        total
    }

    /// The sum of the received-byte counters of the live flows, as a 64-bit
    /// counter that wraps.
    pub fn total_bytes_received(&self) -> (total: u64)
        ensures
            total == total_received(self@.records),
    {
        let mut total: u64 = 0;
        let mut i: usize = 0;
        while i < self.entries.len()
            invariant
                i <= self.entries.len(),
                total == total_received(self.entries@.take(i as int)),
            decreases self.entries.len() - i,
        {
            assert(self.entries@.take(i + 1).drop_last() =~= self.entries@.take(i as int));
            total = total.wrapping_add(self.entries[i].1.bytes_received);
            i += 1;
        }
        assert(self.entries@.take(i as int) =~= self.entries@);
        total
    }
}

impl NatManager {
    /// Picks the first free port from the cursor on, and moves the cursor
    /// one past it. Fails where every port of the range is in use; the
    /// cursor then stands where it stood.
    fn allocate_port(&mut self) -> (r: Result<u16, VoyageError>)
        requires
            old(self)@.in_range(old(self)@.next_port),
        ensures
            final(self)@.records == old(self)@.records,
            final(self)@.port_index == old(self)@.port_index,
            final(self)@.same_config(old(self)@),
            final(self)@.in_range(final(self)@.next_port),
            match r {
                Ok(p) => {
                    &&& is_first_free(
                        old(self)@.used_ports(),
                        old(self)@.min_port,
                        old(self)@.max_port,
                        old(self)@.next_port,
                        p,
                    )
                    &&& final(self)@.next_port == next_in_range(
                        p,
                        old(self)@.min_port,
                        old(self)@.max_port,
                    )
                },
                Err(e) => {
                    &&& e == VoyageError::NatTableFull
                    &&& no_free_port(
                        old(self)@.used_ports(),
                        old(self)@.min_port,
                        old(self)@.max_port,
                    )
                    &&& final(self)@.next_port == old(self)@.next_port
                },
            },
    {
        let start = self.next_port;
        let ghost used = self@.used_ports();
        let ghost min = self.min_port;
        let ghost max = self.max_port;
        let ghost top = effective_max(min, max);
        let ghost mut d: int = 0;
        loop
            invariant
                self@.records == old(self)@.records,
                self@.port_index == old(self)@.port_index,
                self@.same_config(old(self)@),
                used == old(self)@.used_ports(),
                min == old(self)@.min_port,
                max == old(self)@.max_port,
                top == effective_max(min, max),
                start == old(self)@.next_port,
                min <= start <= top,
                min <= self.next_port <= top,
                d == probe_distance(start, self.next_port, min, max),
                0 <= d <= top - min,
                forall|q: u16|
                    min <= q <= top && probe_distance(start, q, min, max) < d
                        ==> #[trigger] used.contains(q),
            decreases top - min - d,
        {
            let port = self.next_port;
            self.next_port = if port >= self.max_port {
                self.min_port
            } else {
                port + 1
            };
            if !self.port_to_key.contains_key(&port) {
                assert forall|q: u16| min <= q <= top && !(#[trigger] used.contains(q)) implies
                    probe_distance(start, port, min, max) <= probe_distance(start, q, min, max) by {
                    if probe_distance(start, q, min, max) < d {
                        assert(used.contains(q));
                    }
                }
                return Ok(port);
            }
            if self.next_port == start {
                assert forall|q: u16| min <= q <= top implies #[trigger] used.contains(q) by {
                    if probe_distance(start, q, min, max) < d {
                    } else {
                        assert(q == port);
                    }
                }
                return Err(VoyageError::NatTableFull);
            }
            proof {
                assert forall|q: u16|
                    min <= q <= top && probe_distance(start, q, min, max) < d + 1
                        implies #[trigger] used.contains(q) by {
                    if probe_distance(start, q, min, max) < d {
                    } else {
                        assert(q == port);
                    }
                }
                d = d + 1;
            }
        }
    }

    /// Removes the flows that are due for eviction at `now`: the closed ones,
    /// and those idle for longer than the timeout of their protocol. Both
    /// indices lose them.
    pub fn cleanup_expired(&mut self, now: u64)
        requires
            old(self).wf(),
        ensures
            final(self).wf(),
            final(self)@.records == evict(
                old(self)@.records,
                old(self)@.tcp_timeout,
                old(self)@.udp_timeout,
                now,
            ),
            final(self)@.next_port == old(self)@.next_port,
            final(self)@.same_config(old(self)@),
            carries_on(old(self)@.records, final(self)@.records),
            closed_stay_closed(old(self)@.records, final(self)@.records),
    {
        let ghost before = self@;
        let ghost tcp = self.tcp_timeout;
        let ghost udp = self.udp_timeout;
        let mut kept: Vec<NatRecord> = Vec::new();
        let ghost mut origin: Seq<int> = Seq::empty();
        let mut i: usize = 0;
        proof {
            lemma_table_invariants(before);
        }
        while i < self.entries.len()
            invariant
                i <= self.entries.len(),
                before.wf(),
                self.entries@ == before.records,
                self@.next_port == before.next_port,
                self@.same_config(before),
                tcp == before.tcp_timeout,
                udp == before.udp_timeout,
                kept@ == evict(before.records.take(i as int), tcp, udp, now),
                origin.len() == kept.len(),
                forall|k: int|
                    0 <= k < kept.len() ==> 0 <= #[trigger] origin[k] < i && kept@[k]
                        == before.records[origin[k]] && !is_evictable(kept@[k], tcp, udp, now),
                forall|k: int, l: int|
                    0 <= k < l < kept.len() ==> #[trigger] origin[k] < #[trigger] origin[l],
                forall|j: int|
                    0 <= j < i && !is_evictable(#[trigger] before.records[j], tcp, udp, now)
                        ==> exists|k: int| 0 <= k < kept.len() && #[trigger] origin[k] == j,
                forall|p: u16| #[trigger]
                    self.port_to_key@.contains_key(p) ==> before.port_index.contains_key(p)
                        && self.port_to_key@[p] == before.port_index[p],
                forall|j: int|
                    0 <= j < before.records.len() && (j >= i || !is_evictable(
                        #[trigger] before.records[j],
                        tcp,
                        udp,
                        now,
                    )) ==> self.port_to_key@.contains_key(before.records[j].1.local_port),
                forall|j: int|
                    0 <= j < i && is_evictable(#[trigger] before.records[j], tcp, udp, now)
                        ==> !self.port_to_key@.contains_key(before.records[j].1.local_port),
                forall|a: int, b: int|
                    0 <= a < before.records.len() && 0 <= b < before.records.len() && a != b ==> (
                    #[trigger] before.records[a]).1.local_port != (
                    #[trigger] before.records[b]).1.local_port,
            decreases self.entries.len() - i,
        {
            let record = self.entries[i];
            let key = record.0;
            let entry = record.1;
            let timeout = if key.is_tcp() {
                self.tcp_timeout
            } else {
                self.udp_timeout
            };
            proof {
                assert(before.records.take(i + 1).drop_last() =~= before.records.take(i as int));
                assert(before.records.take(i + 1).last() == record);
                assert(before.records[i as int] == record);
            }
            if entry.is_expired(timeout, now) || entry.state == NatState::Closed {
                assert(is_evictable(before.records[i as int], tcp, udp, now));
                self.port_to_key.remove(&entry.local_port);
            } else {
                assert(!is_evictable(before.records[i as int], tcp, udp, now));
                kept.push(record);
                proof {
                    let ghost earlier = origin;
                    origin = origin.push(i as int);
                    assert(origin[kept.len() - 1] == i);
                    assert forall|j: int|
                        0 <= j < i + 1 && !is_evictable(
                            #[trigger] before.records[j],
                            tcp,
                            udp,
                            now,
                        ) implies exists|k: int| 0 <= k < kept.len() && #[trigger] origin[k] == j by {
                        if j < i {
                            let k0 = choose|k: int|
                                0 <= k < earlier.len() && #[trigger] earlier[k] == j;
                            assert(origin[k0] == j);
                        } else {
                            assert(origin[kept.len() - 1] == j);
                        }
                    }
                }
            }
            i += 1;
        }
        proof {
            assert(before.records.take(i as int) =~= before.records);
        }
        self.entries = kept;
        proof {
            let after = self@;
            assert forall|a: int, b: int|
                0 <= a < after.records.len() && 0 <= b < after.records.len() && a
                    != b implies (#[trigger] after.records[a]).0 != (#[trigger] after.records[b]).0 by {
                assert(origin[a] != origin[b]) by {
                    if a < b {
                        assert(origin[a] < origin[b]);
                    } else {
                        assert(origin[b] < origin[a]);
                    }
                }
                assert(after.records[a] == before.records[origin[a]]);
                assert(after.records[b] == before.records[origin[b]]);
            }
            assert forall|k: int| 0 <= k < after.records.len() implies {
                let r = #[trigger] after.records[k];
                &&& after.in_range(r.1.local_port)
                &&& after.port_index.contains_key(r.1.local_port)
                &&& after.port_index[r.1.local_port] == r.0
                &&& r.1.src_addr == SocketAddr::spec_new(r.0.src_ip, r.0.src_port)
                &&& r.1.dst_addr == SocketAddr::spec_new(r.0.dst_ip, r.0.dst_port)
            } by {
                let j = origin[k];
                assert(after.records[k] == before.records[j]);
            }
            assert forall|p: u16| #[trigger] after.port_index.contains_key(p) implies exists|k: int|
                0 <= k < after.records.len() && (#[trigger] after.records[k]).1.local_port == p by {
                assert(before.port_index.contains_key(p));
                let j = choose|j: int|
                    0 <= j < before.records.len() && (#[trigger] before.records[j]).1.local_port
                        == p;
                assert(!is_evictable(before.records[j], tcp, udp, now));
                let k = choose|k: int| 0 <= k < kept.len() && #[trigger] origin[k] == j;
                assert(after.records[k].1.local_port == p);
            }
            lemma_evict_len(before.records, tcp, udp, now);
            lemma_evict_subset(before.records, tcp, udp, now);
            lemma_history_kept(before.records, after.records);
        }
    }

    /// The entry of the flow `key`, made where the table does not hold the
    /// flow yet.
    ///
    /// A flow that the table holds is handed back as it is. For a new flow
    /// the table first evicts, where it is full, the flows that are due at
    /// `now`; it fails with `NatTableFull` where it is still full, or where
    /// every port of the range is in use. Otherwise the flow gets the first
    /// free port from the cursor on and a fresh entry in state `SynSent`,
    /// and both indices take it up.
    pub fn get_or_create(&mut self, key: NatKey, now: u64) -> (result: Result<
        &NatEntry,
        VoyageError,
    >)
        requires
            old(self).wf(),
        ensures
            final(self).wf(),
            final(self)@.same_config(old(self)@),
            carries_on(old(self)@.records, final(self)@.records),
            closed_stay_closed(old(self)@.records, final(self)@.records),
            old(self)@.after_get_or_create(
                key,
                now,
                final(self)@,
                match result {
                    Ok(e) => Ok(*e),
                    Err(e) => Err(e),
                },
            ),
    {
        match self.find(&key) {
            Some(i) => {
                proof {
                    lemma_key_index(self@.records, i as int);
                    lemma_history_kept(self@.records, self@.records);
                }
                return Ok(&self.entries[i].1);
            },
            None => {},
        }
        proof {
            lemma_history_kept(self@.records, self@.records);
        }
        if self.entries.len() >= self.max_entries {
            self.cleanup_expired(now);
            proof {
                lemma_evict_subset(
                    old(self)@.records,
                    old(self)@.tcp_timeout,
                    old(self)@.udp_timeout,
                    now,
                );
            }
            if self.entries.len() >= self.max_entries {
                proof {
                    lemma_used_ports(self@);
                }
                return Err(VoyageError::NatTableFull);
            }
        }
        let ghost base = self@;
        proof {
            lemma_used_ports(base);
            assert(!has_key(base.records, key));
            assert forall|k: int| 0 <= k < base.records.len() implies exists|j: int|
                0 <= j < old(self)@.records.len() && #[trigger] old(self)@.records[j]
                    == #[trigger] base.records[k] by {
                if base.records == old(self)@.records {
                    assert(old(self)@.records[k] == base.records[k]);
                }
            }
        }
        let local_port = match self.allocate_port() {
            Ok(p) => p,
            Err(e) => {
                return Err(e);
            },
        };
        let entry = NatEntry::new(key.src_addr(), key.dst_addr(), local_port, now);
        self.port_to_key.insert(local_port, key);
        self.entries.push((key, entry));
        proof {
            let after = self@;
            assert(after.records == base.records.push((key, entry)));
            assert forall|a: int, b: int|
                0 <= a < after.records.len() && 0 <= b < after.records.len() && a
                    != b implies (#[trigger] after.records[a]).0 != (#[trigger] after.records[b]).0 by {
                if a < base.records.len() {
                    assert(base.records[a].0 != key);
                }
                if b < base.records.len() {
                    assert(base.records[b].0 != key);
                }
            }
            assert forall|k: int| 0 <= k < after.records.len() implies {
                let r = #[trigger] after.records[k];
                &&& after.in_range(r.1.local_port)
                &&& after.port_index.contains_key(r.1.local_port)
                &&& after.port_index[r.1.local_port] == r.0
                &&& r.1.src_addr == SocketAddr::spec_new(r.0.src_ip, r.0.src_port)
                &&& r.1.dst_addr == SocketAddr::spec_new(r.0.dst_ip, r.0.dst_port)
            } by {
                if k < base.records.len() {
                    assert(after.records[k] == base.records[k]);
                    assert(base.port_index.contains_key(base.records[k].1.local_port));
                }
            }
            assert forall|p: u16| #[trigger] after.port_index.contains_key(p) implies exists|k: int|
                0 <= k < after.records.len() && (#[trigger] after.records[k]).1.local_port == p by {
                if p == local_port {
                    assert(after.records[base.records.len() as int].1.local_port == p);
                } else {
                    assert(base.port_index.contains_key(p));
                    let k = choose|k: int|
                        0 <= k < base.records.len() && (#[trigger] base.records[k]).1.local_port
                            == p;
                    assert(after.records[k] == base.records[k]);
                }
            }
            assert forall|k: int|
                0 <= k < after.records.len() && has_key(
                    old(self)@.records,
                    (#[trigger] after.records[k]).0,
                ) implies exists|j: int|
                0 <= j < old(self)@.records.len() && #[trigger] old(self)@.records[j]
                    == after.records[k] by {
                if k < base.records.len() {
                    assert(after.records[k] == base.records[k]);
                }
            }
            lemma_history_kept(old(self)@.records, after.records);
        }
        Ok(&self.entries[self.entries.len() - 1].1)
    }

    /// Replaces the entry of the flow at index `i`, keeping its port.
    fn replace_entry(&mut self, i: usize, entry: NatEntry)
        requires
            old(self).wf(),
            i < old(self)@.records.len(),
            entry.local_port == old(self)@.records[i as int].1.local_port,
            entry.src_addr == old(self)@.records[i as int].1.src_addr,
            entry.dst_addr == old(self)@.records[i as int].1.dst_addr,
        ensures
            final(self).wf(),
            final(self)@ == (NatView {
                records: old(self)@.records.update(i as int, (old(self)@.records[i as int].0, entry)),
                ..old(self)@
            }),
    {
        let ghost before = self@;
        let key = self.entries[i].0;
        self.entries.set(i, (key, entry));
        proof {
            let after = self@;
            assert forall|k: int| 0 <= k < after.records.len() implies {
                let r = #[trigger] after.records[k];
                &&& after.in_range(r.1.local_port)
                &&& after.port_index.contains_key(r.1.local_port)
                &&& after.port_index[r.1.local_port] == r.0
                &&& r.1.src_addr == SocketAddr::spec_new(r.0.src_ip, r.0.src_port)
                &&& r.1.dst_addr == SocketAddr::spec_new(r.0.dst_ip, r.0.dst_port)
            } by {
                assert(before.records[k].0 == after.records[k].0);
                assert(before.records[k].1.local_port == after.records[k].1.local_port);
            }
            assert forall|a: int, b: int|
                0 <= a < after.records.len() && 0 <= b < after.records.len() && a
                    != b implies (#[trigger] after.records[a]).0 != (#[trigger] after.records[b]).0 by {
                assert(before.records[a].0 == after.records[a].0);
                assert(before.records[b].0 == after.records[b].0);
            }
            assert forall|p: u16| #[trigger] after.port_index.contains_key(p) implies exists|k: int|
                0 <= k < after.records.len() && (#[trigger] after.records[k]).1.local_port == p by {
                let k = choose|k: int|
                    0 <= k < before.records.len() && (#[trigger] before.records[k]).1.local_port
                        == p;
                assert(after.records[k].1.local_port == p);
            }
        }
    }

    /// Moves the flow `key` to `state` and touches it at `now`. A flow that
    /// the table does not hold changes nothing, and neither does a closed
    /// flow that is asked to move to another state.
    fn transition(&mut self, key: &NatKey, state: NatState, now: u64) -> (found: bool)
        requires
            old(self).wf(),
        ensures
            final(self).wf(),
            found == has_key(old(self)@.records, *key),
            was_closed(old(self)@.records, *key) && state != NatState::Closed ==> final(self)@
                == old(self)@,
            carries_on(old(self)@.records, final(self)@.records),
            closed_stay_closed(old(self)@.records, final(self)@.records),
            final(self)@ == (NatView {
                records: with_entry(
                    old(self)@.records,
                    *key,
                    entry_of(old(self)@.records, *key).moved_to(state, now),
                ),
                ..old(self)@
            }),
    {
        match self.find(key) {
            Some(i) => {
                proof {
                    lemma_key_index(self@.records, i as int);
                }
                let mut entry = self.entries[i].1;
                if entry.state != NatState::Closed || state == NatState::Closed {
                    entry.state = state;
                    entry.touch(now);
                }
                proof {
                    lemma_history_replaced(self@.records, *key, entry);
                    if entry == self@.records[i as int].1 {
                        assert(self@.records.update(i as int, (*key, entry)) =~= self@.records);
                    }
                }
                self.replace_entry(i, entry);
                true
            },
            None => {
                proof {
                    lemma_history_kept(self@.records, self@.records);
                }
                false
            },
        }
    }

    /// Moves the flow `key` to `Established` and touches it at `now`.
    /// Returns whether the table holds the flow. Where it does not, nothing
    /// changes; nor does anything change where the flow is closed: a closed
    /// flow can only leave the table.
    pub fn establish(&mut self, key: &NatKey, now: u64) -> (found: bool)
        requires
            old(self).wf(),
        ensures
            final(self).wf(),
            found == has_key(old(self)@.records, *key),
            was_closed(old(self)@.records, *key) ==> final(self)@ == old(self)@,
            carries_on(old(self)@.records, final(self)@.records),
            closed_stay_closed(old(self)@.records, final(self)@.records),
            final(self)@ == (NatView {
                records: with_entry(
                    old(self)@.records,
                    *key,
                    entry_of(old(self)@.records, *key).moved_to(NatState::Established, now),
                ),
                ..old(self)@
            }),
    {
        self.transition(key, NatState::Established, now)
    }

    /// Moves the flow `key` to `FinWait` and touches it at `now`. Returns
    /// whether the table holds the flow. Where it does not, nothing changes;
    /// nor does anything change where the flow is closed: a closed flow can
    /// only leave the table.
    pub fn start_close(&mut self, key: &NatKey, now: u64) -> (found: bool)
        requires
            old(self).wf(),
        ensures
            final(self).wf(),
            found == has_key(old(self)@.records, *key),
            was_closed(old(self)@.records, *key) ==> final(self)@ == old(self)@,
            carries_on(old(self)@.records, final(self)@.records),
            closed_stay_closed(old(self)@.records, final(self)@.records),
            final(self)@ == (NatView {
                records: with_entry(
                    old(self)@.records,
                    *key,
                    entry_of(old(self)@.records, *key).moved_to(NatState::FinWait, now),
                ),
                ..old(self)@
            }),
    {
        self.transition(key, NatState::FinWait, now)
    }

    /// Moves the flow `key` to `Closed` and touches it at `now`. Returns
    /// whether the table holds the flow; where it does not, nothing changes.
    pub fn close(&mut self, key: &NatKey, now: u64) -> (found: bool)
        requires
            old(self).wf(),
        ensures
            final(self).wf(),
            found == has_key(old(self)@.records, *key),
            carries_on(old(self)@.records, final(self)@.records),
            closed_stay_closed(old(self)@.records, final(self)@.records),
            final(self)@ == (NatView {
                records: with_entry(
                    old(self)@.records,
                    *key,
                    entry_of(old(self)@.records, *key).moved_to(NatState::Closed, now),
                ),
                ..old(self)@
            }),
    {
        self.transition(key, NatState::Closed, now)
    }

    /// Adds `bytes` to the sent-byte counter of the flow `key`, which wraps,
    /// and touches the flow at `now`. A flow that the table does not hold
    /// changes nothing.
    pub fn add_bytes_sent(&mut self, key: &NatKey, bytes: u64, now: u64)
        requires
            old(self).wf(),
        ensures
            final(self).wf(),
            carries_on(old(self)@.records, final(self)@.records),
            closed_stay_closed(old(self)@.records, final(self)@.records),
            final(self)@ == (NatView {
                records: with_entry(
                    old(self)@.records,
                    *key,
                    (NatEntry {
                        bytes_sent: entry_of(old(self)@.records, *key).bytes_sent.wrapping_add(
                            bytes,
                        ),
                        ..entry_of(old(self)@.records, *key)
                    }).touched(now),
                ),
                ..old(self)@
            }),
    {
        match self.find(key) {
            Some(i) => {
                proof {
                    lemma_key_index(self@.records, i as int);
                }
                let mut entry = self.entries[i].1;
                entry.bytes_sent = entry.bytes_sent.wrapping_add(bytes);
                entry.touch(now);
                proof {
                    lemma_history_replaced(self@.records, *key, entry);
                }
                self.replace_entry(i, entry);
            },
            None => {
                proof {
                    lemma_history_kept(self@.records, self@.records);
                }
            },
        }
    }

    /// Adds `bytes` to the received-byte counter of the flow `key`, which
    /// wraps, and touches the flow at `now`. A flow that the table does not
    /// hold changes nothing.
    pub fn add_bytes_received(&mut self, key: &NatKey, bytes: u64, now: u64)
        requires
            old(self).wf(),
        ensures
            final(self).wf(),
            carries_on(old(self)@.records, final(self)@.records),
            closed_stay_closed(old(self)@.records, final(self)@.records),
            final(self)@ == (NatView {
                records: with_entry(
                    old(self)@.records,
                    *key,
                    (NatEntry {
                        bytes_received: entry_of(
                            old(self)@.records,
                            *key,
                        ).bytes_received.wrapping_add(bytes),
                        ..entry_of(old(self)@.records, *key)
                    }).touched(now),
                ),
                ..old(self)@
            }),
    {
        match self.find(key) {
            Some(i) => {
                proof {
                    lemma_key_index(self@.records, i as int);
                }
                let mut entry = self.entries[i].1;
                entry.bytes_received = entry.bytes_received.wrapping_add(bytes);
                entry.touch(now);
                proof {
                    lemma_history_replaced(self@.records, *key, entry);
                }
                self.replace_entry(i, entry);
            },
            None => {
                proof {
                    lemma_history_kept(self@.records, self@.records);
                }
            },
        }
    }

    /// Removes the flow `key` from both indices and hands back its entry.
    /// A flow that the table does not hold changes nothing.
    pub fn remove(&mut self, key: &NatKey) -> (removed: Option<NatEntry>)
        requires
            old(self).wf(),
        ensures
            final(self).wf(),
            removed == lookup(old(self)@.records, *key),
            final(self)@.same_config(old(self)@),
            carries_on(old(self)@.records, final(self)@.records),
            closed_stay_closed(old(self)@.records, final(self)@.records),
            final(self)@.next_port == old(self)@.next_port,
            final(self)@.records == without_key(old(self)@.records, *key),
            removed matches Some(e) ==> final(self)@.port_index == old(self)@.port_index.remove(
                e.local_port,
            ),
            removed is None ==> final(self)@ == old(self)@,
    {
        match self.find(key) {
            Some(i) => {
                let ghost before = self@;
                proof {
                    lemma_key_index(before.records, i as int);
                    lemma_table_invariants(before);
                }
                let record = self.entries.remove(i);
                self.port_to_key.remove(&record.1.local_port);
                proof {
                    let after = self@;
                    assert(after.records == before.records.remove(i as int));
                    assert forall|k: int| 0 <= k < after.records.len() implies {
                        let r = #[trigger] after.records[k];
                        &&& after.in_range(r.1.local_port)
                        &&& after.port_index.contains_key(r.1.local_port)
                        &&& after.port_index[r.1.local_port] == r.0
                        &&& r.1.src_addr == SocketAddr::spec_new(r.0.src_ip, r.0.src_port)
                        &&& r.1.dst_addr == SocketAddr::spec_new(r.0.dst_ip, r.0.dst_port)
                    } by {
                        let j = if k < i {
                            k
                        } else {
                            k + 1
                        };
                        assert(after.records[k] == before.records[j]);
                        assert(before.records[j].1.local_port != before.records[i as int].1.local_port);
                    }
                    assert forall|a: int, b: int|
                        0 <= a < after.records.len() && 0 <= b < after.records.len() && a
                            != b implies (#[trigger] after.records[a]).0 != (
                    #[trigger] after.records[b]).0 by {
                        let ja = if a < i {
                            a
                        } else {
                            a + 1
                        };
                        let jb = if b < i {
                            b
                        } else {
                            b + 1
                        };
                        assert(after.records[a] == before.records[ja]);
                        assert(after.records[b] == before.records[jb]);
                    }
                    assert forall|p: u16| #[trigger]
                        after.port_index.contains_key(p) implies exists|k: int|
                        0 <= k < after.records.len() && (#[trigger] after.records[k]).1.local_port
                            == p by {
                        let j = choose|j: int|
                            0 <= j < before.records.len() && (
                            #[trigger] before.records[j]).1.local_port == p;
                        let k = if j < i {
                            j
                        } else {
                            j - 1
                        };
                        assert(after.records[k] == before.records[j]);
                    }
                    assert forall|k: int| 0 <= k < after.records.len() implies exists|j: int|
                        0 <= j < before.records.len() && #[trigger] before.records[j]
                            == #[trigger] after.records[k] by {
                        let j = if k < i {
                            k
                        } else {
                            k + 1
                        };
                        assert(before.records[j] == after.records[k]);
                    }
                    lemma_history_kept(before.records, after.records);
                }
                Some(record.1)
            },
            None => {
                proof {
                    lemma_history_kept(self@.records, self@.records);
                }
                None
            },
        }
    }
}

/// Whether every flow of `before` that is still in `after` has kept its
/// port and its addresses, and was last seen no earlier than before.
pub open spec fn carries_on(before: Seq<NatRecord>, after: Seq<NatRecord>) -> bool {
    forall|key: NatKey|
        has_key(before, key) && #[trigger] has_key(after, key) ==> {
            let old_entry = entry_of(before, key);
            let new_entry = entry_of(after, key);
            &&& new_entry.last_seen >= old_entry.last_seen
            &&& new_entry.local_port == old_entry.local_port
            &&& new_entry.src_addr == old_entry.src_addr
            &&& new_entry.dst_addr == old_entry.dst_addr
        }
}

/// Whether every flow that was closed in `before` and is still in `after`
/// is closed there too.
pub open spec fn closed_stay_closed(before: Seq<NatRecord>, after: Seq<NatRecord>) -> bool {
    forall|key: NatKey|
        has_key(before, key) && #[trigger] has_key(after, key) && entry_of(before, key).state
            == NatState::Closed ==> entry_of(after, key).state == NatState::Closed
}

/// Where every record of `after` whose flow was in `before` is a record of
/// `before`, the flows carry on and the closed ones stay closed.
pub proof fn lemma_history_kept(before: Seq<NatRecord>, after: Seq<NatRecord>)
    requires
        distinct_keys(before),
        forall|k: int|
            0 <= k < after.len() && has_key(before, (#[trigger] after[k]).0) ==> exists|j: int|
                0 <= j < before.len() && #[trigger] before[j] == after[k],
    ensures
        carries_on(before, after),
        closed_stay_closed(before, after),
{
    assert forall|key: NatKey| has_key(before, key) && #[trigger] has_key(after, key) implies
        entry_of(after, key) == entry_of(before, key) by {
        let k = key_index(after, key);
        assert(after[k].0 == key);
        let j = choose|j: int| 0 <= j < before.len() && #[trigger] before[j] == after[k];
        lemma_key_index(before, j);
    }
}

/// Where the flows stand as before, one by one, and each entry has kept its
/// port and addresses, was seen no earlier, and is closed if it was, the
/// flows carry on and the closed ones stay closed.
pub proof fn lemma_history_pointwise(before: Seq<NatRecord>, after: Seq<NatRecord>)
    requires
        distinct_keys(before),
        after.len() == before.len(),
        forall|i: int|
            0 <= i < before.len() ==> {
                let old_entry = before[i].1;
                let new_entry = (#[trigger] after[i]).1;
                &&& after[i].0 == before[i].0
                &&& new_entry.last_seen >= old_entry.last_seen
                &&& new_entry.local_port == old_entry.local_port
                &&& new_entry.src_addr == old_entry.src_addr
                &&& new_entry.dst_addr == old_entry.dst_addr
                &&& old_entry.state == NatState::Closed ==> new_entry.state == NatState::Closed
            },
    ensures
        carries_on(before, after),
        closed_stay_closed(before, after),
{
    assert forall|key: NatKey| has_key(before, key) && #[trigger] has_key(after, key) implies {
        let k = key_index(after, key);
        &&& 0 <= k < before.len()
        &&& entry_of(before, key) == before[k].1
        &&& entry_of(after, key) == after[k].1
    } by {
        let k = key_index(after, key);
        assert(after[k].0 == key);
        lemma_key_index(before, k);
    }
}

/// Where the entry of one flow is replaced by one that was seen no earlier
/// and has the same port and addresses, the flows carry on; the closed ones
/// stay closed unless the replaced entry was closed and the new one is not.
pub proof fn lemma_history_replaced(before: Seq<NatRecord>, key: NatKey, entry: NatEntry)
    requires
        distinct_keys(before),
        has_key(before, key) ==> {
            &&& entry.last_seen >= entry_of(before, key).last_seen
            &&& entry.local_port == entry_of(before, key).local_port
            &&& entry.src_addr == entry_of(before, key).src_addr
            &&& entry.dst_addr == entry_of(before, key).dst_addr
        },
    ensures
        carries_on(before, with_entry(before, key, entry)),
        distinct_keys(with_entry(before, key, entry)),
        (has_key(before, key) && entry_of(before, key).state == NatState::Closed ==> entry.state
            == NatState::Closed) ==> closed_stay_closed(before, with_entry(before, key, entry)),
        forall|other: NatKey|
            has_key(with_entry(before, key, entry), other) <==> has_key(before, other),
{
    let after = with_entry(before, key, entry);
    if has_key(before, key) {
        let i = key_index(before, key);
        assert(0 <= i < before.len() && before[i].0 == key);
        assert forall|a: int, b: int|
            0 <= a < after.len() && 0 <= b < after.len() && a != b implies (#[trigger] after[a]).0
            != (#[trigger] after[b]).0 by {
            assert(after[a].0 == before[a].0);
            assert(after[b].0 == before[b].0);
        }
        assert forall|other: NatKey| has_key(after, other) <==> has_key(before, other) by {
            if has_key(after, other) {
                let k = key_index(after, other);
                assert(before[k].0 == other);
            }
            if has_key(before, other) {
                let k = key_index(before, other);
                assert(after[k].0 == other);
            }
        }
        assert forall|other: NatKey|
            has_key(before, other) && #[trigger] has_key(after, other) implies {
            &&& other != key ==> entry_of(after, other) == entry_of(before, other)
            &&& other == key ==> entry_of(after, other) == entry
        } by {
            let k = key_index(after, other);
            assert(after[k].0 == other);
            assert(before[k].0 == other);
            lemma_key_index(before, k);
            lemma_key_index(after, k);
        }
    } else {
        lemma_history_kept(before, after);
    }
}

/// `records` with the entry of the flow `key` replaced by `entry`; the same
/// records where the flow is not among them.
pub open spec fn with_entry(records: Seq<NatRecord>, key: NatKey, entry: NatEntry) -> Seq<
    NatRecord,
> {
    if has_key(records, key) {
        records.update(key_index(records, key), (key, entry))
    } else {
        records
    }
}

/// `records` without the flow `key`.
pub open spec fn without_key(records: Seq<NatRecord>, key: NatKey) -> Seq<NatRecord> {
    if has_key(records, key) {
        records.remove(key_index(records, key))
    } else {
        records
    }
}

/// Eviction never adds a record.
pub proof fn lemma_evict_len(records: Seq<NatRecord>, tcp_timeout: u64, udp_timeout: u64, now: u64)
    ensures
        evict(records, tcp_timeout, udp_timeout, now).len() <= records.len(),
    decreases records.len(),
{
    if records.len() > 0 {
        lemma_evict_len(records.drop_last(), tcp_timeout, udp_timeout, now);
    }
}

/// What stays after eviction was there before, and is not due.
pub proof fn lemma_evict_subset(
    records: Seq<NatRecord>,
    tcp_timeout: u64,
    udp_timeout: u64,
    now: u64,
)
    ensures
        forall|k: int|
            0 <= k < evict(records, tcp_timeout, udp_timeout, now).len() ==> {
                let r = #[trigger] evict(records, tcp_timeout, udp_timeout, now)[k];
                &&& !is_evictable(r, tcp_timeout, udp_timeout, now)
                &&& exists|j: int| 0 <= j < records.len() && #[trigger] records[j] == r
            },
        forall|key: NatKey|
            !has_key(records, key) ==> !has_key(
                evict(records, tcp_timeout, udp_timeout, now),
                key,
            ),
    decreases records.len(),
{
    let out = evict(records, tcp_timeout, udp_timeout, now);
    if records.len() > 0 {
        let init = records.drop_last();
        lemma_evict_subset(init, tcp_timeout, udp_timeout, now);
        let before = evict(init, tcp_timeout, udp_timeout, now);
        assert forall|k: int| 0 <= k < out.len() implies {
            let r = #[trigger] out[k];
            &&& !is_evictable(r, tcp_timeout, udp_timeout, now)
            &&& exists|j: int| 0 <= j < records.len() && #[trigger] records[j] == r
        } by {
            if k < before.len() {
                assert(out[k] == before[k]);
                let j = choose|j: int| 0 <= j < init.len() && #[trigger] init[j] == before[k];
                assert(records[j] == out[k]);
            } else {
                assert(out[k] == records.last());
                assert(records[records.len() - 1] == out[k]);
            }
        }
    }
    assert forall|key: NatKey| !has_key(records, key) implies !has_key(out, key) by {
        if has_key(out, key) {
            let k = choose|k: int| 0 <= k < out.len() && (#[trigger] out[k]).0 == key;
            let j = choose|j: int| 0 <= j < records.len() && #[trigger] records[j] == out[k];
            assert(records[j].0 == key);
        }
    }
}

/// In a well-formed table the ports in use are the ports of the records.
pub proof fn lemma_used_ports(v: NatView)
    requires
        v.wf(),
    ensures
        v.used_ports() == NatView::record_ports(v.records),
{
    let ports = NatView::record_ports(v.records);
    assert forall|p: u16| v.used_ports().contains(p) == ports.contains(p) by {
        if ports.contains(p) {
            let i = choose|i: int|
                0 <= i < v.records.len() && (#[trigger] v.records[i]).1.local_port == p;
            assert(v.port_index.contains_key(v.records[i].1.local_port));
        }
        if v.used_ports().contains(p) {
            assert(v.port_index.contains_key(p));
        }
    }
    assert(v.used_ports() =~= ports);
}

impl Default for NatManager {
    fn default() -> (table: NatManager)
        ensures
            table.wf(),
            table@.records.len() == 0,
    {
        NatManager::new()
    }
}

} // verus!

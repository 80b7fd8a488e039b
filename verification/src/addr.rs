//! Network addresses as plain values: IPv4 and IPv6 addresses and socket
//! addresses, with their big-endian byte form.

use vstd::prelude::*;

use crate::text::{copy_range, digits_chars, digits_value, split, split_chars, views};

verus! {

/// An IPv4 address, held as its 32 bits in network order: the first octet is
/// the most significant byte.
#[derive(Clone, Copy, Debug, PartialEq, Eq, Hash, Structural)]
pub struct Ipv4Addr {
    pub bits: u32,
}

/// The 32-bit value whose big-endian bytes are `a, b, c, d`.
pub open spec fn bits_of_octets(a: u8, b: u8, c: u8, d: u8) -> u32 {
    (a as int * 0x100_0000 + b as int * 0x1_0000 + c as int * 0x100 + d as int) as u32
}

/// Byte `i` (0 is the most significant) of a 32-bit value.
pub open spec fn octet_of_bits(bits: u32, i: int) -> u8 {
    if i == 0 {
        (bits / 0x100_0000) as u8
    } else if i == 1 {
        ((bits / 0x1_0000) % 0x100) as u8
    } else if i == 2 {
        ((bits / 0x100) % 0x100) as u8
    } else {
        (bits % 0x100) as u8
    }
}

/// The 64-bit value whose big-endian bytes are the eight bytes of `s` that
/// start at `at`.
pub open spec fn be_u64(s: Seq<u8>, at: int) -> u64 {
    (s[at] as int * 0x100_0000_0000_0000 + s[at + 1] as int * 0x1_0000_0000_0000 + s[at + 2] as int
        * 0x100_0000_0000 + s[at + 3] as int * 0x1_0000_0000 + s[at + 4] as int * 0x100_0000 + s[at
        + 5] as int * 0x1_0000 + s[at + 6] as int * 0x100 + s[at + 7] as int) as u64
}

/// Byte `i` (0 is the most significant) of a 64-bit value.
pub open spec fn octet_of_u64(v: u64, i: int) -> u8 {
    if i == 0 {
        (v / 0x100_0000_0000_0000) as u8
    } else if i == 1 {
        ((v / 0x1_0000_0000_0000) % 0x100) as u8
    } else if i == 2 {
        ((v / 0x100_0000_0000) % 0x100) as u8
    } else if i == 3 {
        ((v / 0x1_0000_0000) % 0x100) as u8
    } else if i == 4 {
        ((v / 0x100_0000) % 0x100) as u8
    } else if i == 5 {
        ((v / 0x1_0000) % 0x100) as u8
    } else if i == 6 {
        ((v / 0x100) % 0x100) as u8
    } else {
        (v % 0x100) as u8
    }
}

impl Ipv4Addr {
    /// The four octets, first octet first.
    pub open spec fn spec_octets(self) -> Seq<u8> {
        seq![
            octet_of_bits(self.bits, 0),
            octet_of_bits(self.bits, 1),
            octet_of_bits(self.bits, 2),
            octet_of_bits(self.bits, 3),
        ]
    }

    /// The address `a.b.c.d`.
    pub fn new(a: u8, b: u8, c: u8, d: u8) -> (addr: Ipv4Addr)
        ensures
            addr.bits == bits_of_octets(a, b, c, d),
            addr.spec_octets() == seq![a, b, c, d],
    {
        let bits: u32 = (a as u32) * 0x100_0000 + (b as u32) * 0x1_0000 + (c as u32) * 0x100 + (
        d as u32);
        let addr = Ipv4Addr { bits };
        proof {
            lemma_octets_of_bits(a, b, c, d);
        }
        addr
    }

    /// The address with the given 32 bits.
    pub fn from_bits(bits: u32) -> (addr: Ipv4Addr)
        ensures
            addr.bits == bits,
    {
        Ipv4Addr { bits }
    }

    /// The 32 bits of the address.
    pub fn to_bits(&self) -> (bits: u32)
        ensures
            bits == self.bits,
    {
        self.bits
    }

    /// The four octets, first octet first.
    pub fn octets(&self) -> (o: [u8; 4])
        ensures
            o@ == self.spec_octets(),
    {
        let o: [u8; 4] = [
            (self.bits / 0x100_0000) as u8,
            ((self.bits / 0x1_0000) % 0x100) as u8,
            ((self.bits / 0x100) % 0x100) as u8,
            (self.bits % 0x100) as u8,
        ];
        assert(o@ =~= self.spec_octets());
        o
    }
}

/// Quotient and remainder of `q * d + r` by `d`, for `0 <= r < d`.
pub proof fn lemma_div_mod_of_parts(x: int, d: int, q: int, r: int)
    requires
        d > 0,
        0 <= r < d,
        x == q * d + r,
    ensures
        x / d == q,
        x % d == r,
{
    vstd::arithmetic::div_mod::lemma_fundamental_div_mod_converse_div(x, d, q, r);
    vstd::arithmetic::div_mod::lemma_fundamental_div_mod_converse_mod(x, d, q, r);
}

/// The octets of the address built from four octets are those octets.
pub proof fn lemma_octets_of_bits(a: u8, b: u8, c: u8, d: u8)
    ensures
        octet_of_bits(bits_of_octets(a, b, c, d), 0) == a,
        octet_of_bits(bits_of_octets(a, b, c, d), 1) == b,
        octet_of_bits(bits_of_octets(a, b, c, d), 2) == c,
        octet_of_bits(bits_of_octets(a, b, c, d), 3) == d,
        (Ipv4Addr { bits: bits_of_octets(a, b, c, d) }).spec_octets() == seq![a, b, c, d],
{
    let x: int = a as int * 0x100_0000 + b as int * 0x1_0000 + c as int * 0x100 + d as int;
    assert(bits_of_octets(a, b, c, d) == x);
    let p1: int = a as int * 0x100 + b as int;
    let p2: int = p1 * 0x100 + c as int;
    lemma_div_mod_of_parts(x, 0x100_0000, a as int, b as int * 0x1_0000 + c as int * 0x100 + d as int);
    lemma_div_mod_of_parts(x, 0x1_0000, p1, c as int * 0x100 + d as int);
    lemma_div_mod_of_parts(p1, 0x100, a as int, b as int);
    lemma_div_mod_of_parts(x, 0x100, p2, d as int);
    lemma_div_mod_of_parts(p2, 0x100, p1, c as int);
    let addr = Ipv4Addr { bits: bits_of_octets(a, b, c, d) };
    assert(addr.spec_octets() =~= seq![a, b, c, d]);
}

/// An IPv6 address, held as two 64-bit halves in network order: `hi` holds
/// the first eight octets, `lo` the last eight.
#[derive(Clone, Copy, Debug, PartialEq, Eq, Hash, Structural)]
pub struct Ipv6Addr {
    pub hi: u64,
    pub lo: u64,
}

impl Ipv6Addr {
    /// The sixteen octets, first octet first.
    pub open spec fn spec_octets(self) -> Seq<u8> {
        Seq::new(
            16,
            |i: int|
                if i < 8 {
                    octet_of_u64(self.hi, i)
                } else {
                    octet_of_u64(self.lo, i - 8)
                },
        )
    }

    /// The address whose octets are `s[at .. at + 16]`.
    pub open spec fn spec_from_octets(s: Seq<u8>, at: int) -> Ipv6Addr {
        Ipv6Addr { hi: be_u64(s, at), lo: be_u64(s, at + 8) }
    }

    /// The address whose sixteen octets stand in `data` from index `at` on.
    pub fn from_slice(data: &[u8], at: usize) -> (addr: Ipv6Addr)
        requires
            at + 16 <= data.len(),
        ensures
            addr == Self::spec_from_octets(data@, at as int),
            addr.spec_octets() == data@.subrange(at as int, at + 16),
    {
        let hi = read_be_u64(data, at);
        let lo = read_be_u64(data, at + 8);
        let addr = Ipv6Addr { hi, lo };
        proof {
            lemma_ipv6_octets(data@, at as int);
        }
        addr
    }

    /// The address with the given sixteen octets.
    pub fn from_octets(o: [u8; 16]) -> (addr: Ipv6Addr)
        ensures
            addr == Self::spec_from_octets(o@, 0),
            addr.spec_octets() == o@,
    {
        let addr = Self::from_slice(o.as_slice(), 0);
        assert(o@.subrange(0, 16) =~= o@);
        addr
    }

    /// The address with the given eight 16-bit groups, first group first.
    pub fn new(a: u16, b: u16, c: u16, d: u16, e: u16, f: u16, g: u16, h: u16) -> (addr: Ipv6Addr)
        ensures
            addr.hi == a as int * 0x1_0000_0000_0000 + b as int * 0x1_0000_0000 + c as int
                * 0x1_0000 + d as int,
            addr.lo == e as int * 0x1_0000_0000_0000 + f as int * 0x1_0000_0000 + g as int
                * 0x1_0000 + h as int,
    {
        let hi: u64 = (a as u64) * 0x1_0000_0000_0000 + (b as u64) * 0x1_0000_0000 + (c as u64)
            * 0x1_0000 + (d as u64);
        let lo: u64 = (e as u64) * 0x1_0000_0000_0000 + (f as u64) * 0x1_0000_0000 + (g as u64)
            * 0x1_0000 + (h as u64);
        Ipv6Addr { hi, lo }
    }

    /// The sixteen octets, first octet first.
    pub fn octets(&self) -> (o: [u8; 16])
        ensures
            o@ == self.spec_octets(),
    {
        let hi = self.hi;
        let lo = self.lo;
        let o: [u8; 16] = [
            (hi / 0x100_0000_0000_0000) as u8,
            ((hi / 0x1_0000_0000_0000) % 0x100) as u8,
            ((hi / 0x100_0000_0000) % 0x100) as u8,
            ((hi / 0x1_0000_0000) % 0x100) as u8,
            ((hi / 0x100_0000) % 0x100) as u8,
            ((hi / 0x1_0000) % 0x100) as u8,
            ((hi / 0x100) % 0x100) as u8,
            (hi % 0x100) as u8,
            (lo / 0x100_0000_0000_0000) as u8,
            ((lo / 0x1_0000_0000_0000) % 0x100) as u8,
            ((lo / 0x100_0000_0000) % 0x100) as u8,
            ((lo / 0x1_0000_0000) % 0x100) as u8,
            ((lo / 0x100_0000) % 0x100) as u8,
            ((lo / 0x1_0000) % 0x100) as u8,
            ((lo / 0x100) % 0x100) as u8,
            (lo % 0x100) as u8,
        ];
        assert(o@ =~= self.spec_octets());
        o
    }
}

/// Reads the eight bytes of `data` that start at `at` as a big-endian number.
pub fn read_be_u64(data: &[u8], at: usize) -> (v: u64)
    requires
        at + 8 <= data.len(),
    ensures
        v == be_u64(data@, at as int),
{
    (data[at] as u64) * 0x100_0000_0000_0000 + (data[at + 1] as u64) * 0x1_0000_0000_0000 + (
    data[at + 2] as u64) * 0x100_0000_0000 + (data[at + 3] as u64) * 0x1_0000_0000 + (data[at
        + 4] as u64) * 0x100_0000 + (data[at + 5] as u64) * 0x1_0000 + (data[at + 6] as u64)
        * 0x100 + (data[at + 7] as u64)
}

/// The octets of the number read from eight bytes are those bytes.
pub proof fn lemma_octets_of_u64(s: Seq<u8>, at: int)
    requires
        0 <= at,
        at + 8 <= s.len(),
    ensures
        forall|i: int| 0 <= i < 8 ==> octet_of_u64(be_u64(s, at), i) == #[trigger] s[at + i],
{
    let b0 = s[at] as int;
    let b1 = s[at + 1] as int;
    let b2 = s[at + 2] as int;
    let b3 = s[at + 3] as int;
    let b4 = s[at + 4] as int;
    let b5 = s[at + 5] as int;
    let b6 = s[at + 6] as int;
    let b7 = s[at + 7] as int;
    let p1 = b0 * 0x100 + b1;
    let p2 = p1 * 0x100 + b2;
    let p3 = p2 * 0x100 + b3;
    let p4 = p3 * 0x100 + b4;
    let p5 = p4 * 0x100 + b5;
    let p6 = p5 * 0x100 + b6;
    let x = p6 * 0x100 + b7;
    let r6 = b7;
    let r5 = b6 * 0x100 + r6;
    let r4 = b5 * 0x1_0000 + r5;
    let r3 = b4 * 0x100_0000 + r4;
    let r2 = b3 * 0x1_0000_0000 + r3;
    let r1 = b2 * 0x100_0000_0000 + r2;
    let r0 = b1 * 0x1_0000_0000_0000 + r1;
    assert(be_u64(s, at) == x);
    lemma_div_mod_of_parts(x, 0x100_0000_0000_0000, b0, r0);
    lemma_div_mod_of_parts(x, 0x1_0000_0000_0000, p1, r1);
    lemma_div_mod_of_parts(x, 0x100_0000_0000, p2, r2);
    lemma_div_mod_of_parts(x, 0x1_0000_0000, p3, r3);
    lemma_div_mod_of_parts(x, 0x100_0000, p4, r4);
    lemma_div_mod_of_parts(x, 0x1_0000, p5, r5);
    lemma_div_mod_of_parts(x, 0x100, p6, r6);
    lemma_div_mod_of_parts(p1, 0x100, b0, b1);
    lemma_div_mod_of_parts(p2, 0x100, p1, b2);
    lemma_div_mod_of_parts(p3, 0x100, p2, b3);
    lemma_div_mod_of_parts(p4, 0x100, p3, b4);
    lemma_div_mod_of_parts(p5, 0x100, p4, b5);
    lemma_div_mod_of_parts(p6, 0x100, p5, b6);
    let v = be_u64(s, at);
    assert(octet_of_u64(v, 0) == s[at + 0]);
    assert(octet_of_u64(v, 1) == s[at + 1]);
    assert(octet_of_u64(v, 2) == s[at + 2]);
    assert(octet_of_u64(v, 3) == s[at + 3]);
    assert(octet_of_u64(v, 4) == s[at + 4]);
    assert(octet_of_u64(v, 5) == s[at + 5]);
    assert(octet_of_u64(v, 6) == s[at + 6]);
    assert(octet_of_u64(v, 7) == s[at + 7]);
}

/// The octets of the address read from sixteen bytes are those bytes.
pub proof fn lemma_ipv6_octets(s: Seq<u8>, at: int)
    requires
        0 <= at,
        at + 16 <= s.len(),
    ensures
        Ipv6Addr::spec_from_octets(s, at).spec_octets() == s.subrange(at, at + 16),
{
    lemma_octets_of_u64(s, at);
    lemma_octets_of_u64(s, at + 8);
    let addr = Ipv6Addr::spec_from_octets(s, at);
    assert forall|i: int| 0 <= i < 16 implies addr.spec_octets()[i] == s[at + i] by {
        if i < 8 {
            assert(s[at + i] == octet_of_u64(be_u64(s, at), i));
        } else {
            assert(s[(at + 8) + (i - 8)] == octet_of_u64(be_u64(s, at + 8), i - 8));
        }
    }
    assert(addr.spec_octets() =~= s.subrange(at, at + 16));
}

/// An IP address of either family. Addresses of different families are never
/// equal.
#[derive(Clone, Copy, Debug, PartialEq, Eq, Hash, Structural)]
pub enum IpAddr {
    V4(Ipv4Addr),
    V6(Ipv6Addr),
}

impl IpAddr {
    /// The octets of the address: four for IPv4, sixteen for IPv6.
    pub open spec fn spec_octets(self) -> Seq<u8> {
        match self {
            IpAddr::V4(a) => a.spec_octets(),
            IpAddr::V6(a) => a.spec_octets(),
        }
    }

    pub fn is_ipv4(&self) -> (r: bool)
        ensures
            r == (*self is V4),
    {
        match self {
            IpAddr::V4(_) => true,
            IpAddr::V6(_) => false,
        }
    }

    pub fn is_ipv6(&self) -> (r: bool)
        ensures
            r == (*self is V6),
    {
        match self {
            IpAddr::V4(_) => false,
            IpAddr::V6(_) => true,
        }
    }
}

/// An IPv4 address with a port.
#[derive(Clone, Copy, Debug, PartialEq, Eq, Hash, Structural)]
pub struct SocketAddrV4 {
    pub ip: Ipv4Addr,
    pub port: u16,
}

impl SocketAddrV4 {
    pub fn new(ip: Ipv4Addr, port: u16) -> (addr: SocketAddrV4)
        ensures
            addr == (SocketAddrV4 { ip, port }),
    {
        SocketAddrV4 { ip, port }
    }

    pub fn ip(&self) -> (ip: Ipv4Addr)
        ensures
            ip == self.ip,
    {
        self.ip
    }

    pub fn port(&self) -> (port: u16)
        ensures
            port == self.port,
    {
        self.port
    }
}

/// An IPv6 address with a port, flow information and a scope.
#[derive(Clone, Copy, Debug, PartialEq, Eq, Hash, Structural)]
pub struct SocketAddrV6 {
    pub ip: Ipv6Addr,
    pub port: u16,
    pub flowinfo: u32,
    pub scope_id: u32,
}

impl SocketAddrV6 {
    pub fn new(ip: Ipv6Addr, port: u16, flowinfo: u32, scope_id: u32) -> (addr: SocketAddrV6)
        ensures
            addr == (SocketAddrV6 { ip, port, flowinfo, scope_id }),
    {
        SocketAddrV6 { ip, port, flowinfo, scope_id }
    }

    pub fn ip(&self) -> (ip: Ipv6Addr)
        ensures
            ip == self.ip,
    {
        self.ip
    }

    pub fn port(&self) -> (port: u16)
        ensures
            port == self.port,
    {
        self.port
    }
}

/// An IP address with a port.
#[derive(Clone, Copy, Debug, PartialEq, Eq, Hash, Structural)]
pub enum SocketAddr {
    V4(SocketAddrV4),
    V6(SocketAddrV6),
}

impl SocketAddr {
    /// The address of the socket address.
    pub open spec fn spec_ip(self) -> IpAddr {
        match self {
            SocketAddr::V4(a) => IpAddr::V4(a.ip),
            SocketAddr::V6(a) => IpAddr::V6(a.ip),
        }
    }

    /// The port of the socket address.
    pub open spec fn spec_port(self) -> u16 {
        match self {
            SocketAddr::V4(a) => a.port,
            SocketAddr::V6(a) => a.port,
        }
    }

    /// The socket address of `ip` and `port`; for IPv6 the flow information
    /// and the scope are zero.
    pub open spec fn spec_new(ip: IpAddr, port: u16) -> SocketAddr {
        match ip {
            IpAddr::V4(a) => SocketAddr::V4(SocketAddrV4 { ip: a, port }),
            IpAddr::V6(a) => SocketAddr::V6(SocketAddrV6 { ip: a, port, flowinfo: 0, scope_id: 0 }),
        }
    }

    pub fn new(ip: IpAddr, port: u16) -> (addr: SocketAddr)
        ensures
            addr == Self::spec_new(ip, port),
            addr.spec_ip() == ip,
            addr.spec_port() == port,
    {
        match ip {
            IpAddr::V4(a) => SocketAddr::V4(SocketAddrV4 { ip: a, port }),
            IpAddr::V6(a) => SocketAddr::V6(SocketAddrV6 { ip: a, port, flowinfo: 0, scope_id: 0 }),
        }
    }

    pub fn ip(&self) -> (ip: IpAddr)
        ensures
            ip == self.spec_ip(),
    {
        match self {
            SocketAddr::V4(a) => IpAddr::V4(a.ip),
            SocketAddr::V6(a) => IpAddr::V6(a.ip),
        }
    }

    pub fn port(&self) -> (port: u16)
        ensures
            port == self.spec_port(),
    {
        match self {
            SocketAddr::V4(a) => a.port,
            SocketAddr::V6(a) => a.port,
        }
    }
}

/// The octet that one group of a dotted address spells: one to three digits,
/// without a leading zero unless the group is `0`, no larger than 255.
pub open spec fn octet_text_value(g: Seq<char>) -> Option<u8> {
    if 1 <= g.len() <= 3 && (g.len() == 1 || g[0] != '0') {
        match digits_value(g, 255) {
            Ok(v) => Some(v as u8),
            Err(_) => None,
        }
    } else {
        None
    }
}

/// The IPv4 address that a text spells in dotted form: four groups with a
/// dot between them.
pub open spec fn parse_ipv4_text(s: Seq<char>) -> Option<Ipv4Addr> {
    let parts = split(s, '.');
    if parts.len() == 4 && octet_text_value(parts[0]) is Some && octet_text_value(parts[1]) is Some
        && octet_text_value(parts[2]) is Some && octet_text_value(parts[3]) is Some {
        Some(
            Ipv4Addr {
                bits: bits_of_octets(
                    octet_text_value(parts[0])->0,
                    octet_text_value(parts[1])->0,
                    octet_text_value(parts[2])->0,
                    octet_text_value(parts[3])->0,
                ),
            },
        )
    } else {
        None
    }
}

/// Reads one group of a dotted address.
fn read_octet(g: &[char]) -> (r: Option<u8>)
    ensures
        r == octet_text_value(g@),
{
    if g.len() < 1 || g.len() > 3 {
        return None;
    }
    if g.len() > 1 && g[0] == '0' {
        return None;
    }
    match digits_chars(g, 255) {
        Ok(v) => Some(v as u8),
        Err(_) => None,
    }
}

impl Ipv4Addr {
    /// Reads an address in dotted form, such as `192.168.0.1`.
    pub fn parse(s: &[char]) -> (r: Option<Ipv4Addr>)
        ensures
            r == parse_ipv4_text(s@),
    {
        let parts = split_chars(s, '.');
        if parts.len() != 4 {
            return None;
        }
        assert(views(parts@)[0] == parts@[0]@);
        assert(views(parts@)[1] == parts@[1]@);
        assert(views(parts@)[2] == parts@[2]@);
        assert(views(parts@)[3] == parts@[3]@);
        let a = match read_octet(parts[0].as_slice()) {
            Some(v) => v,
            None => {
                return None;
            },
        };
        let b = match read_octet(parts[1].as_slice()) {
            Some(v) => v,
            None => {
                return None;
            },
        };
        let c = match read_octet(parts[2].as_slice()) {
            Some(v) => v,
            None => {
                return None;
            },
        };
        let d = match read_octet(parts[3].as_slice()) {
            Some(v) => v,
            None => {
                return None;
            },
        };
        Some(Ipv4Addr::new(a, b, c, d))
    }
}

/// Whether `c` is a hexadecimal digit, in either case.
pub open spec fn is_hex_digit(c: char) -> bool {
    ('0' <= c <= '9') || ('a' <= c <= 'f') || ('A' <= c <= 'F')
}

/// The value of a hexadecimal digit.
pub open spec fn hex_digit_value(c: char) -> nat {
    if '0' <= c <= '9' {
        (c as u32 - 48) as nat
    } else if 'a' <= c <= 'f' {
        (c as u32 - 87) as nat
    } else {
        (c as u32 - 55) as nat
    }
}

/// The number that a run of hexadecimal digits spells; none where a
/// character is no such digit.
pub open spec fn hex_value(g: Seq<char>) -> Option<nat>
    decreases g.len(),
{
    if g.len() == 0 {
        Some(0)
    } else {
        match hex_value(g.drop_last()) {
            Some(v) => if is_hex_digit(g.last()) {
                Some(v * 16 + hex_digit_value(g.last()))
            } else {
                None
            },
            None => None,
        }
    }
}

/// The 16 bits that one group of an IPv6 address spells: one to four
/// hexadecimal digits.
pub open spec fn hex_group_value(g: Seq<char>) -> Option<u16> {
    if 1 <= g.len() <= 4 {
        match hex_value(g) {
            Some(v) => Some(v as u16),
            None => None,
        }
    } else {
        None
    }
}

/// The groups that a list of texts spells; none where one of the texts is no
/// group.
pub open spec fn hex_groups(parts: Seq<Seq<char>>) -> Option<Seq<u16>>
    decreases parts.len(),
{
    if parts.len() == 0 {
        Some(Seq::empty())
    } else {
        match (hex_groups(parts.drop_last()), hex_group_value(parts.last())) {
            (Some(groups), Some(g)) => Some(groups.push(g)),
            _ => None,
        }
    }
}

/// The two groups that hold an IPv4 address inside an IPv6 address.
pub open spec fn ipv4_groups(addr: Ipv4Addr) -> Seq<u16> {
    seq![(addr.bits / 0x1_0000) as u16, (addr.bits % 0x1_0000) as u16]
}

/// The groups that a run of groups with colons between them spells. The
/// last two groups may be written as an IPv4 address in dotted form. The
/// empty text spells no groups.
pub open spec fn group_run(text: Seq<char>) -> Option<Seq<u16>> {
    if text.len() == 0 {
        Some(Seq::empty())
    } else {
        let parts = split(text, ':');
        match parse_ipv4_text(parts.last()) {
            Some(v4) => match hex_groups(parts.drop_last()) {
                Some(groups) => Some(groups + ipv4_groups(v4)),
                None => None,
            },
            None => hex_groups(parts),
        }
    }
}

/// The index of the first `::` in `s` at or after `from`; the length of `s`
/// where there is none.
pub open spec fn double_colon_from(s: Seq<char>, from: int) -> int
    decreases s.len() - from,
{
    if from < 0 || from + 1 >= s.len() {
        s.len() as int
    } else if s[from] == ':' && s[from + 1] == ':' {
        from
    } else {
        double_colon_from(s, from + 1)
    }
}

/// The address with the given eight groups, first group first.
pub open spec fn ipv6_of_groups(g: Seq<u16>) -> Ipv6Addr {
    Ipv6Addr {
        hi: (g[0] as int * 0x1_0000_0000_0000 + g[1] as int * 0x1_0000_0000 + g[2] as int * 0x1_0000
            + g[3] as int) as u64,
        lo: (g[4] as int * 0x1_0000_0000_0000 + g[5] as int * 0x1_0000_0000 + g[6] as int * 0x1_0000
            + g[7] as int) as u64,
    }
}

/// So many zero groups.
pub open spec fn zero_groups(n: int) -> Seq<u16> {
    Seq::new(
        if n >= 0 {
            n as nat
        } else {
            0
        },
        |i: int| 0u16,
    )
}

/// The IPv6 address that a text spells: either eight groups with colons
/// between them, or two runs of groups with `::` between them, which stands
/// for as many zero groups as make eight groups in all, and for one at
/// least. Only the run after `::`, or a text without `::`, may end with an
/// IPv4 address in dotted form.
pub open spec fn parse_ipv6_text(s: Seq<char>) -> Option<Ipv6Addr> {
    let k = double_colon_from(s, 0);
    if k >= s.len() {
        match group_run(s) {
            Some(groups) => if groups.len() == 8 {
                Some(ipv6_of_groups(groups))
            } else {
                None
            },
            None => None,
        }
    } else {
        let head = s.subrange(0, k);
        let tail = s.subrange(k + 2, s.len() as int);
        let head_groups = if head.len() == 0 {
            Some(Seq::<u16>::empty())
        } else {
            hex_groups(split(head, ':'))
        };
        match (head_groups, group_run(tail)) {
            (Some(h), Some(t)) => if h.len() + t.len() <= 7 {
                Some(ipv6_of_groups(h + zero_groups(8 - h.len() - t.len()) + t))
            } else {
                None
            },
            _ => None,
        }
    }
}

/// The IP address that a text spells, of either family.
pub open spec fn parse_ip_text(s: Seq<char>) -> Option<IpAddr> {
    match parse_ipv4_text(s) {
        Some(a) => Some(IpAddr::V4(a)),
        None => match parse_ipv6_text(s) {
            Some(a) => Some(IpAddr::V6(a)),
            None => None,
        },
    }
}

/// Reads one group of an IPv6 address.
fn read_hex_group(g: &[char]) -> (r: Option<u16>)
    ensures
        r == hex_group_value(g@),
{
    if g.len() < 1 || g.len() > 4 {
        return None;
    }
    let mut v: u32 = 0;
    let mut i: usize = 0;
    while i < g.len()
        invariant
            i <= g.len() <= 4,
            hex_value(g@.take(i as int)) == Some(v as nat),
            v < pow16(i as nat),
        decreases g.len() - i,
    {
        let c = g[i];
        proof {
            assert(g@.take(i + 1).drop_last() =~= g@.take(i as int));
            assert(g@.take(i + 1).last() == c);
            lemma_hex_fault_stays(g@, i + 1);
        }
        let d: u32 = if '0' <= c && c <= '9' {
            (c as u32) - 48
        } else if 'a' <= c && c <= 'f' {
            (c as u32) - 87
        } else if 'A' <= c && c <= 'F' {
            (c as u32) - 55
        } else {
            return None;
        };
        v = v * 16 + d;
        i += 1;
    }
    assert(g@.take(g.len() as int) =~= g@);
    Some(v as u16)
}

/// 16 to the power `n`, for the lengths of a group.
pub open spec fn pow16(n: nat) -> nat {
    if n == 0 {
        1
    } else if n == 1 {
        0x10
    } else if n == 2 {
        0x100
    } else if n == 3 {
        0x1000
    } else {
        0x1_0000
    }
}

/// A character that is no digit makes every longer run no number.
pub proof fn lemma_hex_fault_stays(g: Seq<char>, mid: int)
    requires
        0 <= mid <= g.len(),
    ensures
        hex_value(g.take(mid)) is None ==> hex_value(g) is None,
    decreases g.len() - mid,
{
    if mid < g.len() {
        assert(g.take(mid + 1).drop_last() =~= g.take(mid));
        lemma_hex_fault_stays(g, mid + 1);
    } else {
        assert(g.take(mid) =~= g);
    }
}

/// Reads the first `count` of the given texts as groups.
fn read_hex_groups(parts: &Vec<Vec<char>>, count: usize) -> (r: Option<Vec<u16>>)
    requires
        count <= parts.len(),
    ensures
        match r {
            Some(groups) => hex_groups(views(parts@).take(count as int)) == Some(groups@),
            None => hex_groups(views(parts@).take(count as int)) is None,
        },
{
    let mut groups: Vec<u16> = Vec::new();
    let mut i: usize = 0;
    while i < count
        invariant
            i <= count <= parts.len(),
            hex_groups(views(parts@).take(i as int)) == Some(groups@),
        decreases count - i,
    {
        proof {
            let all = views(parts@);
            assert(all.take(i + 1).drop_last() =~= all.take(i as int));
            assert(all.take(i + 1).last() == parts@[i as int]@);
            lemma_groups_fault_stays(all.take(count as int), i + 1);
            assert(all.take(count as int).take(i + 1) =~= all.take(i + 1));
        }
        match read_hex_group(parts[i].as_slice()) {
            Some(g) => {
                groups.push(g);
            },
            None => {
                return None;
            },
        }
        i += 1;
    }
    Some(groups)
}

/// A text that is no group makes every longer list no list of groups.
pub proof fn lemma_groups_fault_stays(parts: Seq<Seq<char>>, mid: int)
    requires
        0 <= mid <= parts.len(),
    ensures
        hex_groups(parts.take(mid)) is None ==> hex_groups(parts) is None,
    decreases parts.len() - mid,
{
    if mid < parts.len() {
        assert(parts.take(mid + 1).drop_last() =~= parts.take(mid));
        lemma_groups_fault_stays(parts, mid + 1);
    } else {
        assert(parts.take(mid) =~= parts);
    }
}

/// Reads a run of groups.
fn read_group_run(text: &[char]) -> (r: Option<Vec<u16>>)
    ensures
        match r {
            Some(groups) => group_run(text@) == Some(groups@),
            None => group_run(text@) is None,
        },
{
    if text.len() == 0 {
        return Some(Vec::new());
    }
    let parts = split_chars(text, ':');
    let n = parts.len();
    proof {
        let all = views(parts@);
        assert(all.last() == parts@[n - 1]@);
        assert(all.take(n as int) =~= all);
        assert(all.take(n - 1) =~= all.drop_last());
    }
    match Ipv4Addr::parse(parts[n - 1].as_slice()) {
        Some(v4) => match read_hex_groups(&parts, n - 1) {
            Some(groups) => {
                let mut groups = groups;
                let ghost before = groups@;
                groups.push((v4.bits / 0x1_0000) as u16);
                groups.push((v4.bits % 0x1_0000) as u16);
                assert(groups@ =~= before + ipv4_groups(v4));
                Some(groups)
            },
            None => None,
        },
        None => read_hex_groups(&parts, n),
    }
}

/// The index of the first `::` in `s`; the length of `s` where there is
/// none.
fn find_double_colon(s: &[char]) -> (k: usize)
    ensures
        k == double_colon_from(s@, 0),
        k <= s.len(),
        k < s.len() ==> k + 2 <= s.len(),
{
    let mut i: usize = 0;
    while i < s.len() && s.len() - i >= 2
        invariant
            i <= s.len(),
            double_colon_from(s@, 0) == double_colon_from(s@, i as int),
        decreases s.len() - i,
    {
        if s[i] == ':' && s[i + 1] == ':' {
            return i;
        }
        i += 1;
    }
    s.len()
}

impl Ipv6Addr {
    /// Reads an address in its text form, such as `2001:db8::1`.
    pub fn parse(s: &[char]) -> (r: Option<Ipv6Addr>)
        ensures
            r == parse_ipv6_text(s@),
    {
        let k = find_double_colon(s);
        let mut groups: Vec<u16> = Vec::new();
        if k >= s.len() {
            match read_group_run(s) {
                Some(run) => {
                    if run.len() != 8 {
                        return None;
                    }
                    groups = run;
                },
                None => {
                    return None;
                },
            }
        } else {
            let head = copy_range(s, 0, k);
            let tail = copy_range(s, k + 2, s.len());
            let head_groups = if head.len() == 0 {
                Vec::new()
            } else {
                let parts = split_chars(head.as_slice(), ':');
                assert(views(parts@).take(parts.len() as int) =~= views(parts@));
                match read_hex_groups(&parts, parts.len()) {
                    Some(g) => g,
                    None => {
                        return None;
                    },
                }
            };
            let tail_groups = match read_group_run(tail.as_slice()) {
                Some(g) => g,
                None => {
                    return None;
                },
            };
            if head_groups.len() > 7 || tail_groups.len() > 7 - head_groups.len() {
                return None;
            }
            let zeros: usize = 8 - head_groups.len() - tail_groups.len();
            let mut i: usize = 0;
            while i < head_groups.len()
                invariant
                    i <= head_groups.len(),
                    groups@ == head_groups@.take(i as int),
                decreases head_groups.len() - i,
            {
                groups.push(head_groups[i]);
                i += 1;
            }
            assert(groups@ =~= head_groups@);
            let mut z: usize = 0;
            while z < zeros
                invariant
                    z <= zeros,
                    groups@ == head_groups@ + zero_groups(z as int),
                decreases zeros - z,
            {
                groups.push(0);
                assert(groups@ =~= head_groups@ + zero_groups(z + 1));
                z += 1;
            }
            let mut j: usize = 0;
            while j < tail_groups.len()
                invariant
                    j <= tail_groups.len(),
                    groups@ == head_groups@ + zero_groups(zeros as int) + tail_groups@.take(
                        j as int,
                    ),
                decreases tail_groups.len() - j,
            {
                groups.push(tail_groups[j]);
                assert(groups@ =~= head_groups@ + zero_groups(zeros as int) + tail_groups@.take(
                    j + 1,
                ));
                j += 1;
            }
            assert(tail_groups@.take(tail_groups.len() as int) =~= tail_groups@);
        }
        assert(groups@.len() == 8);
        Some(
            Ipv6Addr::new(
                groups[0],
                groups[1],
                groups[2],
                groups[3],
                groups[4],
                groups[5],
                groups[6],
                groups[7],
            ),
        )
    }
}

impl IpAddr {
    /// Reads an address of either family in its text form.
    pub fn parse(s: &[char]) -> (r: Option<IpAddr>)
        ensures
            r == parse_ip_text(s@),
    {
        match Ipv4Addr::parse(s) {
            Some(a) => Some(IpAddr::V4(a)),
            None => match Ipv6Addr::parse(s) {
                Some(a) => Some(IpAddr::V6(a)),
                None => None,
            },
        }
    }
}

} // verus!

//! Decoding of raw IP datagrams: IPv4 and IPv6 headers with their TCP and
//! UDP transport headers. Decoding copies nothing from the payload; the
//! payload is found again by its offset in the caller's buffer.

use vstd::prelude::*;
use vstd::slice::*;
use vstd::string::*;

use crate::addr::{
    bits_of_octets, lemma_div_mod_of_parts, lemma_ipv6_octets, lemma_octets_of_bits, IpAddr,
    Ipv4Addr, Ipv6Addr, SocketAddr,
};
use crate::nat_table::NatKey;
use crate::error::{invalid_packet, VoyageError};

verus! {

/// Minimum IPv4 header length.
pub const IPV4_MIN_HEADER_LEN: usize = 20;

/// IPv6 header length.
pub const IPV6_HEADER_LEN: usize = 40;

/// Minimum TCP header length.
pub const TCP_MIN_HEADER_LEN: usize = 20;

/// UDP header length.
pub const UDP_HEADER_LEN: usize = 8;

/// The protocol number of TCP.
pub const PROTO_TCP: u8 = 6;

/// The protocol number of UDP.
pub const PROTO_UDP: u8 = 17;

/// The protocol number of ICMP.
pub const PROTO_ICMP: u8 = 1;

/// The protocol number of ICMPv6. It decodes as any other number does, to
/// `Other(58)`.
pub const PROTO_ICMPV6: u8 = 58;

/// The 16-bit number whose big-endian bytes are `s[at]`, `s[at + 1]`.
pub open spec fn be_u16(s: Seq<u8>, at: int) -> u16 {
    (s[at] as int * 0x100 + s[at + 1] as int) as u16
}

/// The 32-bit number whose big-endian bytes are the four bytes of `s` from
/// `at` on.
pub open spec fn be_u32(s: Seq<u8>, at: int) -> u32 {
    bits_of_octets(s[at], s[at + 1], s[at + 2], s[at + 3])
}

/// The two big-endian bytes of a 16-bit number.
pub open spec fn u16_be_bytes(v: u16) -> Seq<u8> {
    seq![(v / 0x100) as u8, (v % 0x100) as u8]
}

/// The bytes of a number read as big-endian are the bytes it was read from.
pub proof fn lemma_be_u16_bytes(s: Seq<u8>, at: int)
    requires
        0 <= at,
        at + 2 <= s.len(),
    ensures
        u16_be_bytes(be_u16(s, at)) == s.subrange(at, at + 2),
{
    lemma_div_mod_of_parts(be_u16(s, at) as int, 0x100, s[at] as int, s[at + 1] as int);
    assert(u16_be_bytes(be_u16(s, at)) =~= s.subrange(at, at + 2));
}

/// A number is the one read from its own big-endian bytes.
pub proof fn lemma_u16_be_bytes_value(v: u16)
    ensures
        u16_be_bytes(v).len() == 2,
        be_u16(u16_be_bytes(v), 0) == v,
{
}

/// Reads two bytes as a big-endian number.
pub fn read_be_u16(data: &[u8], at: usize) -> (v: u16)
    requires
        at + 2 <= data.len(),
    ensures
        v == be_u16(data@, at as int),
{
    (data[at] as u16) * 0x100 + (data[at + 1] as u16)
}

/// Reads four bytes as a big-endian number.
pub fn read_be_u32(data: &[u8], at: usize) -> (v: u32)
    requires
        at + 4 <= data.len(),
    ensures
        v == be_u32(data@, at as int),
{
    (data[at] as u32) * 0x100_0000 + (data[at + 1] as u32) * 0x1_0000 + (data[at + 2] as u32)
        * 0x100 + (data[at + 3] as u32)
}

/// The part of `data` from `offset` on; empty where `data` is no longer than
/// `offset`.
pub open spec fn tail_from(data: Seq<u8>, offset: int) -> Seq<u8> {
    if data.len() > offset && offset >= 0 {
        data.subrange(offset, data.len() as int)
    } else {
        Seq::empty()
    }
}

/// The part of `data` from `offset` on; empty where `data` is no longer than
/// `offset`.
pub fn slice_from<'a>(data: &'a [u8], offset: usize) -> (out: &'a [u8])
    ensures
        out@ == tail_from(data@, offset as int),
{
    if data.len() > offset {
        slice_subrange(data, offset, data.len())
    } else {
        let out = slice_subrange(data, data.len(), data.len());
        assert(out@ =~= Seq::<u8>::empty());
        out
    }
}

/// IP version.
#[derive(Debug, Clone, Copy, PartialEq, Eq, Structural)]
pub enum IpVersion {
    V4,
    V6,
}

/// Transport protocol of a datagram.
#[derive(Debug, Clone, Copy, PartialEq, Eq, Structural)]
pub enum TransportProtocol {
    Tcp,
    Udp,
    Icmp,
    Other(u8),
}

impl TransportProtocol {
    /// The protocol that a protocol number stands for: 6 is TCP, 17 is UDP,
    /// 1 is ICMP, and every other number is itself.
    pub open spec fn spec_from_proto(proto: u8) -> TransportProtocol {
        if proto == 6 {
            TransportProtocol::Tcp
        } else if proto == 17 {
            TransportProtocol::Udp
        } else if proto == 1 {
            TransportProtocol::Icmp
        } else {
            TransportProtocol::Other(proto)
        }
    }

    /// The protocol number of a protocol; ICMP gives 1.
    pub open spec fn spec_to_proto(self) -> u8 {
        match self {
            TransportProtocol::Tcp => 6,
            TransportProtocol::Udp => 17,
            TransportProtocol::Icmp => 1,
            TransportProtocol::Other(p) => p,
        }
    }

    pub fn from_proto(proto: u8) -> (p: TransportProtocol)
        ensures
            p == Self::spec_from_proto(proto),
            p.spec_to_proto() == proto,
    {
        if proto == PROTO_TCP {
            TransportProtocol::Tcp
        } else if proto == PROTO_UDP {
            TransportProtocol::Udp
        } else if proto == PROTO_ICMP {
            TransportProtocol::Icmp
        } else {
            TransportProtocol::Other(proto)
        }
    }

    pub fn to_proto(&self) -> (proto: u8)
        ensures
            proto == self.spec_to_proto(),
    {
        match self {
            TransportProtocol::Tcp => PROTO_TCP,
            TransportProtocol::Udp => PROTO_UDP,
            TransportProtocol::Icmp => PROTO_ICMP,
            TransportProtocol::Other(p) => *p,
        }
    }
}

/// What the IP header of a datagram says.
#[derive(Debug, Clone, Copy, PartialEq, Eq, Structural)]
pub struct IpPacketInfo {
    pub version: IpVersion,
    pub src_ip: IpAddr,
    pub dst_ip: IpAddr,
    pub protocol: TransportProtocol,
    /// Total length that the header announces.
    pub total_len: usize,
    pub header_len: usize,
    /// Where the transport header starts in the datagram.
    pub payload_offset: usize,
}

/// The version nibble of a datagram.
pub open spec fn ip_version(data: Seq<u8>) -> u8 {
    data[0] >> 4
}

/// The IPv4 header length in bytes: the low nibble of the first byte counts
/// 32-bit words.
pub open spec fn ipv4_ihl(data: Seq<u8>) -> int {
    (data[0] & 0x0F) as int * 4
}

/// Whether `data` starts with a well-formed IPv4 header.
pub open spec fn valid_ipv4_header(data: Seq<u8>) -> bool {
    &&& data.len() >= 20
    &&& ip_version(data) == 4
    &&& 20 <= ipv4_ihl(data) <= data.len()
}

/// Whether `data` starts with a well-formed IPv6 header.
pub open spec fn valid_ipv6_header(data: Seq<u8>) -> bool {
    &&& data.len() >= 40
    &&& ip_version(data) == 6
}

/// Whether `data` starts with a well-formed IP header of either version.
pub open spec fn valid_ip_header(data: Seq<u8>) -> bool {
    valid_ipv4_header(data) || valid_ipv6_header(data)
}

/// The reason for which the IP header of `data` is refused. It is meant for
/// `data` without a well-formed IP header.
pub open spec fn ip_header_fault(data: Seq<u8>) -> Seq<char> {
    if data.len() == 0 {
        "Empty packet"@
    } else if ip_version(data) == 4 {
        if data.len() < 20 {
            "IPv4 packet too short"@
        } else {
            "Invalid IPv4 IHL"@
        }
    } else if ip_version(data) == 6 {
        "IPv6 packet too short"@
    } else {
        "Unknown IP version: "@ + version_text(ip_version(data))
    }
}

/// The decimal digits of a version nibble.
pub open spec fn version_text(v: u8) -> Seq<char> {
    if v < 10 {
        seq![(48 + v) as char]
    } else {
        seq!['1', (38 + v) as char]
    }
}

/// The header information of a datagram with a well-formed IPv4 header.
pub open spec fn ipv4_info(data: Seq<u8>) -> IpPacketInfo {
    IpPacketInfo {
        version: IpVersion::V4,
        src_ip: IpAddr::V4(Ipv4Addr { bits: be_u32(data, 12) }),
        dst_ip: IpAddr::V4(Ipv4Addr { bits: be_u32(data, 16) }),
        protocol: TransportProtocol::spec_from_proto(data[9]),
        total_len: be_u16(data, 2) as usize,
        header_len: ipv4_ihl(data) as usize,
        payload_offset: ipv4_ihl(data) as usize,
    }
}

/// The header information of a datagram with a well-formed IPv6 header. The
/// next-header byte is taken as the transport protocol: extension headers
/// are not followed.
pub open spec fn ipv6_info(data: Seq<u8>) -> IpPacketInfo {
    IpPacketInfo {
        version: IpVersion::V6,
        src_ip: IpAddr::V6(Ipv6Addr::spec_from_octets(data, 8)),
        dst_ip: IpAddr::V6(Ipv6Addr::spec_from_octets(data, 24)),
        protocol: TransportProtocol::spec_from_proto(data[6]),
        total_len: (40 + be_u16(data, 4)) as usize,
        header_len: 40,
        payload_offset: 40,
    }
}

/// The header information of a datagram, where its IP header is well-formed.
pub open spec fn ip_info(data: Seq<u8>) -> Option<IpPacketInfo> {
    if valid_ipv4_header(data) {
        Some(ipv4_info(data))
    } else if valid_ipv6_header(data) {
        Some(ipv6_info(data))
    } else {
        None
    }
}

/// Bounds of the two nibbles of a byte.
pub proof fn lemma_nibbles(b: u8)
    ensures
        (b >> 4) <= 15,
        (b & 0x0F) <= 15,
        (b >> 4) == b / 16,
        (b & 0x0F) == b % 16,
{
    assert((b >> 4) <= 15) by (bit_vector);
    assert((b & 0x0F) <= 15) by (bit_vector);
    assert((b >> 4) == b / 16) by (bit_vector);
    assert((b & 0x0F) == b % 16) by (bit_vector);
}

/// The text of a version nibble, as `version_text` gives it.
fn version_string(v: u8) -> (s: &'static str)
    requires
        v <= 15,
    ensures
        s@ == version_text(v),
{
    proof {
        reveal_strlit("0");
        reveal_strlit("1");
        reveal_strlit("2");
        reveal_strlit("3");
        reveal_strlit("4");
        reveal_strlit("5");
        reveal_strlit("6");
        reveal_strlit("7");
        reveal_strlit("8");
        reveal_strlit("9");
        reveal_strlit("10");
        reveal_strlit("11");
        reveal_strlit("12");
        reveal_strlit("13");
        reveal_strlit("14");
        reveal_strlit("15");
    }
    let s = if v == 0 {
        "0"
    } else if v == 1 {
        "1"
    } else if v == 2 {
        "2"
    } else if v == 3 {
        "3"
    } else if v == 4 {
        "4"
    } else if v == 5 {
        "5"
    } else if v == 6 {
        "6"
    } else if v == 7 {
        "7"
    } else if v == 8 {
        "8"
    } else if v == 9 {
        "9"
    } else if v == 10 {
        "10"
    } else if v == 11 {
        "11"
    } else if v == 12 {
        "12"
    } else if v == 13 {
        "13"
    } else if v == 14 {
        "14"
    } else {
        "15"
    };
    assert(s@ =~= version_text(v));
    s
}

impl IpPacketInfo {
    /// Decodes the IP header at the start of `data`.
    ///
    /// Succeeds exactly on the datagrams with a well-formed IPv4 or IPv6
    /// header. The addresses of the result are the address bytes of the
    /// header, and its protocol is the one that the protocol byte stands for.
    pub fn parse(data: &[u8]) -> (result: Result<IpPacketInfo, VoyageError>)
        ensures
            result is Ok <==> valid_ip_header(data@),
            result matches Ok(info) ==> Some(info) == ip_info(data@),
            result matches Err(e) ==> e matches VoyageError::InvalidPacket(m) && m@
                == ip_header_fault(data@),
    {
        if data.len() == 0 {
            return Err(invalid_packet("Empty packet"));
        }
        let version = data[0] >> 4;
        proof {
            lemma_nibbles(data[0]);
        }
        if version == 4 {
            Self::parse_ipv4(data)
        } else if version == 6 {
            Self::parse_ipv6(data)
        } else {
            let msg = String::from_str("Unknown IP version: ").concat(version_string(version));
            Err(VoyageError::InvalidPacket(msg))
        }
    }

    /// Decodes an IPv4 header.
    fn parse_ipv4(data: &[u8]) -> (result: Result<IpPacketInfo, VoyageError>)
        requires
            data.len() > 0,
            ip_version(data@) == 4,
        ensures
            result is Ok <==> valid_ipv4_header(data@),
            result matches Ok(info) ==> info == ipv4_info(data@),
            result matches Err(e) ==> e matches VoyageError::InvalidPacket(m) && m@
                == ip_header_fault(data@),
    {
        if data.len() < IPV4_MIN_HEADER_LEN {
            return Err(invalid_packet("IPv4 packet too short"));
        }
        proof {
            lemma_nibbles(data[0]);
        }
        let ihl: usize = ((data[0] & 0x0F) as usize) * 4;
        if ihl < IPV4_MIN_HEADER_LEN || data.len() < ihl {
            return Err(invalid_packet("Invalid IPv4 IHL"));
        }
        let total_len = read_be_u16(data, 2) as usize;
        let protocol = data[9];
        let src = Ipv4Addr::new(data[12], data[13], data[14], data[15]);
        let dst = Ipv4Addr::new(data[16], data[17], data[18], data[19]);
        Ok(
            IpPacketInfo {
                version: IpVersion::V4,
                src_ip: IpAddr::V4(src),
                dst_ip: IpAddr::V4(dst),
                protocol: TransportProtocol::from_proto(protocol),
                total_len,
                header_len: ihl,
                payload_offset: ihl,
            },
        )
    }

    /// Decodes an IPv6 header.
    fn parse_ipv6(data: &[u8]) -> (result: Result<IpPacketInfo, VoyageError>)
        requires
            data.len() > 0,
            ip_version(data@) == 6,
        ensures
            result is Ok <==> valid_ipv6_header(data@),
            result matches Ok(info) ==> info == ipv6_info(data@),
            result matches Err(e) ==> e matches VoyageError::InvalidPacket(m) && m@
                == ip_header_fault(data@),
    {
        if data.len() < IPV6_HEADER_LEN {
            return Err(invalid_packet("IPv6 packet too short"));
        }
        let payload_len = read_be_u16(data, 4) as usize;
        let protocol = data[6];
        let src = Ipv6Addr::from_slice(data, 8);
        let dst = Ipv6Addr::from_slice(data, 24);
        Ok(
            IpPacketInfo {
                version: IpVersion::V6,
                src_ip: IpAddr::V6(src),
                dst_ip: IpAddr::V6(dst),
                protocol: TransportProtocol::from_proto(protocol),
                total_len: IPV6_HEADER_LEN + payload_len,
                header_len: IPV6_HEADER_LEN,
                payload_offset: IPV6_HEADER_LEN,
            },
        )
    }

    /// The transport-layer part of `data`: what follows the IP header.
    pub fn get_payload<'a>(&self, data: &'a [u8]) -> (payload: &'a [u8])
        ensures
            payload@ == tail_from(data@, self.payload_offset as int),
    {
        slice_from(data, self.payload_offset)
    }
}

/// The eight flag bits of a TCP header.
#[derive(Debug, Clone, Copy, PartialEq, Eq, Structural)]
pub struct TcpFlags {
    pub fin: bool,
    pub syn: bool,
    pub rst: bool,
    pub psh: bool,
    pub ack: bool,
    pub urg: bool,
    pub ece: bool,
    pub cwr: bool,
}

/// The weight of a flag bit in the flags byte: `weight` where the flag is
/// set, 0 where it is not.
pub open spec fn flag_bit(set: bool, weight: u8) -> u8 {
    if set {
        weight
    } else {
        0
    }
}

impl TcpFlags {
    /// The flags that a flags byte holds: FIN is 0x01, SYN 0x02, RST 0x04,
    /// PSH 0x08, ACK 0x10, URG 0x20, ECE 0x40, CWR 0x80.
    pub open spec fn spec_from_byte(flags: u8) -> TcpFlags {
        TcpFlags {
            fin: flags & 0x01 != 0,
            syn: flags & 0x02 != 0,
            rst: flags & 0x04 != 0,
            psh: flags & 0x08 != 0,
            ack: flags & 0x10 != 0,
            urg: flags & 0x20 != 0,
            ece: flags & 0x40 != 0,
            cwr: flags & 0x80 != 0,
        }
    }

    /// The flags byte: the sum of the weights of the flags that are set.
    pub open spec fn spec_to_byte(self) -> u8 {
        (flag_bit(self.fin, 0x01) + flag_bit(self.syn, 0x02) + flag_bit(self.rst, 0x04) + flag_bit(
            self.psh,
            0x08,
        ) + flag_bit(self.ack, 0x10) + flag_bit(self.urg, 0x20) + flag_bit(self.ece, 0x40)
            + flag_bit(self.cwr, 0x80)) as u8
    }

    /// Decomposes a flags byte.
    pub fn from_byte(flags: u8) -> (f: TcpFlags)
        ensures
            f == Self::spec_from_byte(flags),
            f.spec_to_byte() == flags,
    {
        proof {
            lemma_flags_of_byte(flags);
        }
        TcpFlags {
            fin: flags & 0x01 != 0,
            syn: flags & 0x02 != 0,
            rst: flags & 0x04 != 0,
            psh: flags & 0x08 != 0,
            ack: flags & 0x10 != 0,
            urg: flags & 0x20 != 0,
            ece: flags & 0x40 != 0,
            cwr: flags & 0x80 != 0,
        }
    }

    /// Composes the flags byte.
    pub fn to_byte(&self) -> (flags: u8)
        ensures
            flags == self.spec_to_byte(),
            Self::spec_from_byte(flags) == *self,
    {
        let mut flags: u8 = 0;
        if self.fin {
            flags += 0x01;
        }
        if self.syn {
            flags += 0x02;
        }
        if self.rst {
            flags += 0x04;
        }
        if self.psh {
            flags += 0x08;
        }
        if self.ack {
            flags += 0x10;
        }
        if self.urg {
            flags += 0x20;
        }
        if self.ece {
            flags += 0x40;
        }
        if self.cwr {
            flags += 0x80;
        }
        proof {
            lemma_byte_of_flags(*self);
        }
        flags
    }

    /// A connection request: SYN without ACK.
    pub fn is_syn(&self) -> (r: bool)
        ensures
            r == (self.syn && !self.ack),
    {
        self.syn && !self.ack
    }

    /// The answer to a connection request: SYN with ACK.
    pub fn is_syn_ack(&self) -> (r: bool)
        ensures
            r == (self.syn && self.ack),
    {
        self.syn && self.ack
    }

    pub fn is_fin(&self) -> (r: bool)
        ensures
            r == self.fin,
    {
        self.fin
    }

    pub fn is_rst(&self) -> (r: bool)
        ensures
            r == self.rst,
    {
        self.rst
    }
}

impl Default for TcpFlags {
    fn default() -> (f: TcpFlags)
        ensures
            f == TcpFlags::spec_from_byte(0),
    {
        proof {
            lemma_flags_of_byte(0);
        }
        TcpFlags::from_byte(0)
    }
}

/// Every flags byte is the byte of the flags it decomposes into.
pub proof fn lemma_flags_of_byte(flags: u8)
    ensures
        TcpFlags::spec_from_byte(flags).spec_to_byte() == flags,
{
    let b0: u8 = if flags & 0x01 != 0 { 0x01 } else { 0 };
    let b1: u8 = if flags & 0x02 != 0 { 0x02 } else { 0 };
    let b2: u8 = if flags & 0x04 != 0 { 0x04 } else { 0 };
    let b3: u8 = if flags & 0x08 != 0 { 0x08 } else { 0 };
    let b4: u8 = if flags & 0x10 != 0 { 0x10 } else { 0 };
    let b5: u8 = if flags & 0x20 != 0 { 0x20 } else { 0 };
    let b6: u8 = if flags & 0x40 != 0 { 0x40 } else { 0 };
    let b7: u8 = if flags & 0x80 != 0 { 0x80 } else { 0 };
    assert(b0 == flags & 0x01 && b1 == flags & 0x02 && b2 == flags & 0x04 && b3 == flags & 0x08
        && b4 == flags & 0x10 && b5 == flags & 0x20 && b6 == flags & 0x40 && b7 == flags & 0x80)
        by (bit_vector)
        requires
            b0 == (if flags & 0x01 != 0 { 0x01u8 } else { 0u8 }),
            b1 == (if flags & 0x02 != 0 { 0x02u8 } else { 0u8 }),
            b2 == (if flags & 0x04 != 0 { 0x04u8 } else { 0u8 }),
            b3 == (if flags & 0x08 != 0 { 0x08u8 } else { 0u8 }),
            b4 == (if flags & 0x10 != 0 { 0x10u8 } else { 0u8 }),
            b5 == (if flags & 0x20 != 0 { 0x20u8 } else { 0u8 }),
            b6 == (if flags & 0x40 != 0 { 0x40u8 } else { 0u8 }),
            b7 == (if flags & 0x80 != 0 { 0x80u8 } else { 0u8 }),
    ;
    assert((flags & 0x01) + (flags & 0x02) + (flags & 0x04) + (flags & 0x08) + (flags & 0x10) + (
    flags & 0x20) + (flags & 0x40) + (flags & 0x80) == flags) by (bit_vector);
}

/// Every set of flags is what its byte decomposes into.
pub proof fn lemma_byte_of_flags(f: TcpFlags)
    ensures
        TcpFlags::spec_from_byte(f.spec_to_byte()) == f,
{
    let b0: u8 = flag_bit(f.fin, 0x01);
    let b1: u8 = flag_bit(f.syn, 0x02);
    let b2: u8 = flag_bit(f.rst, 0x04);
    let b3: u8 = flag_bit(f.psh, 0x08);
    let b4: u8 = flag_bit(f.ack, 0x10);
    let b5: u8 = flag_bit(f.urg, 0x20);
    let b6: u8 = flag_bit(f.ece, 0x40);
    let b7: u8 = flag_bit(f.cwr, 0x80);
    let v: u8 = f.spec_to_byte();
    assert(v == b0 + b1 + b2 + b3 + b4 + b5 + b6 + b7);
    assert((v & 0x01 != 0) == (b0 != 0) && (v & 0x02 != 0) == (b1 != 0) && (v & 0x04 != 0) == (b2
        != 0) && (v & 0x08 != 0) == (b3 != 0) && (v & 0x10 != 0) == (b4 != 0) && (v & 0x20 != 0)
        == (b5 != 0) && (v & 0x40 != 0) == (b6 != 0) && (v & 0x80 != 0) == (b7 != 0))
        by (bit_vector)
        requires
            b0 == 0 || b0 == 0x01,
            b1 == 0 || b1 == 0x02,
            b2 == 0 || b2 == 0x04,
            b3 == 0 || b3 == 0x08,
            b4 == 0 || b4 == 0x10,
            b5 == 0 || b5 == 0x20,
            b6 == 0 || b6 == 0x40,
            b7 == 0 || b7 == 0x80,
            v == b0 + b1 + b2 + b3 + b4 + b5 + b6 + b7,
    ;
}

/// What the TCP header of a segment says.
#[derive(Debug, Clone, Copy, PartialEq, Eq, Structural)]
pub struct TcpPacketInfo {
    pub src_port: u16,
    pub dst_port: u16,
    pub seq_num: u32,
    pub ack_num: u32,
    /// Header length in bytes.
    pub data_offset: usize,
    pub flags: TcpFlags,
    pub window: u16,
    pub checksum: u16,
    pub urgent_ptr: u16,
}

/// The TCP header length in bytes: the high nibble of byte 12 counts 32-bit
/// words.
pub open spec fn tcp_data_offset(data: Seq<u8>) -> int {
    (data[12] >> 4) as int * 4
}

/// Whether `data` starts with a well-formed TCP header.
pub open spec fn valid_tcp_header(data: Seq<u8>) -> bool {
    &&& data.len() >= 20
    &&& 20 <= tcp_data_offset(data) <= data.len()
}

/// The reason for which the TCP header of `data` is refused.
pub open spec fn tcp_header_fault(data: Seq<u8>) -> Seq<char> {
    if data.len() < 20 {
        "TCP header too short"@
    } else {
        "Invalid TCP data offset"@
    }
}

/// The header information of a segment with a well-formed TCP header.
pub open spec fn tcp_info(data: Seq<u8>) -> TcpPacketInfo {
    TcpPacketInfo {
        src_port: be_u16(data, 0),
        dst_port: be_u16(data, 2),
        seq_num: be_u32(data, 4),
        ack_num: be_u32(data, 8),
        data_offset: tcp_data_offset(data) as usize,
        flags: TcpFlags::spec_from_byte(data[13]),
        window: be_u16(data, 14),
        checksum: be_u16(data, 16),
        urgent_ptr: be_u16(data, 18),
    }
}

impl TcpPacketInfo {
    /// Decodes the TCP header at the start of `data`, the transport part of a
    /// datagram. Succeeds exactly where `data` holds at least 20 bytes and
    /// the header length that it announces is at least 20 and within `data`.
    pub fn parse(data: &[u8]) -> (result: Result<TcpPacketInfo, VoyageError>)
        ensures
            result is Ok <==> valid_tcp_header(data@),
            result matches Ok(info) ==> info == tcp_info(data@),
            result matches Err(e) ==> e matches VoyageError::InvalidPacket(m) && m@
                == tcp_header_fault(data@),
    {
        if data.len() < TCP_MIN_HEADER_LEN {
            return Err(invalid_packet("TCP header too short"));
        }
        let src_port = read_be_u16(data, 0);
        let dst_port = read_be_u16(data, 2);
        let seq_num = read_be_u32(data, 4);
        let ack_num = read_be_u32(data, 8);
        proof {
            lemma_nibbles(data[12]);
        }
        let data_offset: usize = ((data[12] >> 4) as usize) * 4;
        let flags = TcpFlags::from_byte(data[13]);
        let window = read_be_u16(data, 14);
        let checksum = read_be_u16(data, 16);
        let urgent_ptr = read_be_u16(data, 18);
        if data_offset < TCP_MIN_HEADER_LEN || data.len() < data_offset {
            return Err(invalid_packet("Invalid TCP data offset"));
        }
        Ok(
            TcpPacketInfo {
                src_port,
                dst_port,
                seq_num,
                ack_num,
                data_offset,
                flags,
                window,
                checksum,
                urgent_ptr,
            },
        )
    }

    /// The payload of the segment `data`: what follows the TCP header.
    pub fn get_payload<'a>(&self, data: &'a [u8]) -> (payload: &'a [u8])
        ensures
            payload@ == tail_from(data@, self.data_offset as int),
    {
        slice_from(data, self.data_offset)
    }

    /// The payload length of a segment of `transport_data_len` bytes.
    pub fn payload_len(&self, transport_data_len: usize) -> (len: usize)
        ensures
            len == if transport_data_len > self.data_offset {
                transport_data_len - self.data_offset
            } else {
                0
            },
    {
        if transport_data_len > self.data_offset {
            transport_data_len - self.data_offset
        } else {
            0
        }
    }
}

/// What the UDP header of a datagram says.
#[derive(Debug, Clone, Copy, PartialEq, Eq, Structural)]
pub struct UdpPacketInfo {
    pub src_port: u16,
    pub dst_port: u16,
    /// Length of header and payload together, as the header announces it.
    pub length: u16,
    pub checksum: u16,
}

/// The header information of a datagram with a whole UDP header.
pub open spec fn udp_info(data: Seq<u8>) -> UdpPacketInfo {
    UdpPacketInfo {
        src_port: be_u16(data, 0),
        dst_port: be_u16(data, 2),
        length: be_u16(data, 4),
        checksum: be_u16(data, 6),
    }
}

impl UdpPacketInfo {
    /// Decodes the UDP header at the start of `data`, the transport part of a
    /// datagram. Succeeds exactly where `data` holds at least 8 bytes.
    pub fn parse(data: &[u8]) -> (result: Result<UdpPacketInfo, VoyageError>)
        ensures
            result is Ok <==> data@.len() >= 8,
            result matches Ok(info) ==> info == udp_info(data@),
            result matches Err(e) ==> e matches VoyageError::InvalidPacket(m) && m@
                == "UDP header too short"@,
    {
        if data.len() < UDP_HEADER_LEN {
            return Err(invalid_packet("UDP header too short"));
        }
        let src_port = read_be_u16(data, 0);
        let dst_port = read_be_u16(data, 2);
        let length = read_be_u16(data, 4);
        let checksum = read_be_u16(data, 6);
        Ok(UdpPacketInfo { src_port, dst_port, length, checksum })
    }

    /// The payload of the datagram `data`: what follows the 8 header bytes.
    pub fn get_payload<'a>(&self, data: &'a [u8]) -> (payload: &'a [u8])
        ensures
            payload@ == tail_from(data@, 8),
    {
        slice_from(data, UDP_HEADER_LEN)
    }

    /// The payload length that the header announces.
    pub fn payload_len(&self) -> (len: usize)
        ensures
            len == if self.length > 8 {
                self.length - 8
            } else {
                0
            },
    {
        if self.length > 8 {
            (self.length - 8) as usize
        } else {
            0
        }
    }
}

/// A decoded datagram: the IP header, and the TCP or UDP header where the
/// datagram carries one.
#[derive(Debug, Clone, Copy, PartialEq, Eq, Structural)]
pub struct ParsedPacket {
    pub ip: IpPacketInfo,
    pub tcp: Option<TcpPacketInfo>,
    pub udp: Option<UdpPacketInfo>,
}

/// The transport part of a datagram whose IP header is `ip`.
pub open spec fn transport_part(data: Seq<u8>, ip: IpPacketInfo) -> Seq<u8> {
    tail_from(data, ip.payload_offset as int)
}

/// Whether `data` decodes: its IP header is well-formed, and so is its TCP
/// or UDP header where the IP header announces one.
pub open spec fn valid_packet(data: Seq<u8>) -> bool {
    match ip_info(data) {
        None => false,
        Some(ip) => match ip.protocol {
            TransportProtocol::Tcp => valid_tcp_header(transport_part(data, ip)),
            TransportProtocol::Udp => transport_part(data, ip).len() >= 8,
            _ => true,
        },
    }
}

/// The decoded form of a datagram that decodes.
pub open spec fn packet_info(data: Seq<u8>) -> ParsedPacket {
    let ip = ip_info(data)->0;
    match ip.protocol {
        TransportProtocol::Tcp => ParsedPacket {
            ip,
            tcp: Some(tcp_info(transport_part(data, ip))),
            udp: None,
        },
        TransportProtocol::Udp => ParsedPacket {
            ip,
            tcp: None,
            udp: Some(udp_info(transport_part(data, ip))),
        },
        _ => ParsedPacket { ip, tcp: None, udp: None },
    }
}

/// The reason for which a datagram that does not decode is refused.
pub open spec fn packet_fault(data: Seq<u8>) -> Seq<char> {
    match ip_info(data) {
        None => ip_header_fault(data),
        Some(ip) => match ip.protocol {
            TransportProtocol::Tcp => tcp_header_fault(transport_part(data, ip)),
            _ => "UDP header too short"@,
        },
    }
}

impl ParsedPacket {
    /// The source as a socket address, for TCP and UDP.
    pub open spec fn spec_src_addr(self) -> Option<SocketAddr> {
        if let Some(tcp) = self.tcp {
            Some(SocketAddr::spec_new(self.ip.src_ip, tcp.src_port))
        } else if let Some(udp) = self.udp {
            Some(SocketAddr::spec_new(self.ip.src_ip, udp.src_port))
        } else {
            None
        }
    }

    /// The destination as a socket address, for TCP and UDP.
    pub open spec fn spec_dst_addr(self) -> Option<SocketAddr> {
        if let Some(tcp) = self.tcp {
            Some(SocketAddr::spec_new(self.ip.dst_ip, tcp.dst_port))
        } else if let Some(udp) = self.udp {
            Some(SocketAddr::spec_new(self.ip.dst_ip, udp.dst_port))
        } else {
            None
        }
    }

    /// The flow key of the packet: none unless the IP protocol is TCP or UDP
    /// and the packet carries a transport header.
    pub open spec fn spec_nat_key(self) -> Option<NatKey> {
        match (self.spec_src_addr(), self.spec_dst_addr()) {
            (Some(src), Some(dst)) => match self.ip.protocol {
                TransportProtocol::Tcp => Some(NatKey::spec_new(src, dst, 6)),
                TransportProtocol::Udp => Some(NatKey::spec_new(src, dst, 17)),
                _ => None,
            },
            _ => None,
        }
    }

    /// Decodes a whole datagram: the IP header, then the TCP or UDP header
    /// where the IP header announces one. Other protocols decode with neither.
    pub fn parse(data: &[u8]) -> (result: Result<ParsedPacket, VoyageError>)
        ensures
            result is Ok <==> valid_packet(data@),
            result matches Ok(packet) ==> packet == packet_info(data@),
            result matches Err(e) ==> e matches VoyageError::InvalidPacket(m) && m@
                == packet_fault(data@),
    {
        let ip = match IpPacketInfo::parse(data) {
            Ok(ip) => ip,
            Err(e) => {
                return Err(e);
            },
        };
        let transport_data = ip.get_payload(data);
        match ip.protocol {
            TransportProtocol::Tcp => match TcpPacketInfo::parse(transport_data) {
                Ok(tcp) => Ok(ParsedPacket { ip, tcp: Some(tcp), udp: None }),
                Err(e) => Err(e),
            },
            TransportProtocol::Udp => match UdpPacketInfo::parse(transport_data) {
                Ok(udp) => Ok(ParsedPacket { ip, tcp: None, udp: Some(udp) }),
                Err(e) => Err(e),
            },
            _ => Ok(ParsedPacket { ip, tcp: None, udp: None }),
        }
    }

    /// The source as a socket address, for TCP and UDP.
    pub fn src_addr(&self) -> (addr: Option<SocketAddr>)
        ensures
            addr == self.spec_src_addr(),
    {
        if let Some(tcp) = self.tcp {
            Some(SocketAddr::new(self.ip.src_ip, tcp.src_port))
        } else if let Some(udp) = self.udp {
            Some(SocketAddr::new(self.ip.src_ip, udp.src_port))
        } else {
            None
        }
    }

    /// The destination as a socket address, for TCP and UDP.
    pub fn dst_addr(&self) -> (addr: Option<SocketAddr>)
        ensures
            addr == self.spec_dst_addr(),
    {
        if let Some(tcp) = self.tcp {
            Some(SocketAddr::new(self.ip.dst_ip, tcp.dst_port))
        } else if let Some(udp) = self.udp {
            Some(SocketAddr::new(self.ip.dst_ip, udp.dst_port))
        } else {
            None
        }
    }

    /// The flow key of the packet, for TCP and UDP.
    pub fn to_nat_key(&self) -> (key: Option<NatKey>)
        ensures
            key == self.spec_nat_key(),
    {
        let src = match self.src_addr() {
            Some(a) => a,
            None => {
                return None;
            },
        };
        let dst = match self.dst_addr() {
            Some(a) => a,
            None => {
                return None;
            },
        };
        match self.ip.protocol {
            TransportProtocol::Tcp => Some(NatKey::tcp(src, dst)),
            TransportProtocol::Udp => Some(NatKey::udp(src, dst)),
            _ => None,
        }
    }

    /// Whether the packet is a TCP connection request.
    pub fn is_tcp_syn(&self) -> (r: bool)
        ensures
            r == (self.tcp matches Some(t) && t.flags.syn && !t.flags.ack),
    {
        match self.tcp {
            Some(t) => t.flags.is_syn(),
            None => false,
        }
    }

    /// Whether the packet is a TCP segment with FIN.
    pub fn is_tcp_fin(&self) -> (r: bool)
        ensures
            r == (self.tcp matches Some(t) && t.flags.fin),
    {
        match self.tcp {
            Some(t) => t.flags.is_fin(),
            None => false,
        }
    }

    /// Whether the packet is a TCP segment with RST.
    pub fn is_tcp_rst(&self) -> (r: bool)
        ensures
            r == (self.tcp matches Some(t) && t.flags.rst),
    {
        match self.tcp {
            Some(t) => t.flags.is_rst(),
            None => false,
        }
    }

    /// The TCP payload in the datagram `data`, for a TCP packet.
    pub fn tcp_payload<'a>(&self, data: &'a [u8]) -> (payload: Option<&'a [u8]>)
        ensures
            payload is Some <==> self.tcp is Some,
            payload matches Some(p) ==> p@ == tail_from(
                transport_part(data@, self.ip),
                self.tcp->0.data_offset as int,
            ),
    {
        let transport_data = self.ip.get_payload(data);
        match self.tcp {
            Some(t) => Some(t.get_payload(transport_data)),
            None => None,
        }
    }

    /// The UDP payload in the datagram `data`, for a UDP packet.
    pub fn udp_payload<'a>(&self, data: &'a [u8]) -> (payload: Option<&'a [u8]>)
        ensures
            payload is Some <==> self.udp is Some,
            payload matches Some(p) ==> p@ == tail_from(transport_part(data@, self.ip), 8),
    {
        let transport_data = self.ip.get_payload(data);
        match self.udp {
            Some(u) => Some(u.get_payload(transport_data)),
            None => None,
        }
    }
}

/// The octets of the addresses decoded from an IPv4 header are the address
/// bytes of the header.
pub proof fn lemma_ipv4_addresses(data: Seq<u8>)
    requires
        data.len() >= 20,
    ensures
        ipv4_info(data).src_ip.spec_octets() == data.subrange(12, 16),
        ipv4_info(data).dst_ip.spec_octets() == data.subrange(16, 20),
{
    lemma_octets_of_bits(data[12], data[13], data[14], data[15]);
    lemma_octets_of_bits(data[16], data[17], data[18], data[19]);
    assert(ipv4_info(data).src_ip.spec_octets() =~= data.subrange(12, 16));
    assert(ipv4_info(data).dst_ip.spec_octets() =~= data.subrange(16, 20));
}

/// The octets of the addresses decoded from an IPv6 header are the address
/// bytes of the header.
pub proof fn lemma_ipv6_addresses(data: Seq<u8>)
    requires
        data.len() >= 40,
    ensures
        ipv6_info(data).src_ip.spec_octets() == data.subrange(8, 24),
        ipv6_info(data).dst_ip.spec_octets() == data.subrange(24, 40),
{
    lemma_ipv6_octets(data, 8);
    lemma_ipv6_octets(data, 24);
}

/// The big-endian bytes of the two ports read at the start of a transport
/// header are the first four bytes of that header.
pub proof fn lemma_port_bytes(data: Seq<u8>, t: int)
    requires
        0 <= t,
        t + 4 <= data.len(),
    ensures
        u16_be_bytes(be_u16(tail_from(data, t), 0)) == data.subrange(t, t + 2),
        u16_be_bytes(be_u16(tail_from(data, t), 2)) == data.subrange(t + 2, t + 4),
{
    let tp = tail_from(data, t);
    assert(tp =~= data.subrange(t, data.len() as int));
    lemma_be_u16_bytes(tp, 0);
    lemma_be_u16_bytes(tp, 2);
    assert(tp.subrange(0, 2) =~= data.subrange(t, t + 2));
    assert(tp.subrange(2, 4) =~= data.subrange(t + 2, t + 4));
}

/// A datagram that decodes gives back what its header holds: the octets of
/// the decoded addresses are the address bytes of the header, and the
/// big-endian bytes of the decoded ports are the port bytes of the transport
/// header.
pub proof fn lemma_parse_round_trip(data: Seq<u8>)
    requires
        valid_packet(data),
    ensures
        ({
            let p = packet_info(data);
            let t = p.ip.payload_offset as int;
            &&& ip_info(data) == Some(p.ip)
            &&& p.ip.version == IpVersion::V4 ==> {
                &&& p.ip.src_ip.spec_octets() == data.subrange(12, 16)
                &&& p.ip.dst_ip.spec_octets() == data.subrange(16, 20)
            }
            &&& p.ip.version == IpVersion::V6 ==> {
                &&& p.ip.src_ip.spec_octets() == data.subrange(8, 24)
                &&& p.ip.dst_ip.spec_octets() == data.subrange(24, 40)
            }
            &&& p.tcp matches Some(tcp) ==> {
                &&& t + 20 <= data.len()
                &&& u16_be_bytes(tcp.src_port) == data.subrange(t, t + 2)
                &&& u16_be_bytes(tcp.dst_port) == data.subrange(t + 2, t + 4)
            }
            &&& p.udp matches Some(udp) ==> {
                &&& t + 8 <= data.len()
                &&& u16_be_bytes(udp.src_port) == data.subrange(t, t + 2)
                &&& u16_be_bytes(udp.dst_port) == data.subrange(t + 2, t + 4)
            }
        }),
{
    let p = packet_info(data);
    let t = p.ip.payload_offset as int;
    if valid_ipv4_header(data) {
        lemma_ipv4_addresses(data);
    } else {
        lemma_ipv6_addresses(data);
    }
    if p.tcp is Some || p.udp is Some {
        assert(transport_part(data, p.ip).len() >= 8);
        lemma_port_bytes(data, t);
    }
}

} // verus!

//! Core of a transparent network proxy: it decodes the IP packets of a
//! tunnel, tracks their flows, classifies each flow against a list of rules,
//! and speaks the SOCKS5 client protocol for the flows that go through a
//! proxy.

use vstd::prelude::*;
use vstd::string::*;

pub mod addr;
pub mod buffer;
pub mod config;
pub mod connection;
pub mod device;
pub mod error;
pub mod ffi;
pub mod iface;
pub mod nat_table;
pub mod packet;
pub mod proxy;
pub mod rule;
pub mod socks5;
pub mod text;

pub use config::ProxyConfig;
pub use connection::{ConnectionInfo, ConnectionManager, ConnectionState};
pub use device::{PacketQueue, VirtualTunDevice, MTU};
pub use error::VoyageError;
pub use iface::InterfaceManager;
pub use ffi::{
    add_bytes_received, add_bytes_sent, clear_rules, disable_proxy, enable_proxy, evaluate_route,
    get_stats, init_core, is_initialized, is_proxy_enabled, load_rules, process_inbound_packet,
    process_outbound_packet, rule_count, shutdown_core, CoreInstance, CoreStats,
};
pub use nat_table::{NatEntry, NatKey, NatManager, NatState};
pub use packet::{IpPacketInfo, ParsedPacket, TcpFlags, TcpPacketInfo, UdpPacketInfo};
pub use proxy::{ProxyManager, ProxyStats, RoutingDecision};
pub use rule::{FfiRouteAction, RouteAction, Rule, RuleEngine, RuleType};
pub use socks5::{Socks5Client, TargetAddr};

use proxy::ProxyManagerView;
use rule::{load_config, query_of, RuleEngineView, RuleView};

verus! {

/// The engine: the proxy configuration, the connection manager and the proxy
/// manager.
pub struct VoyageCore {
    pub config: ProxyConfig,
    pub conn_manager: ConnectionManager,
    pub proxy_manager: ProxyManager,
}

/// A copy of an optional text.
fn copy_text(text: &Option<String>) -> (copy: Option<String>)
    ensures
        copy == *text,
{
    match text {
        Some(t) => Some(t.clone()),
        None => None,
    }
}

impl VoyageCore {
    /// The invariant of the engine.
    pub open spec fn wf(&self) -> bool {
        self.conn_manager.wf()
    }

    /// An engine for the given proxy: the proxy is switched on, and there
    /// are no rules, no connections and zero counters.
    pub fn new(config: ProxyConfig) -> (core: VoyageCore)
        ensures
            core.wf(),
            core.config@ == config@,
            core.proxy_manager@.config == Some(config@),
            core.proxy_manager@.enabled,
            core.proxy_manager@.rules.rules == Seq::<RuleView>::empty(),
            core.proxy_manager@.rules.default_action == RouteAction::Direct,
            core.proxy_manager@.stats == ProxyStats::zero(),
            core.conn_manager@.nat.records.len() == 0,
            core.conn_manager@.sockets.len() == 0,
            core.conn_manager@.total_bytes_sent == 0,
            core.conn_manager@.total_bytes_received == 0,
            core.conn_manager@.total_connections == 0,
    {
        let copy = ProxyConfig {
            server_host: config.server_host.clone(),
            server_port: config.server_port,
            username: copy_text(&config.username),
            password: copy_text(&config.password),
        };
        let proxy_manager = ProxyManager::with_config(copy);
        VoyageCore { config, conn_manager: ConnectionManager::new(), proxy_manager }
    }

    /// Loads rules from a configuration text and appends them to the rules
    /// of the proxy manager. A line that spells no rule ends the loading with
    /// a `ConfigError` whose message names the line by its number, quotes it,
    /// and says what is wrong with it.
    pub fn load_rules(&mut self, rules_text: &str) -> (r: Result<usize, VoyageError>)
        ensures
            final(self).config == old(self).config,
            final(self).conn_manager == old(self).conn_manager,
            final(self).proxy_manager@ == (ProxyManagerView {
                rules: RuleEngineView {
                    rules: old(self).proxy_manager@.rules.rules + load_config(rules_text@).rules,
                    ..old(self).proxy_manager@.rules
                },
                ..old(self).proxy_manager@
            }),
            r matches Ok(n) ==> load_config(rules_text@).error is None && n == load_config(
                rules_text@,
            ).rules.len(),
            r matches Err(e) ==> e matches VoyageError::ConfigError(m) && load_config(
                rules_text@,
            ).error == Some(m@),
    {
        self.proxy_manager.load_rules(rules_text)
    }

    /// Whether a connection to `domain` on port 443 goes through the proxy.
    /// The decision is counted.
    pub fn should_proxy_domain(&mut self, domain: &str) -> (r: bool)
        ensures
            r == (old(self).proxy_manager@.route(query_of(Some(domain), None, 443, 0))
                == RouteAction::Proxy),
            final(self).config == old(self).config,
            final(self).conn_manager == old(self).conn_manager,
            final(self).proxy_manager@ == (ProxyManagerView {
                stats: old(self).proxy_manager@.stats.counted(
                    old(self).proxy_manager@.route(query_of(Some(domain), None, 443, 0)),
                ),
                ..old(self).proxy_manager@
            }),
    {
        let decision = self.proxy_manager.evaluate_route(Some(domain), None, 443, 0);
        match decision.action {
            RouteAction::Proxy => true,
            _ => false,
        }
    }

    /// The totals of the connection manager.
    pub fn get_stats(&self) -> (stats: CoreStats)
        ensures
            stats == (CoreStats {
                bytes_sent: self.conn_manager@.total_bytes_sent,
                bytes_received: self.conn_manager@.total_bytes_received,
                active_connections: self.conn_manager@.nat.records.len() as u64,
                total_connections: self.conn_manager@.total_connections,
            }),
    {
        CoreStats {
            bytes_sent: self.conn_manager.total_bytes_sent(),
            bytes_received: self.conn_manager.total_bytes_received(),
            active_connections: self.conn_manager.active_connections() as u64,
            total_connections: self.conn_manager.total_connections(),
        }
    }

    /// Switches the proxy on.
    pub fn enable(&mut self)
        ensures
            final(self).config == old(self).config,
            final(self).conn_manager == old(self).conn_manager,
            final(self).proxy_manager@ == (ProxyManagerView {
                enabled: true,
                ..old(self).proxy_manager@
            }),
    {
        self.proxy_manager.enable();
    }

    /// Switches the proxy off.
    pub fn disable(&mut self)
        ensures
            final(self).config == old(self).config,
            final(self).conn_manager == old(self).conn_manager,
            final(self).proxy_manager@ == (ProxyManagerView {
                enabled: false,
                ..old(self).proxy_manager@
            }),
    {
        self.proxy_manager.disable();
    }

    /// Whether the proxy is in use.
    pub fn is_enabled(&self) -> (r: bool)
        ensures
            r == self.proxy_manager@.is_enabled(),
    {
        self.proxy_manager.is_enabled()
    }
}

/// A 40-byte datagram with an IPv4 header of 20 bytes that announces TCP,
/// and a TCP header of 20 bytes, decodes to a TCP packet with the addresses
/// and ports that its bytes hold and the flags of its flags byte.
pub proof fn lemma_bare_tcp_packet(
    data: Seq<u8>,
    src_ip: Seq<u8>,
    dst_ip: Seq<u8>,
    src_port: u16,
    dst_port: u16,
)
    requires
        data.len() == 40,
        data[0] == 0x45,
        data[9] == 6,
        data[32] == 0x50,
        data.subrange(12, 16) == src_ip,
        data.subrange(16, 20) == dst_ip,
        data.subrange(20, 22) == packet::u16_be_bytes(src_port),
        data.subrange(22, 24) == packet::u16_be_bytes(dst_port),
    ensures
        packet::valid_packet(data),
        packet::packet_info(data).tcp matches Some(tcp) && tcp.src_port == src_port
            && tcp.dst_port == dst_port && tcp.flags == TcpFlags::spec_from_byte(data[33]),
        packet::packet_info(data).ip.src_ip.spec_octets() == src_ip,
        packet::packet_info(data).ip.dst_ip.spec_octets() == dst_ip,
{
    assert(0x45u8 >> 4 == 4u8) by (bit_vector);
    assert(0x45u8 & 0x0F == 5u8) by (bit_vector);
    assert(0x50u8 >> 4 == 5u8) by (bit_vector);
    assert(packet::valid_ipv4_header(data));
    let ip = packet::ipv4_info(data);
    assert(packet::ip_info(data) == Some(ip));
    assert(ip.payload_offset == 20);
    assert(ip.protocol == packet::TransportProtocol::Tcp);
    let tp = packet::transport_part(data, ip);
    assert(tp =~= data.subrange(20, 40));
    assert(tp[12] == 0x50u8);
    assert(tp[13] == data[33]);
    assert(packet::valid_tcp_header(tp));
    packet::lemma_ipv4_addresses(data);
    packet::lemma_u16_be_bytes_value(src_port);
    packet::lemma_u16_be_bytes_value(dst_port);
    assert(packet::be_u16(tp, 0) == src_port) by {
        assert(tp[0] == data.subrange(20, 22)[0]);
        assert(tp[1] == data.subrange(20, 22)[1]);
    }
    assert(packet::be_u16(tp, 2) == dst_port) by {
        assert(tp[2] == data.subrange(22, 24)[0]);
        assert(tp[3] == data.subrange(22, 24)[1]);
    }
}

/// The bytes of a 40-byte IPv4 datagram with a bare TCP header: 20 bytes of
/// IP header without options, then 20 bytes of TCP header with sequence
/// number 1 and either SYN or ACK as its only flag.
pub open spec fn tcp_packet_bytes(
    src_ip: Seq<u8>,
    dst_ip: Seq<u8>,
    src_port: u16,
    dst_port: u16,
    syn: bool,
) -> Seq<u8> {
    seq![0x45u8, 0x00, 0x00, 0x28, 0x00, 0x00, 0x40, 0x00, 64, 6, 0x00, 0x00] + src_ip + dst_ip
        + packet::u16_be_bytes(src_port) + packet::u16_be_bytes(dst_port) + seq![
        0x00u8,
        0x00,
        0x00,
        0x01,
        0x00,
        0x00,
        0x00,
        0x00,
        0x50,
        if syn {
            0x02u8
        } else {
            0x10u8
        },
        0xFF,
        0xFF,
        0x00,
        0x00,
        0x00,
        0x00,
    ]
}

/// Builds a 40-byte IPv4 datagram with a bare TCP header: a connection
/// request where `syn` is set, an acknowledgement where it is not. The
/// datagram decodes, to a TCP packet with the given addresses and ports.
pub fn create_tcp_packet(
    src_ip: [u8; 4],
    dst_ip: [u8; 4],
    src_port: u16,
    dst_port: u16,
    syn: bool,
) -> (packet: Vec<u8>)
    ensures
        packet@ == tcp_packet_bytes(src_ip@, dst_ip@, src_port, dst_port, syn),
        packet@.len() == 40,
        packet::valid_packet(packet@),
        packet::packet_info(packet@).tcp matches Some(tcp) && tcp.src_port == src_port
            && tcp.dst_port == dst_port && tcp.flags == TcpFlags::spec_from_byte(
            if syn {
                0x02u8
            } else {
                0x10u8
            },
        ),
        packet::packet_info(packet@).ip.src_ip.spec_octets() == src_ip@,
        packet::packet_info(packet@).ip.dst_ip.spec_octets() == dst_ip@,
{
    let mut packet: Vec<u8> = Vec::new();
    packet.push(0x45);
    packet.push(0x00);
    packet.push(0x00);
    packet.push(0x28);
    packet.push(0x00);
    packet.push(0x00);
    packet.push(0x40);
    packet.push(0x00);
    packet.push(64);
    packet.push(6);
    packet.push(0x00);
    packet.push(0x00);
    packet.push(src_ip[0]);
    packet.push(src_ip[1]);
    packet.push(src_ip[2]);
    packet.push(src_ip[3]);
    packet.push(dst_ip[0]);
    packet.push(dst_ip[1]);
    packet.push(dst_ip[2]);
    packet.push(dst_ip[3]);
    packet.push((src_port / 0x100) as u8);
    packet.push((src_port % 0x100) as u8);
    packet.push((dst_port / 0x100) as u8);
    packet.push((dst_port % 0x100) as u8);
    packet.push(0x00);
    packet.push(0x00);
    packet.push(0x00);
    packet.push(0x01);
    packet.push(0x00);
    packet.push(0x00);
    packet.push(0x00);
    packet.push(0x00);
    packet.push(0x50);
    packet.push(
        if syn {
            0x02
        } else {
            0x10
        },
    );
    packet.push(0xFF);
    packet.push(0xFF);
    packet.push(0x00);
    packet.push(0x00);
    packet.push(0x00);
    packet.push(0x00);
    proof {
        let data = packet@;
        assert(data =~= tcp_packet_bytes(src_ip@, dst_ip@, src_port, dst_port, syn));
        assert(data.subrange(12, 16) =~= src_ip@);
        assert(data.subrange(16, 20) =~= dst_ip@);
        assert(data.subrange(20, 22) =~= packet::u16_be_bytes(src_port));
        assert(data.subrange(22, 24) =~= packet::u16_be_bytes(dst_port));
        lemma_bare_tcp_packet(data, src_ip@, dst_ip@, src_port, dst_port);
    }
    packet
}

/// The bytes of a 40-byte IPv4 datagram with a TCP connection request and
/// nothing else set: 20 bytes of IP header, then 20 bytes of TCP header.
pub open spec fn tcp_syn_packet_bytes(
    src_port: u16,
    dst_port: u16,
    src_ip: Seq<u8>,
    dst_ip: Seq<u8>,
) -> Seq<u8> {
    seq![0x45u8, 0x00, 0x00, 0x28, 0x00, 0x00, 0x00, 0x00, 0x00, 0x06, 0x00, 0x00] + src_ip + dst_ip
        + packet::u16_be_bytes(src_port) + packet::u16_be_bytes(dst_port) + seq![
        0x00u8,
        0x00,
        0x00,
        0x00,
        0x00,
        0x00,
        0x00,
        0x00,
        0x50,
        0x02,
        0x00,
        0x00,
        0x00,
        0x00,
        0x00,
        0x00,
    ]
}

/// Builds a 40-byte IPv4 datagram with a TCP connection request, with every
/// field that is no address, port, length or flag at zero. The datagram
/// decodes, to a connection request with the given addresses and ports.
pub fn create_tcp_syn_packet(src_port: u16, dst_port: u16, src_ip: [u8; 4], dst_ip: [u8; 4]) -> (packet:
    Vec<u8>)
    ensures
        packet@ == tcp_syn_packet_bytes(src_port, dst_port, src_ip@, dst_ip@),
        packet@.len() == 40,
        packet::valid_packet(packet@),
        packet::packet_info(packet@).tcp matches Some(tcp) && tcp.src_port == src_port
            && tcp.dst_port == dst_port && tcp.flags == TcpFlags::spec_from_byte(0x02),
        packet::packet_info(packet@).ip.src_ip.spec_octets() == src_ip@,
        packet::packet_info(packet@).ip.dst_ip.spec_octets() == dst_ip@,
{
    let mut packet: Vec<u8> = Vec::new();
    packet.push(0x45);
    packet.push(0x00);
    packet.push(0x00);
    packet.push(0x28);
    packet.push(0x00);
    packet.push(0x00);
    packet.push(0x00);
    packet.push(0x00);
    packet.push(0x00);
    packet.push(0x06);
    packet.push(0x00);
    packet.push(0x00);
    packet.push(src_ip[0]);
    packet.push(src_ip[1]);
    packet.push(src_ip[2]);
    packet.push(src_ip[3]);
    packet.push(dst_ip[0]);
    packet.push(dst_ip[1]);
    packet.push(dst_ip[2]);
    packet.push(dst_ip[3]);
    packet.push((src_port / 0x100) as u8);
    packet.push((src_port % 0x100) as u8);
    packet.push((dst_port / 0x100) as u8);
    packet.push((dst_port % 0x100) as u8);
    packet.push(0x00);
    packet.push(0x00);
    packet.push(0x00);
    packet.push(0x00);
    packet.push(0x00);
    packet.push(0x00);
    packet.push(0x00);
    packet.push(0x00);
    packet.push(0x50);
    packet.push(0x02);
    packet.push(0x00);
    packet.push(0x00);
    packet.push(0x00);
    packet.push(0x00);
    packet.push(0x00);
    packet.push(0x00);
    proof {
        let data = packet@;
        assert(data =~= tcp_syn_packet_bytes(src_port, dst_port, src_ip@, dst_ip@));
        assert(data.subrange(12, 16) =~= src_ip@);
        assert(data.subrange(16, 20) =~= dst_ip@);
        assert(data.subrange(20, 22) =~= packet::u16_be_bytes(src_port));
        assert(data.subrange(22, 24) =~= packet::u16_be_bytes(dst_port));
        lemma_bare_tcp_packet(data, src_ip@, dst_ip@, src_port, dst_port);
    }
    packet
}

} // verus!

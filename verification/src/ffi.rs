//! The embedding surface: what a host drives the core with. The host holds
//! one core instance and hands it to every call.

use vstd::prelude::*;
use vstd::string::*;

use crate::addr::{parse_ip_text, IpAddr};
use crate::config::{ProxyConfig, ProxyConfigView};
use crate::connection::{ConnectionInfo, ConnectionView};
use crate::error::VoyageError;
use crate::packet::{packet_fault, packet_info, valid_packet, ParsedPacket};
use crate::proxy::{ProxyManagerView, ProxyStats};
use crate::rule::{load_config, FfiRouteAction, RouteQuery, RuleEngineView, RuleView};
use crate::text::to_chars;
use crate::VoyageCore;

verus! {

/// Totals of the core, for the host.
#[derive(Debug, Clone, Copy, PartialEq, Eq, Structural)]
pub struct CoreStats {
    pub bytes_sent: u64,
    pub bytes_received: u64,
    pub active_connections: u64,
    pub total_connections: u64,
}

impl Default for CoreStats {
    fn default() -> (stats: CoreStats)
        ensures
            stats == (CoreStats {
                bytes_sent: 0,
                bytes_received: 0,
                active_connections: 0,
                total_connections: 0,
            }),
    {
        CoreStats { bytes_sent: 0, bytes_received: 0, active_connections: 0, total_connections: 0 }
    }
}

/// The place of the one core of a host. It is empty until `init_core` fills
/// it, and it is filled once.
pub struct CoreInstance {
    core: Option<VoyageCore>,
}

impl CoreInstance {
    /// Whether the core was initialized.
    pub closed spec fn is_init(&self) -> bool {
        self.core is Some
    }

    /// The invariant of the instance.
    pub closed spec fn wf(&self) -> bool {
        self.core matches Some(c) ==> c.wf()
    }

    /// The configuration that the core was initialized with.
    pub closed spec fn config(&self) -> ProxyConfigView {
        self.core->0.config@
    }

    /// The proxy manager of the core.
    pub closed spec fn proxy(&self) -> ProxyManagerView {
        self.core->0.proxy_manager@
    }

    /// The connection manager of the core.
    pub closed spec fn connections(&self) -> ConnectionView {
        self.core->0.conn_manager@
    }

    /// Whether the two instances hold the same: both nothing, or cores in
    /// the same state.
    pub open spec fn same_as(&self, other: &CoreInstance) -> bool {
        &&& self.is_init() == other.is_init()
        &&& self.is_init() ==> {
            &&& self.config() == other.config()
            &&& self.proxy() == other.proxy()
            &&& self.connections() == other.connections()
        }
    }

    /// An empty place.
    pub fn new() -> (instance: CoreInstance)
        ensures
            instance.wf(),
            !instance.is_init(),
    {
        CoreInstance { core: None }
    }
}

impl Default for CoreInstance {
    fn default() -> (instance: CoreInstance)
        ensures
            instance.wf(),
            !instance.is_init(),
    {
        CoreInstance::new()
    }
}

/// Initializes the core with a proxy configuration. Fails with
/// `AlreadyInitialized`, and changes nothing, where the core was initialized
/// before. The new core has the proxy switched on, no rules, an empty flow
/// table and zero counters.
pub fn init_core(
    instance: &mut CoreInstance,
    server_host: String,
    server_port: u16,
    username: Option<String>,
    password: Option<String>,
) -> (r: Result<(), VoyageError>)
    requires
        old(instance).wf(),
    ensures
        final(instance).wf(),
        final(instance).is_init(),
        match r {
            Ok(_) => {
                &&& !old(instance).is_init()
                &&& final(instance).config() == (ProxyConfigView {
                    server_host: server_host@,
                    server_port,
                    username: match username {
                        Some(u) => Some(u@),
                        None => None,
                    },
                    password: match password {
                        Some(p) => Some(p@),
                        None => None,
                    },
                })
                &&& final(instance).proxy().config == Some(final(instance).config())
                &&& final(instance).proxy().enabled
                &&& final(instance).proxy().rules.rules == Seq::<RuleView>::empty()
                &&& final(instance).proxy().stats == ProxyStats::zero()
                &&& final(instance).connections().nat.records.len() == 0
                &&& final(instance).connections().sockets.len() == 0
                &&& final(instance).connections().total_bytes_sent == 0
                &&& final(instance).connections().total_bytes_received == 0
                &&& final(instance).connections().total_connections == 0
            },
            Err(e) => {
                &&& e == VoyageError::AlreadyInitialized
                &&& old(instance).is_init()
                &&& final(instance).same_as(old(instance))
            },
        },
{
    if instance.core.is_some() {
        return Err(VoyageError::AlreadyInitialized);
    }
    let config = ProxyConfig { server_host, server_port, username, password };
    instance.core = Some(VoyageCore::new(config));
    Ok(())
}

/// Takes note that the host wants to shut down. The core stays as it is:
/// an instance that was initialized stays initialized.
pub fn shutdown_core(instance: &CoreInstance) {
}

/// Whether the core was initialized.
pub fn is_initialized(instance: &CoreInstance) -> (r: bool)
    ensures
        r == instance.is_init(),
{
    instance.core.is_some()
}

/// Takes a packet from the tunnel into the core at `now` and hands it back
/// unchanged.
///
/// Fails with `NotInitialized` before initialization, with `InvalidPacket`
/// on a packet that does not decode or has no flow key, and with
/// `NatTableFull` where the flow table has no room for the packet's flow.
pub fn process_inbound_packet(instance: &mut CoreInstance, packet: Vec<u8>, now: u64) -> (r: Result<
    Vec<u8>,
    VoyageError,
>)
    requires
        old(instance).wf(),
    ensures
        final(instance).wf(),
        final(instance).is_init() == old(instance).is_init(),
        !old(instance).is_init() ==> (r matches Err(e) && e == VoyageError::NotInitialized),
        old(instance).is_init() && !valid_packet(packet@) ==> {
            &&& r matches Err(e) && e matches VoyageError::InvalidPacket(m) && m@ == packet_fault(
                packet@,
            )
            &&& final(instance).same_as(old(instance))
        },
        old(instance).is_init() && valid_packet(packet@) ==> final(instance).config() == old(
            instance,
        ).config(),
        old(instance).is_init() && valid_packet(packet@) ==> final(instance).proxy() == old(
            instance,
        ).proxy(),
        old(instance).is_init() && valid_packet(packet@) ==> {
            &&& exists|outcome: Result<ConnectionInfo, VoyageError>|
                {
                    &&& #[trigger] old(instance).connections().after_process_packet(
                        packet_info(packet@),
                        now,
                        final(instance).connections(),
                        outcome,
                    )
                    &&& match outcome {
                        Ok(_) => r == Ok::<Vec<u8>, VoyageError>(packet),
                        Err(e) => r == Err::<Vec<u8>, VoyageError>(e),
                    }
                }
        },
{
    let ghost mut witness: Result<ConnectionInfo, VoyageError> = Err(VoyageError::NotInitialized);
    let r = match &mut instance.core {
        None => Err(VoyageError::NotInitialized),
        Some(core) => {
            let parsed = match ParsedPacket::parse(packet.as_slice()) {
                Ok(p) => p,
                Err(e) => {
                    return Err(e);
                },
            };
            let outcome = core.conn_manager.process_packet(&parsed, now);
            proof {
                witness = outcome;
            }
            match outcome {
                Ok(_) => Ok(packet),
                Err(e) => Err(e),
            }
        },
    };
    proof {
        if old(instance).is_init() && valid_packet(packet@) {
            assert(old(instance).connections().after_process_packet(
                packet_info(packet@),
                now,
                instance.connections(),
                witness,
            ));
        }
    }
    r
}

/// Hands a packet for the tunnel through the core, unchanged. Fails with
/// `NotInitialized` before initialization.
pub fn process_outbound_packet(instance: &CoreInstance, packet: Vec<u8>) -> (r: Result<
    Vec<u8>,
    VoyageError,
>)
    ensures
        match r {
            Ok(p) => instance.is_init() && p == packet,
            Err(e) => !instance.is_init() && e == VoyageError::NotInitialized,
        },
{
    match &instance.core {
        None => Err(VoyageError::NotInitialized),
        Some(_) => Ok(packet),
    }
}

/// The number of rules as a 32-bit number: the low 32 bits of the count.
pub open spec fn count_u32(n: nat) -> u32 {
    (n % 0x1_0000_0000) as u32
}

/// Loads rules from a configuration text and appends them to the rules of
/// the core. Returns the number of rules added. Fails with `NotInitialized`
/// before initialization, and with a `ConfigError` for the first line that
/// spells no rule: its message names the line by its number, quotes it, and
/// says what is wrong with it. The rules of the lines before that line stay
/// added.
pub fn load_rules(instance: &mut CoreInstance, config: String) -> (r: Result<u32, VoyageError>)
    requires
        old(instance).wf(),
    ensures
        final(instance).wf(),
        final(instance).is_init() == old(instance).is_init(),
        !old(instance).is_init() ==> (r matches Err(e) && e == VoyageError::NotInitialized),
        old(instance).is_init() ==> {
            &&& final(instance).config() == old(instance).config()
            &&& final(instance).connections() == old(instance).connections()
            &&& final(instance).proxy() == (ProxyManagerView {
                rules: RuleEngineView {
                    rules: old(instance).proxy().rules.rules + load_config(config@).rules,
                    ..old(instance).proxy().rules
                },
                ..old(instance).proxy()
            })
            &&& match r {
                Ok(n) => load_config(config@).error is None && n == count_u32(
                    load_config(config@).rules.len(),
                ),
                Err(e) => e matches VoyageError::ConfigError(m) && load_config(config@).error
                    == Some(m@),
            }
        },
{
    match &mut instance.core {
        None => Err(VoyageError::NotInitialized),
        Some(core) => {
            match core.proxy_manager.load_rules(config.as_str()) {
                Ok(count) => Ok((count as u64 % 0x1_0000_0000) as u32),
                Err(e) => Err(e),
            }
        },
    }
}

/// The query that the host's arguments make. The destination counts where
/// its text spells an IP address.
pub open spec fn host_query(
    domain: Option<String>,
    dst_ip: Option<String>,
    dst_port: u16,
    src_port: u16,
) -> RouteQuery {
    RouteQuery {
        domain: match domain {
            Some(d) => Some(d@),
            None => None,
        },
        ip: match dst_ip {
            Some(s) => parse_ip_text(s@),
            None => None,
        },
        dst_port,
        src_port,
    }
}

/// Decides how a connection is routed, counts the decision, and gives the
/// action in its numbered form. Fails with `NotInitialized` before
/// initialization.
pub fn evaluate_route(
    instance: &mut CoreInstance,
    domain: Option<String>,
    dst_ip: Option<String>,
    dst_port: u16,
    src_port: u16,
) -> (r: Result<FfiRouteAction, VoyageError>)
    requires
        old(instance).wf(),
    ensures
        final(instance).wf(),
        final(instance).is_init() == old(instance).is_init(),
        match r {
            Ok(action) => {
                let routed = old(instance).proxy().route(
                    host_query(domain, dst_ip, dst_port, src_port),
                );
                &&& old(instance).is_init()
                &&& action == FfiRouteAction::of(routed)
                &&& final(instance).config() == old(instance).config()
                &&& final(instance).connections() == old(instance).connections()
                &&& final(instance).proxy() == (ProxyManagerView {
                    stats: old(instance).proxy().stats.counted(routed),
                    ..old(instance).proxy()
                })
            },
            Err(e) => !old(instance).is_init() && e == VoyageError::NotInitialized,
        },
{
    match &mut instance.core {
        None => Err(VoyageError::NotInitialized),
        Some(core) => {
            let ip: Option<IpAddr> = match &dst_ip {
                Some(s) => {
                    let chars = to_chars(s.as_str());
                    IpAddr::parse(chars.as_slice())
                },
                None => None,
            };
            let action = match &domain {
                Some(d) => core.proxy_manager.evaluate_route_ffi(
                    Some(d.as_str()),
                    ip,
                    dst_port,
                    src_port,
                ),
                None => core.proxy_manager.evaluate_route_ffi(None, ip, dst_port, src_port),
            };
            Ok(action)
        },
    }
}

/// The totals of the core. Fails with `NotInitialized` before
/// initialization.
pub fn get_stats(instance: &CoreInstance) -> (r: Result<CoreStats, VoyageError>)
    requires
        instance.wf(),
    ensures
        match r {
            Ok(stats) => instance.is_init() && stats == (CoreStats {
                bytes_sent: instance.connections().total_bytes_sent,
                bytes_received: instance.connections().total_bytes_received,
                active_connections: instance.connections().nat.records.len() as u64,
                total_connections: instance.connections().total_connections,
            }),
            Err(e) => !instance.is_init() && e == VoyageError::NotInitialized,
        },
{
    match &instance.core {
        None => Err(VoyageError::NotInitialized),
        Some(core) => Ok(core.get_stats()),
    }
}

/// Counts bytes that the host sent through the proxy. Fails with
/// `NotInitialized` before initialization.
pub fn add_bytes_sent(instance: &mut CoreInstance, bytes: u64) -> (r: Result<(), VoyageError>)
    requires
        old(instance).wf(),
    ensures
        final(instance).wf(),
        final(instance).is_init() == old(instance).is_init(),
        match r {
            Ok(_) => {
                &&& old(instance).is_init()
                &&& final(instance).config() == old(instance).config()
                &&& final(instance).connections() == old(instance).connections()
                &&& final(instance).proxy() == (ProxyManagerView {
                    stats: ProxyStats {
                        proxy_bytes_sent: old(instance).proxy().stats.proxy_bytes_sent.wrapping_add(
                            bytes,
                        ),
                        ..old(instance).proxy().stats
                    },
                    ..old(instance).proxy()
                })
            },
            Err(e) => !old(instance).is_init() && e == VoyageError::NotInitialized,
        },
{
    match &mut instance.core {
        None => Err(VoyageError::NotInitialized),
        Some(core) => {
            core.proxy_manager.add_proxy_bytes_sent(bytes);
            Ok(())
        },
    }
}

/// Counts bytes that the host received through the proxy. Fails with
/// `NotInitialized` before initialization.
pub fn add_bytes_received(instance: &mut CoreInstance, bytes: u64) -> (r: Result<(), VoyageError>)
    requires
        old(instance).wf(),
    ensures
        final(instance).wf(),
        final(instance).is_init() == old(instance).is_init(),
        match r {
            Ok(_) => {
                &&& old(instance).is_init()
                &&& final(instance).config() == old(instance).config()
                &&& final(instance).connections() == old(instance).connections()
                &&& final(instance).proxy() == (ProxyManagerView {
                    stats: ProxyStats {
                        proxy_bytes_received: old(
                            instance,
                        ).proxy().stats.proxy_bytes_received.wrapping_add(bytes),
                        ..old(instance).proxy().stats
                    },
                    ..old(instance).proxy()
                })
            },
            Err(e) => !old(instance).is_init() && e == VoyageError::NotInitialized,
        },
{
    match &mut instance.core {
        None => Err(VoyageError::NotInitialized),
        Some(core) => {
            core.proxy_manager.add_proxy_bytes_received(bytes);
            Ok(())
        },
    }
}

/// Removes every rule. Fails with `NotInitialized` before initialization.
pub fn clear_rules(instance: &mut CoreInstance) -> (r: Result<(), VoyageError>)
    requires
        old(instance).wf(),
    ensures
        final(instance).wf(),
        final(instance).is_init() == old(instance).is_init(),
        match r {
            Ok(_) => {
                &&& old(instance).is_init()
                &&& final(instance).config() == old(instance).config()
                &&& final(instance).connections() == old(instance).connections()
                &&& final(instance).proxy() == (ProxyManagerView {
                    rules: RuleEngineView { rules: Seq::empty(), ..old(instance).proxy().rules },
                    ..old(instance).proxy()
                })
            },
            Err(e) => !old(instance).is_init() && e == VoyageError::NotInitialized,
        },
{
    match &mut instance.core {
        None => Err(VoyageError::NotInitialized),
        Some(core) => {
            core.proxy_manager.clear_rules();
            Ok(())
        },
    }
}

/// The number of rules, as a 32-bit number. Fails with `NotInitialized`
/// before initialization.
pub fn rule_count(instance: &CoreInstance) -> (r: Result<u32, VoyageError>)
    ensures
        match r {
            Ok(n) => instance.is_init() && n == count_u32(instance.proxy().rules.rules.len()),
            Err(e) => !instance.is_init() && e == VoyageError::NotInitialized,
        },
{
    match &instance.core {
        None => Err(VoyageError::NotInitialized),
        Some(core) => Ok((core.proxy_manager.rule_count() as u64 % 0x1_0000_0000) as u32),
    }
}

/// Switches the proxy on. Rules and counters stay. Fails with
/// `NotInitialized` before initialization.
pub fn enable_proxy(instance: &mut CoreInstance) -> (r: Result<(), VoyageError>)
    requires
        old(instance).wf(),
    ensures
        final(instance).wf(),
        final(instance).is_init() == old(instance).is_init(),
        match r {
            Ok(_) => {
                &&& old(instance).is_init()
                &&& final(instance).config() == old(instance).config()
                &&& final(instance).connections() == old(instance).connections()
                &&& final(instance).proxy() == (ProxyManagerView {
                    enabled: true,
                    ..old(instance).proxy()
                })
            },
            Err(e) => !old(instance).is_init() && e == VoyageError::NotInitialized,
        },
{
    match &mut instance.core {
        None => Err(VoyageError::NotInitialized),
        Some(core) => {
            core.proxy_manager.enable();
            Ok(())
        },
    }
}

/// Switches the proxy off. Rules and counters stay. Fails with
/// `NotInitialized` before initialization.
pub fn disable_proxy(instance: &mut CoreInstance) -> (r: Result<(), VoyageError>)
    requires
        old(instance).wf(),
    ensures
        final(instance).wf(),
        final(instance).is_init() == old(instance).is_init(),
        match r {
            Ok(_) => {
                &&& old(instance).is_init()
                &&& final(instance).config() == old(instance).config()
                &&& final(instance).connections() == old(instance).connections()
                &&& final(instance).proxy() == (ProxyManagerView {
                    enabled: false,
                    ..old(instance).proxy()
                })
            },
            Err(e) => !old(instance).is_init() && e == VoyageError::NotInitialized,
        },
{
    match &mut instance.core {
        None => Err(VoyageError::NotInitialized),
        Some(core) => {
            core.proxy_manager.disable();
            Ok(())
        },
    }
}

/// Whether the proxy is in use. Fails with `NotInitialized` before
/// initialization.
pub fn is_proxy_enabled(instance: &CoreInstance) -> (r: Result<bool, VoyageError>)
    ensures
        match r {
            Ok(b) => instance.is_init() && b == instance.proxy().is_enabled(),
            Err(e) => !instance.is_init() && e == VoyageError::NotInitialized,
        },
{
    match &instance.core {
        None => Err(VoyageError::NotInitialized),
        Some(core) => Ok(core.proxy_manager.is_enabled()),
    }
}

} // verus!

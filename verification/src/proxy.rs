//! The proxy manager: the rule engine with the proxy configuration, a
//! switch, and counters of the decisions taken.

use vstd::prelude::*;
use vstd::string::*;

use crate::addr::IpAddr;
use crate::config::{ProxyConfig, ProxyConfigView};
use crate::error::VoyageError;
use crate::rule::{
    load_config, query_of, spec_evaluate, FfiRouteAction, RouteAction, RouteQuery, RuleEngine,
    RuleEngineView, RuleView,
};

verus! {

/// A routing decision with what it was taken on.
#[derive(Debug, Clone)]
pub struct RoutingDecision {
    pub action: RouteAction,
    pub domain: Option<String>,
    pub dst_ip: Option<IpAddr>,
    pub dst_port: u16,
    /// The name of the rule that matched, where it is known.
    pub matched_rule: Option<String>,
}

/// A routing decision with its texts as sequences of characters.
pub struct RoutingDecisionView {
    pub action: RouteAction,
    pub domain: Option<Seq<char>>,
    pub dst_ip: Option<IpAddr>,
    pub dst_port: u16,
    pub matched_rule: Option<Seq<char>>,
}

impl View for RoutingDecision {
    type V = RoutingDecisionView;

    open spec fn view(&self) -> RoutingDecisionView {
        RoutingDecisionView {
            action: self.action,
            domain: match self.domain {
                Some(d) => Some(d@),
                None => None,
            },
            dst_ip: self.dst_ip,
            dst_port: self.dst_port,
            matched_rule: match self.matched_rule {
                Some(r) => Some(r@),
                None => None,
            },
        }
    }
}

/// The decision `action` for the port `dst_port`, with nothing else known.
pub open spec fn bare_decision(action: RouteAction, dst_port: u16) -> RoutingDecisionView {
    RoutingDecisionView { action, domain: None, dst_ip: None, dst_port, matched_rule: None }
}

impl RoutingDecision {
    /// The decision to route directly.
    pub fn direct(dst_port: u16) -> (d: RoutingDecision)
        ensures
            d@ == bare_decision(RouteAction::Direct, dst_port),
    {
        RoutingDecision {
            action: RouteAction::Direct,
            domain: None,
            dst_ip: None,
            dst_port,
            matched_rule: None,
        }
    }

    /// The decision to route through the proxy.
    pub fn proxy(dst_port: u16) -> (d: RoutingDecision)
        ensures
            d@ == bare_decision(RouteAction::Proxy, dst_port),
    {
        RoutingDecision {
            action: RouteAction::Proxy,
            domain: None,
            dst_ip: None,
            dst_port,
            matched_rule: None,
        }
    }

    /// The decision to reject.
    pub fn reject(dst_port: u16) -> (d: RoutingDecision)
        ensures
            d@ == bare_decision(RouteAction::Reject, dst_port),
    {
        RoutingDecision {
            action: RouteAction::Reject,
            domain: None,
            dst_ip: None,
            dst_port,
            matched_rule: None,
        }
    }

    /// The same decision with the given domain.
    pub fn with_domain(self, domain: &str) -> (d: RoutingDecision)
        ensures
            d@ == (RoutingDecisionView { domain: Some(domain@), ..self@ }),
    {
        let mut d = self;
        d.domain = Some(String::from_str(domain));
        d
    }

    /// The same decision with the given destination address.
    pub fn with_dst_ip(self, ip: IpAddr) -> (d: RoutingDecision)
        ensures
            d@ == (RoutingDecisionView { dst_ip: Some(ip), ..self@ }),
    {
        let mut d = self;
        d.dst_ip = Some(ip);
        d
    }

    /// The same decision with the name of the rule that matched.
    pub fn with_rule(self, rule: &str) -> (d: RoutingDecision)
        ensures
            d@ == (RoutingDecisionView { matched_rule: Some(rule@), ..self@ }),
    {
        let mut d = self;
        d.matched_rule = Some(String::from_str(rule));
        d
    }
}

/// Counters of the decisions taken and of the bytes that went through the
/// proxy. Each is a 64-bit counter that wraps.
#[derive(Debug, Clone, Copy, PartialEq, Eq, Structural)]
pub struct ProxyStats {
    pub direct_connections: u64,
    pub proxied_connections: u64,
    pub rejected_connections: u64,
    pub proxy_bytes_sent: u64,
    pub proxy_bytes_received: u64,
}

impl ProxyStats {
    /// The counters at zero.
    pub open spec fn zero() -> ProxyStats {
        ProxyStats {
            direct_connections: 0,
            proxied_connections: 0,
            rejected_connections: 0,
            proxy_bytes_sent: 0,
            proxy_bytes_received: 0,
        }
    }

    /// The counters after one more decision `action`.
    pub open spec fn counted(self, action: RouteAction) -> ProxyStats {
        match action {
            RouteAction::Direct => ProxyStats {
                direct_connections: self.direct_connections.wrapping_add(1),
                ..self
            },
            RouteAction::Proxy => ProxyStats {
                proxied_connections: self.proxied_connections.wrapping_add(1),
                ..self
            },
            RouteAction::Reject => ProxyStats {
                rejected_connections: self.rejected_connections.wrapping_add(1),
                ..self
            },
        }
    }
}

impl Default for ProxyStats {
    fn default() -> (stats: ProxyStats)
        ensures
            stats == ProxyStats::zero(),
    {
        ProxyStats {
            direct_connections: 0,
            proxied_connections: 0,
            rejected_connections: 0,
            proxy_bytes_sent: 0,
            proxy_bytes_received: 0,
        }
    }
}

/// The proxy manager as plain values.
pub struct ProxyManagerView {
    pub config: Option<ProxyConfigView>,
    pub rules: RuleEngineView,
    pub stats: ProxyStats,
    /// The switch. The proxy is in use where the switch is on and there is a
    /// configuration.
    pub enabled: bool,
}

impl ProxyManagerView {
    /// Whether the proxy is in use.
    pub open spec fn is_enabled(self) -> bool {
        self.enabled && self.config is Some
    }

    /// The action for a query: what the rules say where the proxy is in use,
    /// and `Direct` where it is not.
    pub open spec fn route(self, q: RouteQuery) -> RouteAction {
        if self.is_enabled() {
            spec_evaluate(self.rules.rules, self.rules.default_action, q)
        } else {
            RouteAction::Direct
        }
    }
}

/// The rule engine with the proxy configuration, a switch and counters.
pub struct ProxyManager {
    config: Option<ProxyConfig>,
    rule_engine: RuleEngine,
    stats: ProxyStats,
    enabled: bool,
}

impl View for ProxyManager {
    type V = ProxyManagerView;

    closed spec fn view(&self) -> ProxyManagerView {
        ProxyManagerView {
            config: match self.config {
                Some(c) => Some(c@),
                None => None,
            },
            rules: self.rule_engine@,
            stats: self.stats,
            enabled: self.enabled,
        }
    }
}

impl ProxyManager {
    /// A manager without configuration and rules, switched off.
    pub fn new() -> (manager: ProxyManager)
        ensures
            manager@.config is None,
            manager@.rules.rules == Seq::<RuleView>::empty(),
            manager@.rules.default_action == RouteAction::Direct,
            manager@.stats == ProxyStats::zero(),
            !manager@.enabled,
    {
        ProxyManager {
            config: None,
            rule_engine: RuleEngine::new(),
            stats: ProxyStats::default(),
            enabled: false,
        }
    }

    /// A manager with a configuration and without rules, switched on.
    pub fn with_config(config: ProxyConfig) -> (manager: ProxyManager)
        ensures
            manager@.config == Some(config@),
            manager@.rules.rules == Seq::<RuleView>::empty(),
            manager@.rules.default_action == RouteAction::Direct,
            manager@.stats == ProxyStats::zero(),
            manager@.enabled,
    {
        ProxyManager {
            config: Some(config),
            rule_engine: RuleEngine::new(),
            stats: ProxyStats::default(),
            enabled: true,
        }
    }

    /// Sets the configuration. The switch stays as it is.
    pub fn set_config(&mut self, config: ProxyConfig)
        ensures
            final(self)@ == (ProxyManagerView { config: Some(config@), ..old(self)@ }),
    {
        self.config = Some(config);
    }

    /// The configuration.
    pub fn get_config(&self) -> (config: Option<&ProxyConfig>)
        ensures
            match config {
                Some(c) => self@.config == Some(c@),
                None => self@.config is None,
            },
    {
        self.config.as_ref()
    }

    /// Switches the proxy on. Rules and counters stay.
    pub fn enable(&mut self)
        ensures
            final(self)@ == (ProxyManagerView { enabled: true, ..old(self)@ }),
    {
        self.enabled = true;
    }

    /// Switches the proxy off. Rules and counters stay.
    pub fn disable(&mut self)
        ensures
            final(self)@ == (ProxyManagerView { enabled: false, ..old(self)@ }),
    {
        self.enabled = false;
    }

    /// Whether the proxy is in use: the switch is on and there is a
    /// configuration.
    pub fn is_enabled(&self) -> (r: bool)
        ensures
            r == self@.is_enabled(),
    {
        self.enabled && self.config.is_some()
    }

    /// Loads rules from a configuration text and appends them to the rules
    /// that the engine holds. Returns the number of rules added. A line that
    /// spells no rule ends the loading with a `ConfigError` whose message
    /// names the line by its number, quotes it, and says what is wrong with
    /// it; the rules of the lines before it stay added.
    pub fn load_rules(&mut self, config: &str) -> (r: Result<usize, VoyageError>)
        ensures
            final(self)@ == (ProxyManagerView {
                rules: RuleEngineView {
                    rules: old(self)@.rules.rules + load_config(config@).rules,
                    ..old(self)@.rules
                },
                ..old(self)@
            }),
            r matches Ok(n) ==> load_config(config@).error is None && n == load_config(
                config@,
            ).rules.len(),
            r matches Err(e) ==> e matches VoyageError::ConfigError(m) && load_config(
                config@,
            ).error == Some(m@),
    {
        match self.rule_engine.load_from_config(config) {
            Ok(n) => Ok(n),
            Err(m) => Err(VoyageError::ConfigError(m)),
        }
    }

    /// Removes every rule. Configuration, switch and counters stay.
    pub fn clear_rules(&mut self)
        ensures
            final(self)@ == (ProxyManagerView {
                rules: RuleEngineView { rules: Seq::empty(), ..old(self)@.rules },
                ..old(self)@
            }),
    {
        self.rule_engine.clear();
    }

    /// The number of rules.
    pub fn rule_count(&self) -> (n: usize)
        ensures
            n == self@.rules.rules.len(),
    {
        self.rule_engine.len()
    }

    /// Decides how a connection is routed, and counts the decision. The
    /// action is what the rules say where the proxy is in use, and `Direct`
    /// where it is not.
    pub fn evaluate_route(
        &mut self,
        domain: Option<&str>,
        dst_ip: Option<IpAddr>,
        dst_port: u16,
        src_port: u16,
    ) -> (decision: RoutingDecision)
        ensures
            decision@ == (RoutingDecisionView {
                action: old(self)@.route(query_of(domain, dst_ip, dst_port, src_port)),
                domain: query_of(domain, dst_ip, dst_port, src_port).domain,
                dst_ip,
                dst_port,
                matched_rule: None,
            }),
            final(self)@ == (ProxyManagerView {
                stats: old(self)@.stats.counted(decision.action),
                ..old(self)@
            }),
    {
        let action = if self.is_enabled() {
            self.rule_engine.evaluate(domain, dst_ip, dst_port, src_port)
        } else {
            RouteAction::Direct
        };
        match action {
            RouteAction::Direct => {
                self.stats.direct_connections = self.stats.direct_connections.wrapping_add(1);
            },
            RouteAction::Proxy => {
                self.stats.proxied_connections = self.stats.proxied_connections.wrapping_add(1);
            },
            RouteAction::Reject => {
                self.stats.rejected_connections = self.stats.rejected_connections.wrapping_add(1);
            },
        }
        RoutingDecision {
            action,
            domain: match domain {
                Some(d) => Some(String::from_str(d)),
                None => None,
            },
            dst_ip,
            dst_port,
            matched_rule: None,
        }
    }

    /// Decides how a connection is routed, counts the decision, and gives
    /// the action in its numbered form.
    pub fn evaluate_route_ffi(
        &mut self,
        domain: Option<&str>,
        dst_ip: Option<IpAddr>,
        dst_port: u16,
        src_port: u16,
    ) -> (action: FfiRouteAction)
        ensures
            action == FfiRouteAction::of(
                old(self)@.route(query_of(domain, dst_ip, dst_port, src_port)),
            ),
            final(self)@ == (ProxyManagerView {
                stats: old(self)@.stats.counted(
                    old(self)@.route(query_of(domain, dst_ip, dst_port, src_port)),
                ),
                ..old(self)@
            }),
    {
        let decision = self.evaluate_route(domain, dst_ip, dst_port, src_port);
        FfiRouteAction::from(decision.action)
    }

    /// Counts bytes sent through the proxy.
    pub fn add_proxy_bytes_sent(&mut self, bytes: u64)
        ensures
            final(self)@ == (ProxyManagerView {
                stats: ProxyStats {
                    proxy_bytes_sent: old(self)@.stats.proxy_bytes_sent.wrapping_add(bytes),
                    ..old(self)@.stats
                },
                ..old(self)@
            }),
    {
        self.stats.proxy_bytes_sent = self.stats.proxy_bytes_sent.wrapping_add(bytes);
    }

    /// Counts bytes received through the proxy.
    pub fn add_proxy_bytes_received(&mut self, bytes: u64)
        ensures
            final(self)@ == (ProxyManagerView {
                stats: ProxyStats {
                    proxy_bytes_received: old(self)@.stats.proxy_bytes_received.wrapping_add(bytes),
                    ..old(self)@.stats
                },
                ..old(self)@
            }),
    {
        self.stats.proxy_bytes_received = self.stats.proxy_bytes_received.wrapping_add(bytes);
    }

    /// The counters.
    pub fn get_stats(&self) -> (stats: &ProxyStats)
        ensures
            *stats == self@.stats,
    {
        &self.stats
    }

    /// Sets every counter to zero.
    pub fn reset_stats(&mut self)
        ensures
            final(self)@ == (ProxyManagerView { stats: ProxyStats::zero(), ..old(self)@ }),
    {
        self.stats = ProxyStats::default();
    }

    /// The host and the port of the proxy.
    pub fn get_proxy_addr(&self) -> (addr: Option<(String, u16)>)
        ensures
            match addr {
                Some((host, port)) => self@.config matches Some(c) && host@ == c.server_host
                    && port == c.server_port,
                None => self@.config is None,
            },
    {
        match &self.config {
            Some(c) => Some((c.server_host.clone(), c.server_port)),
            None => None,
        }
    }

    /// The credentials for the proxy, where the configuration holds both a
    /// user name and a password.
    pub fn get_credentials(&self) -> (credentials: Option<(String, String)>)
        ensures
            match credentials {
                Some((u, p)) => self@.config matches Some(c) && c.credentials() == Some((u@, p@)),
                None => self@.config matches Some(c) ==> c.credentials() is None,
            },
    {
        match &self.config {
            Some(c) => match (&c.username, &c.password) {
                (Some(u), Some(p)) => Some((u.clone(), p.clone())),
                _ => None,
            },
            None => None,
        }
    }
}

impl Default for ProxyManager {
    fn default() -> (manager: ProxyManager)
        ensures
            manager@.config is None,
            manager@.rules.rules == Seq::<RuleView>::empty(),
            !manager@.enabled,
    {
        ProxyManager::new()
    }
}

} // verus!

use voyage_core::addr::{IpAddr, Ipv4Addr};
use voyage_core::config::ProxyConfig;
use voyage_core::connection::ConnectionManager;
use voyage_core::error::VoyageError;
use voyage_core::packet::ParsedPacket;
use voyage_core::proxy::{ProxyManager, ProxyStats, RoutingDecision};
use voyage_core::rule::{FfiRouteAction, RouteAction};

fn plain_config() -> ProxyConfig {
    ProxyConfig {
        server_host: "proxy.example.com".into(),
        server_port: 1080,
        username: None,
        password: None,
    }
}

fn make_tcp_syn_packet(src_port: u16, dst_port: u16) -> Vec<u8> {
    let mut packet = vec![0u8; 40];
    packet[0] = 0x45;
    packet[2] = 0x00;
    packet[3] = 0x28;
    packet[9] = 0x06;
    packet[12] = 10;
    packet[13] = 0;
    packet[14] = 0;
    packet[15] = 1;
    packet[16] = 8;
    packet[17] = 8;
    packet[18] = 8;
    packet[19] = 8;
    packet[20] = (src_port >> 8) as u8;
    packet[21] = (src_port & 0xFF) as u8;
    packet[22] = (dst_port >> 8) as u8;
    packet[23] = (dst_port & 0xFF) as u8;
    packet[32] = 0x50;
    packet[33] = 0x02;
    packet
}

#[test]
fn test_proxy_manager_new() {
    let manager = ProxyManager::new();
    assert!(!manager.is_enabled());
    assert!(manager.get_config().is_none());
    assert_eq!(manager.rule_count(), 0);
}

#[test]
fn test_proxy_manager_with_config() {
    let config = ProxyConfig {
        server_host: "proxy.example.com".into(),
        server_port: 1080,
        username: Some("user".into()),
        password: Some("pass".into()),
    };

    let manager = ProxyManager::with_config(config.clone());
    assert!(manager.is_enabled());
    assert!(manager.get_config().is_some());
    assert_eq!(manager.get_config().unwrap().server_host, "proxy.example.com");
}

#[test]
fn proxy_test_enable_disable() {
    let mut manager = ProxyManager::new();
    manager.set_config(ProxyConfig {
        server_host: "proxy.example.com".into(),
        server_port: 1080,
        username: None,
        password: None,
    });

    manager.enable();
    assert!(manager.is_enabled());

    manager.disable();
    assert!(!manager.is_enabled());
}

#[test]
fn proxy_test_load_rules() {
    let mut manager = ProxyManager::new();
    let config = r#"
DOMAIN-SUFFIX, .google.com, PROXY
FINAL, DIRECT
"#;

    let count = manager.load_rules(config).unwrap();
    assert_eq!(count, 2);
    assert_eq!(manager.rule_count(), 2);
}

#[test]
fn test_evaluate_route_disabled() {
    let mut manager = ProxyManager::new();

    let decision = manager.evaluate_route(Some("www.google.com"), None, 443, 0);
    assert_eq!(decision.action, RouteAction::Direct);
}

#[test]
fn test_evaluate_route_with_rules() {
    let mut manager = ProxyManager::with_config(plain_config());

    manager
        .load_rules(
            r#"
DOMAIN-SUFFIX, .google.com, PROXY
DOMAIN, blocked.com, REJECT
FINAL, DIRECT
"#,
        )
        .unwrap();

    let decision = manager.evaluate_route(Some("www.google.com"), None, 443, 0);
    assert_eq!(decision.action, RouteAction::Proxy);

    let decision = manager.evaluate_route(Some("blocked.com"), None, 443, 0);
    assert_eq!(decision.action, RouteAction::Reject);

    let decision = manager.evaluate_route(Some("example.com"), None, 443, 0);
    assert_eq!(decision.action, RouteAction::Direct);
}

#[test]
fn test_stats_tracking() {
    let mut manager = ProxyManager::with_config(plain_config());

    manager
        .load_rules(
            r#"
DOMAIN, proxy.com, PROXY
DOMAIN, reject.com, REJECT
FINAL, DIRECT
"#,
        )
        .unwrap();

    manager.evaluate_route(Some("proxy.com"), None, 443, 0);
    manager.evaluate_route(Some("reject.com"), None, 443, 0);
    manager.evaluate_route(Some("other.com"), None, 443, 0);
    manager.evaluate_route(Some("another.com"), None, 443, 0);

    let stats = manager.get_stats();
    assert_eq!(stats.proxied_connections, 1);
    assert_eq!(stats.rejected_connections, 1);
    assert_eq!(stats.direct_connections, 2);
}

#[test]
fn test_proxy_bytes_tracking() {
    let mut manager = ProxyManager::new();

    manager.add_proxy_bytes_sent(100);
    manager.add_proxy_bytes_received(200);

    let stats = manager.get_stats();
    assert_eq!(stats.proxy_bytes_sent, 100);
    assert_eq!(stats.proxy_bytes_received, 200);
}

#[test]
fn test_reset_stats() {
    let mut manager = ProxyManager::new();
    manager.add_proxy_bytes_sent(100);

    manager.reset_stats();

    let stats = manager.get_stats();
    assert_eq!(stats.proxy_bytes_sent, 0);
}

#[test]
fn test_get_proxy_addr() {
    let manager = ProxyManager::with_config(plain_config());

    let addr = manager.get_proxy_addr().unwrap();
    assert_eq!(addr, ("proxy.example.com".to_string(), 1080));
}

#[test]
fn test_get_credentials() {
    let manager = ProxyManager::with_config(ProxyConfig {
        server_host: "proxy.example.com".into(),
        server_port: 1080,
        username: Some("user".into()),
        password: Some("pass".into()),
    });

    let creds = manager.get_credentials().unwrap();
    assert_eq!(creds, ("user".to_string(), "pass".to_string()));
}

#[test]
fn test_get_credentials_none() {
    let manager = ProxyManager::with_config(plain_config());

    assert!(manager.get_credentials().is_none());
}

#[test]
fn test_routing_decision_builders() {
    let decision = RoutingDecision::direct(443)
        .with_domain("example.com")
        .with_dst_ip(IpAddr::V4(Ipv4Addr::new(1, 2, 3, 4)))
        .with_rule("test rule");

    assert_eq!(decision.action, RouteAction::Direct);
    assert_eq!(decision.domain, Some("example.com".to_string()));
    assert_eq!(decision.dst_port, 443);
    assert_eq!(decision.matched_rule, Some("test rule".to_string()));
}

#[test]
fn proxy_test_clear_rules() {
    let mut manager = ProxyManager::new();
    manager.load_rules("FINAL, DIRECT").unwrap();
    assert_eq!(manager.rule_count(), 1);

    manager.clear_rules();
    assert_eq!(manager.rule_count(), 0);
}

#[test]
fn test_full_packet_processing_pipeline() {
    let mut conn_manager = ConnectionManager::new();
    let mut proxy_manager = ProxyManager::with_config(ProxyConfig {
        server_host: "127.0.0.1".into(),
        server_port: 1080,
        username: None,
        password: None,
    });

    proxy_manager
        .load_rules(
            r#"
DOMAIN-SUFFIX, .google.com, PROXY
IP-CIDR, 8.8.8.0/24, PROXY
FINAL, DIRECT
"#,
        )
        .unwrap();

    let packet = make_tcp_syn_packet(12345, 443);

    let parsed = ParsedPacket::parse(&packet).unwrap();

    assert!(parsed.is_tcp_syn());
    assert_eq!(parsed.tcp.as_ref().unwrap().src_port, 12345);
    assert_eq!(parsed.tcp.as_ref().unwrap().dst_port, 443);

    let conn_info = conn_manager.process_packet(&parsed, 0).unwrap();
    assert!(conn_info.local_port > 0);

    let decision = proxy_manager.evaluate_route(None, parsed.dst_addr().map(|a| a.ip()), 443, 12345);
    assert_eq!(decision.action, RouteAction::Proxy);
}

#[test]
fn test_proxy_stats_tracking() {
    let mut manager = ProxyManager::with_config(ProxyConfig {
        server_host: "127.0.0.1".into(),
        server_port: 1080,
        username: None,
        password: None,
    });

    manager
        .load_rules(
            r#"
DOMAIN, proxy.com, PROXY
DOMAIN, reject.com, REJECT
FINAL, DIRECT
"#,
        )
        .unwrap();

    for _ in 0..10 {
        manager.evaluate_route(Some("proxy.com"), None, 443, 0);
    }
    for _ in 0..5 {
        manager.evaluate_route(Some("reject.com"), None, 443, 0);
    }
    for _ in 0..20 {
        manager.evaluate_route(Some("other.com"), None, 443, 0);
    }

    let stats = manager.get_stats();
    assert_eq!(stats.proxied_connections, 10);
    assert_eq!(stats.rejected_connections, 5);
    assert_eq!(stats.direct_connections, 20);
}

#[test]
fn test_config_loading() {
    let config = ProxyConfig {
        server_host: "proxy.example.com".into(),
        server_port: 1080,
        username: Some("user".into()),
        password: Some("password".into()),
    };

    let manager = ProxyManager::with_config(config.clone());

    let (host, port) = manager.get_proxy_addr().unwrap();
    assert_eq!(host, "proxy.example.com");
    assert_eq!(port, 1080);

    let (user, pass) = manager.get_credentials().unwrap();
    assert_eq!(user, "user");
    assert_eq!(pass, "password");
}

#[test]
fn test_enable_disable_proxy() {
    let mut manager = ProxyManager::with_config(ProxyConfig {
        server_host: "127.0.0.1".into(),
        server_port: 1080,
        username: None,
        password: None,
    });

    manager.load_rules("FINAL, PROXY").unwrap();

    assert!(manager.is_enabled());
    let decision = manager.evaluate_route(Some("example.com"), None, 443, 0);
    assert_eq!(decision.action, RouteAction::Proxy);

    manager.disable();
    assert!(!manager.is_enabled());
    let decision = manager.evaluate_route(Some("example.com"), None, 443, 0);
    assert_eq!(decision.action, RouteAction::Direct);

    manager.enable();
    assert!(manager.is_enabled());
    let decision = manager.evaluate_route(Some("example.com"), None, 443, 0);
    assert_eq!(decision.action, RouteAction::Proxy);
}

#[test]
fn a_switch_without_configuration_routes_directly() {
    let mut manager = ProxyManager::default();
    manager.load_rules("FINAL, REJECT").unwrap();
    manager.enable();
    assert!(!manager.is_enabled());
    assert_eq!(manager.evaluate_route(None, None, 1, 1).action, RouteAction::Direct);
    assert_eq!(manager.evaluate_route_ffi(None, None, 1, 1), FfiRouteAction::Direct);
    manager.set_config(plain_config());
    assert!(manager.is_enabled());
    assert_eq!(manager.evaluate_route_ffi(None, None, 1, 1), FfiRouteAction::Reject);
    let stats = *manager.get_stats();
    assert_eq!(
        stats,
        ProxyStats {
            direct_connections: 2,
            proxied_connections: 0,
            rejected_connections: 1,
            proxy_bytes_sent: 0,
            proxy_bytes_received: 0,
        }
    );
    manager.disable();
    assert_eq!(manager.rule_count(), 1);
    assert_eq!(*manager.get_stats(), stats);
    assert!(manager.get_config().is_some());
}

#[test]
fn decisions_carry_what_they_were_taken_on() {
    let mut manager = ProxyManager::with_config(plain_config());
    let ip = IpAddr::V4(Ipv4Addr::new(9, 9, 9, 9));
    let decision = manager.evaluate_route(Some("a.com"), Some(ip), 8443, 77);
    assert_eq!(decision.action, RouteAction::Direct);
    assert_eq!(decision.domain, Some("a.com".to_string()));
    assert_eq!(decision.dst_ip, Some(ip));
    assert_eq!(decision.dst_port, 8443);
    assert_eq!(decision.matched_rule, None);
    let bare = RoutingDecision::proxy(1);
    assert_eq!(bare.action, RouteAction::Proxy);
    assert_eq!(bare.domain, None);
    assert_eq!(bare.dst_ip, None);
    assert_eq!(bare.matched_rule, None);
    assert_eq!(RoutingDecision::reject(2).action, RouteAction::Reject);
    assert_eq!(RoutingDecision::reject(2).dst_port, 2);
}

#[test]
fn refused_rule_texts_are_configuration_errors() {
    let mut manager = ProxyManager::new();
    match manager.load_rules("FINAL, DIRECT\nDST-PORT, x, DIRECT") {
        Err(VoyageError::ConfigError(m)) => assert_eq!(
            m,
            "line 2 (DST-PORT, x, DIRECT): Invalid port: invalid digit found in string"
        ),
        other => panic!("unexpected result: {:?}", other),
    }
    assert_eq!(manager.rule_count(), 1);
}

#[test]
fn proxy_counters_wrap() {
    let mut manager = ProxyManager::new();
    manager.add_proxy_bytes_sent(u64::MAX);
    manager.add_proxy_bytes_sent(2);
    manager.add_proxy_bytes_received(u64::MAX);
    manager.add_proxy_bytes_received(1);
    assert_eq!(manager.get_stats().proxy_bytes_sent, 1);
    assert_eq!(manager.get_stats().proxy_bytes_received, 0);
    assert_eq!(ProxyStats::default().direct_connections, 0);
    assert!(manager.get_proxy_addr().is_none());
    assert!(manager.get_credentials().is_none());
}

#[test]
fn credentials_need_both_parts() {
    let mut config = plain_config();
    config.username = Some("user".into());
    assert!(ProxyManager::with_config(config.clone()).get_credentials().is_none());
    config.username = None;
    config.password = Some("pass".into());
    assert!(ProxyManager::with_config(config).get_credentials().is_none());
}

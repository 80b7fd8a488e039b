use voyage_core::config::ProxyConfig;

#[test]
fn test_proxy_config_default() {
    let config = ProxyConfig::default();
    assert_eq!(config.server_host, "127.0.0.1");
    assert_eq!(config.server_port, 1080);
    assert!(config.username.is_none());
}

#[test]
fn test_proxy_config_with_auth() {
    let config = ProxyConfig::new("proxy.example.com", 8080).with_auth("user", "pass");
    assert_eq!(config.username, Some("user".to_string()));
    assert_eq!(config.password, Some("pass".to_string()));
}

#[test]
fn proxy_config_keeps_host_and_port() {
    let config = ProxyConfig::new("proxy.example.com", 8080);
    assert_eq!(config.server_host, "proxy.example.com");
    assert_eq!(config.server_port, 8080);
    assert!(config.password.is_none());
    let config = config.with_auth("u", "p");
    assert_eq!(config.server_host, "proxy.example.com");
    assert_eq!(config.server_port, 8080);
}

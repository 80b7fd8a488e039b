use voyage_core::addr::{IpAddr, Ipv4Addr, Ipv6Addr};
use voyage_core::rule::{ip_in_cidr, FfiRouteAction, RouteAction, Rule, RuleEngine, RuleType};

fn v4(a: u8, b: u8, c: u8, d: u8) -> Option<IpAddr> {
    Some(IpAddr::V4(Ipv4Addr::new(a, b, c, d)))
}

fn load_error(config: &str) -> String {
    let mut engine = RuleEngine::new();
    engine.load_from_config(config).unwrap_err()
}

fn line_fault(line: &str) -> String {
    let chars: Vec<char> = line.trim().chars().collect();
    match RuleEngine::parse_rule_line(&chars) {
        Ok(rule) => panic!("unexpected rule {:?}", rule),
        Err(fault) => fault,
    }
}

fn load_one(line: &str) -> Rule {
    let mut engine = RuleEngine::new();
    assert_eq!(engine.load_from_config(line), Ok(1));
    engine.rules()[0].clone()
}

#[test]
fn test_domain_match() {
    let rule = Rule::new(RuleType::Domain("example.com".into()), RouteAction::Proxy);

    assert!(rule.matches(Some("example.com"), None, 443, 0));
    assert!(rule.matches(Some("EXAMPLE.COM"), None, 443, 0));
    assert!(!rule.matches(Some("www.example.com"), None, 443, 0));
    assert!(!rule.matches(Some("example.org"), None, 443, 0));
    assert!(!rule.matches(None, None, 443, 0));
}

#[test]
fn test_domain_suffix_match() {
    let rule = Rule::new(RuleType::DomainSuffix(".google.com".into()), RouteAction::Proxy);

    assert!(rule.matches(Some("www.google.com"), None, 443, 0));
    assert!(rule.matches(Some("mail.google.com"), None, 443, 0));
    assert!(rule.matches(Some("google.com"), None, 443, 0));
    assert!(!rule.matches(Some("google.org"), None, 443, 0));
    assert!(!rule.matches(Some("notgoogle.com"), None, 443, 0));
}

#[test]
fn test_domain_keyword_match() {
    let rule = Rule::new(RuleType::DomainKeyword("google".into()), RouteAction::Proxy);

    assert!(rule.matches(Some("www.google.com"), None, 443, 0));
    assert!(rule.matches(Some("google.co.jp"), None, 443, 0));
    assert!(rule.matches(Some("googleapis.com"), None, 443, 0));
    assert!(!rule.matches(Some("example.com"), None, 443, 0));
}

#[test]
fn test_ip_cidr_match() {
    let rule = Rule::new(RuleType::IpCidr(Ipv4Addr::new(192, 168, 0, 0), 16), RouteAction::Direct);

    assert!(rule.matches(None, Some(IpAddr::V4(Ipv4Addr::new(192, 168, 1, 1))), 443, 0));
    assert!(rule.matches(None, Some(IpAddr::V4(Ipv4Addr::new(192, 168, 255, 255))), 443, 0));
    assert!(!rule.matches(None, Some(IpAddr::V4(Ipv4Addr::new(192, 169, 0, 1))), 443, 0));
    assert!(!rule.matches(None, Some(IpAddr::V4(Ipv4Addr::new(10, 0, 0, 1))), 443, 0));
}

#[test]
fn test_port_match() {
    let dst_rule = Rule::new(RuleType::DstPort(443), RouteAction::Direct);
    let src_rule = Rule::new(RuleType::SrcPort(8080), RouteAction::Proxy);

    assert!(dst_rule.matches(None, None, 443, 0));
    assert!(!dst_rule.matches(None, None, 80, 0));

    assert!(src_rule.matches(None, None, 443, 8080));
    assert!(!src_rule.matches(None, None, 443, 9000));
}

#[test]
fn test_final_match() {
    let rule = Rule::new(RuleType::Final, RouteAction::Proxy);

    assert!(rule.matches(None, None, 0, 0));
    assert!(rule.matches(Some("anything"), Some(IpAddr::V4(Ipv4Addr::new(1, 2, 3, 4))), 443, 8080));
}

#[test]
fn test_rule_engine_evaluate() {
    let mut engine = RuleEngine::new();

    engine.add_rule(Rule::new(RuleType::DomainSuffix(".google.com".into()), RouteAction::Proxy));
    engine.add_rule(Rule::new(RuleType::IpCidr(Ipv4Addr::new(10, 0, 0, 0), 8), RouteAction::Direct));
    engine.add_rule(Rule::new(RuleType::Final, RouteAction::Proxy));

    assert_eq!(engine.evaluate(Some("www.google.com"), None, 443, 0), RouteAction::Proxy);
    assert_eq!(
        engine.evaluate(None, Some(IpAddr::V4(Ipv4Addr::new(10, 1, 2, 3))), 443, 0),
        RouteAction::Direct
    );
    assert_eq!(
        engine.evaluate(Some("example.com"), Some(IpAddr::V4(Ipv4Addr::new(8, 8, 8, 8))), 443, 0),
        RouteAction::Proxy
    );
}

#[test]
fn test_load_from_config() {
    let config = r#"
# This is a comment
DOMAIN, example.com, DIRECT
DOMAIN-SUFFIX, .google.com, PROXY
DOMAIN-KEYWORD, facebook, REJECT
IP-CIDR, 192.168.0.0/16, DIRECT
DST-PORT, 443, PROXY
FINAL, DIRECT
"#;

    let mut engine = RuleEngine::new();
    let count = engine.load_from_config(config).unwrap();

    assert_eq!(count, 6);
    assert_eq!(engine.len(), 6);
}

#[test]
fn test_ip_in_cidr() {
    assert!(ip_in_cidr(Ipv4Addr::new(10, 1, 2, 3), Ipv4Addr::new(10, 0, 0, 0), 8));
    assert!(!ip_in_cidr(Ipv4Addr::new(11, 0, 0, 1), Ipv4Addr::new(10, 0, 0, 0), 8));

    assert!(ip_in_cidr(Ipv4Addr::new(192, 168, 1, 100), Ipv4Addr::new(192, 168, 1, 0), 24));
    assert!(!ip_in_cidr(Ipv4Addr::new(192, 168, 2, 1), Ipv4Addr::new(192, 168, 1, 0), 24));

    assert!(ip_in_cidr(Ipv4Addr::new(8, 8, 8, 8), Ipv4Addr::new(8, 8, 8, 8), 32));
    assert!(!ip_in_cidr(Ipv4Addr::new(8, 8, 8, 9), Ipv4Addr::new(8, 8, 8, 8), 32));

    assert!(ip_in_cidr(Ipv4Addr::new(1, 2, 3, 4), Ipv4Addr::new(0, 0, 0, 0), 0));
}

#[test]
fn test_ffi_route_action_conversion() {
    assert_eq!(FfiRouteAction::from(RouteAction::Direct), FfiRouteAction::Direct);
    assert_eq!(FfiRouteAction::from(RouteAction::Proxy), FfiRouteAction::Proxy);
    assert_eq!(FfiRouteAction::from(RouteAction::Reject), FfiRouteAction::Reject);

    assert_eq!(RouteAction::from(FfiRouteAction::Direct), RouteAction::Direct);
    assert_eq!(RouteAction::from(FfiRouteAction::Proxy), RouteAction::Proxy);
    assert_eq!(RouteAction::from(FfiRouteAction::Reject), RouteAction::Reject);
}

#[test]
fn test_rule_with_name() {
    let rule = Rule::with_name(RuleType::Domain("example.com".into()), RouteAction::Direct, "Example rule");

    assert_eq!(rule.name, Some("Example rule".to_string()));
}

#[test]
fn test_parse_invalid_config() {
    let mut engine = RuleEngine::new();

    let result = engine.load_from_config("UNKNOWN, foo, DIRECT");
    assert!(result.is_err());

    let result = engine.load_from_config("DOMAIN");
    assert!(result.is_err());
}

#[test]
fn rule_test_clear_rules() {
    let mut engine = RuleEngine::new();
    engine.add_rule(Rule::new(RuleType::Final, RouteAction::Direct));

    assert_eq!(engine.len(), 1);

    engine.clear();

    assert_eq!(engine.len(), 0);
    assert!(engine.is_empty());
}

#[test]
fn test_rule_engine_evaluation_order() {
    let mut engine = RuleEngine::new();

    engine.add_rule(Rule::new(RuleType::Domain("specific.google.com".into()), RouteAction::Reject));
    engine.add_rule(Rule::new(RuleType::DomainSuffix(".google.com".into()), RouteAction::Proxy));
    engine.add_rule(Rule::new(RuleType::Final, RouteAction::Direct));

    assert_eq!(engine.evaluate(Some("specific.google.com"), None, 443, 0), RouteAction::Reject);
    assert_eq!(engine.evaluate(Some("www.google.com"), None, 443, 0), RouteAction::Proxy);
    assert_eq!(engine.evaluate(Some("example.com"), None, 443, 0), RouteAction::Direct);
}

#[test]
fn test_cidr_matching() {
    let mut engine = RuleEngine::new();

    engine.add_rule(Rule::new(RuleType::IpCidr(Ipv4Addr::new(192, 168, 0, 0), 16), RouteAction::Direct));
    engine.add_rule(Rule::new(RuleType::IpCidr(Ipv4Addr::new(10, 0, 0, 0), 8), RouteAction::Direct));
    engine.add_rule(Rule::new(RuleType::Final, RouteAction::Proxy));

    assert_eq!(
        engine.evaluate(None, Some(IpAddr::V4(Ipv4Addr::new(192, 168, 1, 100))), 443, 0),
        RouteAction::Direct
    );
    assert_eq!(
        engine.evaluate(None, Some(IpAddr::V4(Ipv4Addr::new(10, 1, 2, 3))), 443, 0),
        RouteAction::Direct
    );
    assert_eq!(
        engine.evaluate(None, Some(IpAddr::V4(Ipv4Addr::new(8, 8, 8, 8))), 443, 0),
        RouteAction::Proxy
    );
}

#[test]
fn test_rule_config_parsing() {
    let config = r#"
# Comment line
DOMAIN, example.com, DIRECT
DOMAIN-SUFFIX, .google.com, PROXY
DOMAIN-KEYWORD, facebook, REJECT
IP-CIDR, 10.0.0.0/8, DIRECT
DST-PORT, 443, PROXY
FINAL, DIRECT
"#;

    let mut engine = RuleEngine::new();
    let count = engine.load_from_config(config).unwrap();

    assert_eq!(count, 6);
    assert_eq!(engine.len(), 6);
}

#[test]
fn loaded_rules_precede_by_their_lines() {
    let mut engine = RuleEngine::new();
    let count = engine
        .load_from_config("DOMAIN,specific.google.com,REJECT\nDOMAIN-SUFFIX,.google.com,PROXY\nFINAL,DIRECT")
        .unwrap();
    assert_eq!(count, 3);
    assert_eq!(engine.evaluate(Some("specific.google.com"), None, 443, 0), RouteAction::Reject);
    assert_eq!(engine.evaluate(Some("www.google.com"), None, 443, 0), RouteAction::Proxy);
    assert_eq!(engine.evaluate(Some("example.com"), None, 443, 0), RouteAction::Direct);
}

#[test]
fn a_loaded_network_rule_decides_by_the_address() {
    let mut engine = RuleEngine::new();
    assert_eq!(engine.load_from_config("IP-CIDR,192.168.0.0/16,DIRECT\nFINAL,PROXY"), Ok(2));
    assert_eq!(engine.evaluate(None, v4(192, 168, 1, 100), 80, 0), RouteAction::Direct);
    assert_eq!(engine.evaluate(None, v4(192, 169, 0, 1), 80, 0), RouteAction::Proxy);
    assert_eq!(engine.evaluate(None, v4(8, 8, 8, 8), 80, 0), RouteAction::Proxy);
}

#[test]
fn loaded_rules_hold_what_their_lines_spell() {
    let rule = load_one("  domain-Suffix ,  .Example.COM  , proxy ");
    assert_eq!(rule.rule_type, RuleType::DomainSuffix(".Example.COM".to_string()));
    assert_eq!(rule.action, RouteAction::Proxy);
    assert_eq!(rule.name, None);
    assert_eq!(load_one("DOMAIN,a.b,Reject").rule_type, RuleType::Domain("a.b".to_string()));
    assert_eq!(load_one("DOMAIN,a.b,Reject").action, RouteAction::Reject);
    assert_eq!(load_one("DOMAIN-KEYWORD,caf\u{e9},DIRECT").rule_type, RuleType::DomainKeyword("caf\u{e9}".to_string()));
    assert_eq!(load_one("IP-CIDR,10.20.30.40/8,DIRECT").rule_type, RuleType::IpCidr(Ipv4Addr::new(10, 20, 30, 40), 8));
    assert_eq!(load_one("IP-CIDR6,1.2.3.4/+0032,DIRECT").rule_type, RuleType::IpCidr(Ipv4Addr::new(1, 2, 3, 4), 32));
    assert_eq!(load_one("ip-cidr,0.0.0.0/0,DIRECT").rule_type, RuleType::IpCidr(Ipv4Addr::new(0, 0, 0, 0), 0));
    assert_eq!(load_one("ip-cidr,9.9.9.9/032,DIRECT").rule_type, RuleType::IpCidr(Ipv4Addr::new(9, 9, 9, 9), 32));
    assert_eq!(load_one("DST-PORT,65535,DIRECT").rule_type, RuleType::DstPort(65535));
    assert_eq!(load_one("SRC-PORT,+0,DIRECT").rule_type, RuleType::SrcPort(0));
    assert_eq!(load_one("FINAL,REJECT").rule_type, RuleType::Final);
    assert_eq!(load_one("final, ignored , direct").rule_type, RuleType::Final);
    assert_eq!(load_one("DOMAIN, a.com, b.com, PROXY").rule_type, RuleType::Domain("a.com".to_string()));
    assert_eq!(load_one("DOMAIN,,PROXY").rule_type, RuleType::Domain(String::new()));
    assert_eq!(load_one("\u{2003}FINAL\u{a0},\u{3000}DIRECT\u{85}").rule_type, RuleType::Final);
}

#[test]
fn lines_without_rules_are_passed_over() {
    let mut engine = RuleEngine::new();
    let text = "\n\n# one\n   // two\r\n\t\nFINAL,DIRECT\r\n#FINAL,PROXY\n//\n   \n";
    assert_eq!(engine.load_from_config(text), Ok(1));
    assert_eq!(engine.load_from_config(""), Ok(0));
    assert_eq!(engine.load_from_config("   "), Ok(0));
    assert_eq!(engine.len(), 1);
}

#[test]
fn refused_lines_say_why() {
    assert_eq!(line_fault("DOMAIN"), "Invalid rule format: DOMAIN");
    assert_eq!(line_fault("  what is this  "), "Invalid rule format: what is this");
    assert_eq!(line_fault("/"), "Invalid rule format: /");
    assert_eq!(line_fault("UNKNOWN, foo, DIRECT"), "Unknown rule type: UNKNOWN");
    assert_eq!(line_fault("unknown-Kind, foo, DIRECT"), "Unknown rule type: UNKNOWN-KIND");
    assert_eq!(line_fault("DOMAIN, foo, DENY"), "Unknown action: DENY");
    assert_eq!(line_fault("UNKNOWN, foo, deny"), "Unknown action: deny");
    assert_eq!(line_fault("FINAL,"), "Unknown action: ");
    assert_eq!(line_fault("DOMAIN, DIRECT"), "DOMAIN rule requires a domain");
    assert_eq!(line_fault("DOMAIN-SUFFIX, DIRECT"), "DOMAIN-SUFFIX rule requires a suffix");
    assert_eq!(line_fault("DOMAIN-KEYWORD, DIRECT"), "DOMAIN-KEYWORD rule requires a keyword");
    assert_eq!(line_fault("IP-CIDR, DIRECT"), "IP-CIDR rule requires a CIDR");
    assert_eq!(line_fault("IP-CIDR6, DIRECT"), "IP-CIDR rule requires a CIDR");
    assert_eq!(line_fault("DST-PORT, DIRECT"), "DST-PORT rule requires a port");
    assert_eq!(line_fault("SRC-PORT, DIRECT"), "SRC-PORT rule requires a port");
    assert_eq!(line_fault("IP-CIDR, 10.0.0.0, DIRECT"), "Invalid CIDR format: 10.0.0.0");
    assert_eq!(line_fault("IP-CIDR, 10.0.0.0/8/9, DIRECT"), "Invalid CIDR format: 10.0.0.0/8/9");
    assert_eq!(line_fault("IP-CIDR, 10.0.0/8, DIRECT"), "Invalid IP: invalid IPv4 address syntax");
    assert_eq!(line_fault("IP-CIDR, 10.0.0.256/8, DIRECT"), "Invalid IP: invalid IPv4 address syntax");
    assert_eq!(line_fault("IP-CIDR, 10.0.0.01/8, DIRECT"), "Invalid IP: invalid IPv4 address syntax");
    assert_eq!(line_fault("IP-CIDR, ::1/8, DIRECT"), "Invalid IP: invalid IPv4 address syntax");
    assert_eq!(line_fault("IP-CIDR, 10.0.0.0 /8, DIRECT"), "Invalid IP: invalid IPv4 address syntax");
    assert_eq!(line_fault("IP-CIDR, 10.0.0.0/, DIRECT"), "Invalid prefix length: cannot parse integer from empty string");
    assert_eq!(line_fault("IP-CIDR, 10.0.0.0/x, DIRECT"), "Invalid prefix length: invalid digit found in string");
    assert_eq!(line_fault("IP-CIDR, 10.0.0.0/ 8, DIRECT"), "Invalid prefix length: invalid digit found in string");
    assert_eq!(line_fault("IP-CIDR, 10.0.0.0/256, DIRECT"), "Invalid prefix length: number too large to fit in target type");
    assert_eq!(line_fault("IP-CIDR, 10.0.0.0/33, DIRECT"), "Invalid prefix length: number too large to fit in target type");
    assert_eq!(line_fault("IP-CIDR, 10.0.0.0/255, DIRECT"), "Invalid prefix length: number too large to fit in target type");
    assert_eq!(line_fault("IP-CIDR6, 10.0.0.0/+33, DIRECT"), "Invalid prefix length: number too large to fit in target type");
    assert_eq!(line_fault("IP-CIDR, 10.0.0.0/3x, DIRECT"), "Invalid prefix length: invalid digit found in string");
    assert_eq!(line_fault("DST-PORT, 65536, DIRECT"), "Invalid port: number too large to fit in target type");
    assert_eq!(line_fault("DST-PORT, 99999x, DIRECT"), "Invalid port: number too large to fit in target type");
    assert_eq!(line_fault("DST-PORT, 9999x9, DIRECT"), "Invalid port: invalid digit found in string");
    assert_eq!(line_fault("DST-PORT, -1, DIRECT"), "Invalid port: invalid digit found in string");
    assert_eq!(line_fault("DST-PORT, +, DIRECT"), "Invalid port: invalid digit found in string");
    assert_eq!(line_fault("SRC-PORT, , DIRECT"), "Invalid port: cannot parse integer from empty string");
    assert_eq!(line_fault("SRC-PORT, 4 4, DIRECT"), "Invalid port: invalid digit found in string");
}

#[test]
fn keywords_fold_ascii_letters_only() {
    assert_eq!(line_fault("DOMA\u{131}N, a.com, DIRECT"), "Unknown rule type: DOMA\u{131}N");
    assert_eq!(line_fault("\u{17f}RC-PORT, 1, DIRECT"), "Unknown rule type: \u{17f}RC-PORT");
    assert_eq!(line_fault("FINAL, D\u{131}RECT"), "Unknown action: D\u{131}RECT");
}

#[test]
fn loading_stops_at_the_first_refused_line_and_keeps_what_came_before() {
    let mut engine = RuleEngine::new();
    engine.add_rule(Rule::new(RuleType::DstPort(1), RouteAction::Reject));
    let result = engine.load_from_config("DOMAIN,a.com,PROXY\nDST-PORT,80,DIRECT\nBAD\nFINAL,REJECT");
    assert_eq!(result, Err("line 3 (BAD): Invalid rule format: BAD".to_string()));
    assert_eq!(engine.len(), 3);
    assert_eq!(engine.rules()[0].rule_type, RuleType::DstPort(1));
    assert_eq!(engine.rules()[1].rule_type, RuleType::Domain("a.com".to_string()));
    assert_eq!(engine.rules()[2].rule_type, RuleType::DstPort(80));
    assert_eq!(engine.evaluate(Some("x"), None, 9, 9), RouteAction::Direct);
}

#[test]
fn loading_appends_to_the_rules_that_are_there() {
    let mut engine = RuleEngine::with_default(RouteAction::Reject);
    assert_eq!(engine.evaluate(None, None, 1, 1), RouteAction::Reject);
    assert_eq!(engine.load_from_config("DST-PORT,80,DIRECT"), Ok(1));
    assert_eq!(engine.load_from_config("DST-PORT,80,PROXY\nDST-PORT,81,PROXY"), Ok(2));
    assert_eq!(engine.len(), 3);
    assert_eq!(engine.evaluate(None, None, 80, 1), RouteAction::Direct);
    assert_eq!(engine.evaluate(None, None, 81, 1), RouteAction::Proxy);
    assert_eq!(engine.evaluate(None, None, 82, 1), RouteAction::Reject);
    engine.add_rules(vec![
        Rule::new(RuleType::DstPort(82), RouteAction::Direct),
        Rule::new(RuleType::DstPort(82), RouteAction::Proxy),
    ]);
    assert_eq!(engine.len(), 5);
    assert_eq!(engine.evaluate(None, None, 82, 1), RouteAction::Direct);
    engine.clear();
    assert_eq!(engine.evaluate(None, None, 80, 1), RouteAction::Reject);
    assert_eq!(RuleEngine::default().evaluate(None, None, 80, 1), RouteAction::Direct);
}

#[test]
fn evaluation_takes_the_first_match_of_any_list() {
    let kinds = [
        RuleType::DstPort(1),
        RuleType::SrcPort(2),
        RuleType::Domain("a.com".to_string()),
        RuleType::Final,
    ];
    let actions = [RouteAction::Direct, RouteAction::Proxy, RouteAction::Reject];
    let queries: [(Option<&str>, u16, u16); 4] =
        [(None, 1, 0), (Some("a.com"), 5, 2), (Some("A.COM"), 5, 5), (None, 7, 7)];
    for a in 0..4 {
        for b in 0..4 {
            for c in 0..4 {
                let rules = vec![
                    Rule::new(kinds[a].clone(), actions[a % 3]),
                    Rule::new(kinds[b].clone(), actions[(b + 1) % 3]),
                    Rule::new(kinds[c].clone(), actions[(c + 2) % 3]),
                ];
                let mut engine = RuleEngine::with_default(RouteAction::Reject);
                engine.add_rules(rules.clone());
                for (domain, dst, src) in queries.iter() {
                    let mut expected = RouteAction::Reject;
                    for rule in rules.iter() {
                        if rule.matches(*domain, None, *dst, *src) {
                            expected = rule.action;
                            break;
                        }
                    }
                    assert_eq!(engine.evaluate(*domain, None, *dst, *src), expected);
                }
            }
        }
    }
}

#[test]
fn networks_of_every_prefix_length() {
    let addr = Ipv4Addr::new(0xC0, 0xA8, 0x81, 0x55);
    assert!(ip_in_cidr(addr, Ipv4Addr::new(1, 2, 3, 4), 0));
    assert!(ip_in_cidr(addr, Ipv4Addr::new(0x80, 0, 0, 0), 1));
    assert!(!ip_in_cidr(addr, Ipv4Addr::new(0x40, 0, 0, 0), 1));
    assert!(ip_in_cidr(addr, Ipv4Addr::new(0xC0, 0xA8, 0x80, 0), 17));
    assert!(!ip_in_cidr(addr, Ipv4Addr::new(0xC0, 0xA8, 0x00, 0), 17));
    assert!(ip_in_cidr(addr, Ipv4Addr::new(0xC0, 0xA8, 0x81, 0x54), 31));
    assert!(!ip_in_cidr(addr, Ipv4Addr::new(0xC0, 0xA8, 0x81, 0x54), 32));
    assert!(ip_in_cidr(addr, addr, 32));
    assert!(!ip_in_cidr(addr, addr, 33));
    assert!(!ip_in_cidr(addr, addr, 255));
    for bits in [0u32, 1, 0x7FFF_FFFF, 0x8000_0000, 0xFFFF_FFFF] {
        let other = Ipv4Addr::from_bits(bits);
        assert!(ip_in_cidr(other, addr, 0));
        assert_eq!(ip_in_cidr(other, addr, 32), other == addr);
    }
}

#[test]
fn a_network_holds_no_ipv6_address_and_no_missing_address() {
    let rule = Rule::new(RuleType::IpCidr(Ipv4Addr::new(0, 0, 0, 0), 0), RouteAction::Direct);
    assert!(rule.matches(None, v4(9, 9, 9, 9), 1, 1));
    assert!(!rule.matches(None, Some(IpAddr::V6(Ipv6Addr::new(0, 0, 0, 0, 0, 0, 0, 1))), 1, 1));
    assert!(!rule.matches(Some("a.com"), None, 1, 1));
}

#[test]
fn domain_rules_fold_ascii_case_and_nothing_else() {
    let exact = Rule::new(RuleType::Domain("CaF\u{c9}.com".into()), RouteAction::Proxy);
    assert!(exact.matches(Some("caf\u{c9}.COM"), None, 1, 1));
    assert!(!exact.matches(Some("caf\u{e9}.com"), None, 1, 1));
    let suffix = Rule::new(RuleType::DomainSuffix("..Example.com".into()), RouteAction::Proxy);
    assert!(suffix.matches(Some("EXAMPLE.COM"), None, 1, 1));
    assert!(suffix.matches(Some("a..example.com"), None, 1, 1));
    assert!(!suffix.matches(Some("a.example.com"), None, 1, 1));
    assert!(!suffix.matches(Some(".example.com"), None, 1, 1));
    let plain = Rule::new(RuleType::DomainSuffix("google.com".into()), RouteAction::Proxy);
    assert!(plain.matches(Some("notgoogle.com"), None, 1, 1));
    assert!(plain.matches(Some("google.com"), None, 1, 1));
    assert!(!plain.matches(Some("oogle.com"), None, 1, 1));
    let empty_suffix = Rule::new(RuleType::DomainSuffix("".into()), RouteAction::Proxy);
    assert!(empty_suffix.matches(Some("anything"), None, 1, 1));
    assert!(!empty_suffix.matches(None, None, 1, 1));
    let keyword = Rule::new(RuleType::DomainKeyword("GooGle".into()), RouteAction::Proxy);
    assert!(keyword.matches(Some("xgOOgLEx"), None, 1, 1));
    assert!(!keyword.matches(Some("goo.gle"), None, 1, 1));
    assert!(!keyword.matches(Some("googl"), None, 1, 1));
    let empty_keyword = Rule::new(RuleType::DomainKeyword("".into()), RouteAction::Proxy);
    assert!(empty_keyword.matches(Some(""), None, 1, 1));
}

#[test]
fn route_actions_are_numbered_in_order() {
    assert_eq!(FfiRouteAction::Direct.code(), 0);
    assert_eq!(FfiRouteAction::Proxy.code(), 1);
    assert_eq!(FfiRouteAction::Reject.code(), 2);
}

#[test]
fn load_errors_name_and_quote_the_line() {
    assert_eq!(
        load_error("FINAL, DIRECT\nDST-PORT, abc, PROXY"),
        "line 2 (DST-PORT, abc, PROXY): Invalid port: invalid digit found in string"
    );
    assert_eq!(load_error("NOPE"), "line 1 (NOPE): Invalid rule format: NOPE");
    assert_eq!(
        load_error("\n# comment\n\n   IP-CIDR, 10.0.0.0/33, DIRECT  \r\nFINAL, DIRECT"),
        "line 4 (IP-CIDR, 10.0.0.0/33, DIRECT): Invalid prefix length: number too large to fit in target type"
    );
    let mut text = String::new();
    for _ in 0..11 {
        text.push_str("FINAL, DIRECT\n");
    }
    text.push_str("FINAL, DENY");
    assert_eq!(load_error(&text), "line 12 (FINAL, DENY): Unknown action: DENY");
    let mut long = String::new();
    for _ in 0..1204 {
        long.push_str("// nothing\n");
    }
    long.push_str("DOMAIN");
    assert_eq!(load_error(&long), "line 1205 (DOMAIN): Invalid rule format: DOMAIN");
}

#[test]
fn prefixes_beyond_the_address_length_are_refused() {
    for p in 0..=32u32 {
        let mut engine = RuleEngine::new();
        assert_eq!(engine.load_from_config(&format!("IP-CIDR, 10.0.0.0/{}, DIRECT", p)), Ok(1));
        assert_eq!(engine.rules()[0].rule_type, RuleType::IpCidr(Ipv4Addr::new(10, 0, 0, 0), p as u8));
    }
    for p in 33..=300u32 {
        let mut engine = RuleEngine::new();
        assert!(engine.load_from_config(&format!("IP-CIDR, 10.0.0.0/{}, DIRECT", p)).is_err());
        assert_eq!(engine.len(), 0);
    }
}

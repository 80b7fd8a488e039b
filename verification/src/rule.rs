//! The rule engine: an ordered list of rules, each a predicate on a
//! connection with a routing action. The first rule that matches decides.

use vstd::prelude::*;
use vstd::string::*;

use crate::addr::{parse_ipv4_text, IpAddr, Ipv4Addr};
use crate::text::{
    append_chars, chars_contain, decimal_chars, decimal_text, chars_end_with, chars_eq, chars_eq_ignore_case, contains,
    ends_with, eq_ignore_case, lower, lower_chars, parse_unsigned, parse_unsigned_chars, split,
    split_chars, strip_leading, strip_leading_chars, to_chars, to_string, trim, trim_chars, upper,
    upper_chars, views,
};

verus! {

/// Where a connection goes.
#[derive(Debug, Clone, Copy, PartialEq, Eq, Structural)]
pub enum RouteAction {
    /// Straight to the destination.
    Direct,
    /// Through the SOCKS5 proxy.
    Proxy,
    /// Nowhere: the connection is dropped.
    Reject,
}

/// The predicate of a rule.
#[derive(Debug, Clone, PartialEq, Eq)]
pub enum RuleType {
    /// The host is this domain.
    Domain(String),
    /// The host ends with this suffix, or is the suffix without its leading
    /// dots.
    DomainSuffix(String),
    /// The host holds this keyword.
    DomainKeyword(String),
    /// The destination is an IPv4 address in this network.
    IpCidr(Ipv4Addr, u8),
    DstPort(u16),
    SrcPort(u16),
    /// Always.
    Final,
}

/// A rule predicate with its texts as sequences of characters.
pub enum RuleTypeView {
    Domain(Seq<char>),
    DomainSuffix(Seq<char>),
    DomainKeyword(Seq<char>),
    IpCidr(Ipv4Addr, u8),
    DstPort(u16),
    SrcPort(u16),
    Final,
}

impl View for RuleType {
    type V = RuleTypeView;

    open spec fn view(&self) -> RuleTypeView {
        match self {
            RuleType::Domain(d) => RuleTypeView::Domain(d@),
            RuleType::DomainSuffix(s) => RuleTypeView::DomainSuffix(s@),
            RuleType::DomainKeyword(k) => RuleTypeView::DomainKeyword(k@),
            RuleType::IpCidr(network, prefix_len) => RuleTypeView::IpCidr(*network, *prefix_len),
            RuleType::DstPort(p) => RuleTypeView::DstPort(*p),
            RuleType::SrcPort(p) => RuleTypeView::SrcPort(*p),
            RuleType::Final => RuleTypeView::Final,
        }
    }
}

/// A predicate with the action to take where it holds.
#[derive(Debug, Clone)]
pub struct Rule {
    pub rule_type: RuleType,
    pub action: RouteAction,
    pub name: Option<String>,
}

/// A rule with its texts as sequences of characters.
pub struct RuleView {
    pub rule_type: RuleTypeView,
    pub action: RouteAction,
    pub name: Option<Seq<char>>,
}

impl View for Rule {
    type V = RuleView;

    open spec fn view(&self) -> RuleView {
        RuleView {
            rule_type: self.rule_type@,
            action: self.action,
            name: match self.name {
                Some(n) => Some(n@),
                None => None,
            },
        }
    }
}

/// What a rule is asked about: the host name where it is known, the
/// destination address where it is known, and the two ports.
pub struct RouteQuery {
    pub domain: Option<Seq<char>>,
    pub ip: Option<IpAddr>,
    pub dst_port: u16,
    pub src_port: u16,
}

/// The query made of the arguments of a call.
pub open spec fn query_of(
    domain: Option<&str>,
    ip: Option<IpAddr>,
    dst_port: u16,
    src_port: u16,
) -> RouteQuery {
    RouteQuery {
        domain: match domain {
            Some(d) => Some(d@),
            None => None,
        },
        ip,
        dst_port,
        src_port,
    }
}

/// The top `n` bits of a 32-bit value, for `n` from 1 to 32.
pub open spec fn top_bits(bits: u32, n: u8) -> u32 {
    bits >> ((32 - n) as u32)
}

/// Whether `addr` lies in the network `network/prefix_len`: every address
/// with prefix length 0; with a prefix length from 1 to 32 those whose top
/// `prefix_len` bits are the network's; none with a longer prefix.
pub open spec fn cidr_contains(addr: Ipv4Addr, network: Ipv4Addr, prefix_len: u8) -> bool {
    if prefix_len == 0 {
        true
    } else if prefix_len > 32 {
        false
    } else {
        top_bits(addr.bits, prefix_len) == top_bits(network.bits, prefix_len)
    }
}

/// Whether the host `host` matches the suffix `suffix`, both compared without
/// regard to the case of ASCII letters: the host ends with the suffix, or is
/// the suffix without its leading dots.
pub open spec fn suffix_matches(host: Seq<char>, suffix: Seq<char>) -> bool {
    ends_with(lower(host), lower(suffix)) || lower(host) == strip_leading(lower(suffix), '.')
}

/// Whether a rule predicate holds of a query. Domain predicates hold of no
/// query without a host name, and a network holds of no IPv6 address.
pub open spec fn rule_matches(rule_type: RuleTypeView, q: RouteQuery) -> bool {
    match rule_type {
        RuleTypeView::Domain(d) => q.domain matches Some(h) && eq_ignore_case(h, d),
        RuleTypeView::DomainSuffix(s) => q.domain matches Some(h) && suffix_matches(h, s),
        RuleTypeView::DomainKeyword(k) => q.domain matches Some(h) && contains(lower(h), lower(k)),
        RuleTypeView::IpCidr(network, prefix_len) => q.ip matches Some(IpAddr::V4(a))
            && cidr_contains(a, network, prefix_len),
        RuleTypeView::DstPort(p) => q.dst_port == p,
        RuleTypeView::SrcPort(p) => q.src_port == p,
        RuleTypeView::Final => true,
    }
}

/// Whether `addr` lies in the network `network/prefix_len`.
pub fn ip_in_cidr(addr: Ipv4Addr, network: Ipv4Addr, prefix_len: u8) -> (r: bool)
    ensures
        r == cidr_contains(addr, network, prefix_len),
        prefix_len == 0 ==> r,
        prefix_len == 32 ==> r == (addr == network),
{
    if prefix_len == 0 {
        return true;
    }
    if prefix_len > 32 {
        return false;
    }
    let shift: u32 = 32 - prefix_len as u32;
    let mask: u32 = !0u32 << shift;
    let a = addr.to_bits();
    let n = network.to_bits();
    proof {
        assert(((a & (!0u32 << shift)) == (n & (!0u32 << shift))) == ((a >> shift) == (n >> shift)))
            by (bit_vector)
            requires
                shift < 32,
        ;
        lemma_cidr_extremes(addr, network);
    }
    (a & mask) == (n & mask)
}

/// With prefix length 0 a network holds every address; with prefix length 32
/// it holds its own address and no other.
pub proof fn lemma_cidr_extremes(addr: Ipv4Addr, network: Ipv4Addr)
    ensures
        cidr_contains(addr, network, 0),
        cidr_contains(addr, network, 32) == (addr == network),
{
    let a = addr.bits;
    let n = network.bits;
    assert(a >> 0u32 == a) by (bit_vector);
    assert(n >> 0u32 == n) by (bit_vector);
}

impl Rule {
    /// A rule without a name.
    pub fn new(rule_type: RuleType, action: RouteAction) -> (rule: Rule)
        ensures
            rule.rule_type == rule_type,
            rule.action == action,
            rule.name is None,
    {
        Rule { rule_type, action, name: None }
    }

    /// A rule with a name.
    pub fn with_name(rule_type: RuleType, action: RouteAction, name: &str) -> (rule: Rule)
        ensures
            rule.rule_type == rule_type,
            rule.action == action,
            rule.name matches Some(n) && n@ == name@,
    {
        Rule { rule_type, action, name: Some(String::from_str(name)) }
    }

    /// Whether the rule's predicate holds of a connection.
    pub fn matches(&self, domain: Option<&str>, ip: Option<IpAddr>, dst_port: u16, src_port: u16) -> (r:
        bool)
        ensures
            r == rule_matches(self.rule_type@, query_of(domain, ip, dst_port, src_port)),
    {
        match &self.rule_type {
            RuleType::Domain(d) => match domain {
                Some(h) => {
                    let hc = to_chars(h);
                    let dc = to_chars(d.as_str());
                    chars_eq_ignore_case(hc.as_slice(), dc.as_slice())
                },
                None => false,
            },
            RuleType::DomainSuffix(suffix) => match domain {
                Some(h) => {
                    let hc = to_chars(h);
                    let sc = to_chars(suffix.as_str());
                    let h_lower = lower_chars(hc.as_slice());
                    let s_lower = lower_chars(sc.as_slice());
                    let bare = strip_leading_chars(s_lower.as_slice(), '.');
                    chars_end_with(h_lower.as_slice(), s_lower.as_slice()) || chars_eq(
                        h_lower.as_slice(),
                        bare.as_slice(),
                    )
                },
                None => false,
            },
            RuleType::DomainKeyword(keyword) => match domain {
                Some(h) => {
                    let hc = to_chars(h);
                    let kc = to_chars(keyword.as_str());
                    let h_lower = lower_chars(hc.as_slice());
                    let k_lower = lower_chars(kc.as_slice());
                    chars_contain(h_lower.as_slice(), k_lower.as_slice())
                },
                None => false,
            },
            RuleType::IpCidr(network, prefix_len) => match ip {
                Some(IpAddr::V4(addr)) => ip_in_cidr(addr, *network, *prefix_len),
                _ => false,
            },
            RuleType::DstPort(port) => dst_port == *port,
            RuleType::SrcPort(port) => src_port == *port,
            RuleType::Final => true,
        }
    }
}

/// The views of the rules in `rules`, in order.
pub open spec fn rule_views(rules: Seq<Rule>) -> Seq<RuleView> {
    Seq::new(rules.len(), |i: int| rules[i]@)
}

/// The action of the first rule from index `from` on that matches the query;
/// the default where none does.
pub open spec fn evaluate_from(
    rules: Seq<RuleView>,
    default_action: RouteAction,
    q: RouteQuery,
    from: int,
) -> RouteAction
    decreases rules.len() - from,
{
    if from < 0 || from >= rules.len() {
        default_action
    } else if rule_matches(rules[from].rule_type, q) {
        rules[from].action
    } else {
        evaluate_from(rules, default_action, q, from + 1)
    }
}

/// The action that a list of rules with a default gives to a query.
pub open spec fn spec_evaluate(rules: Seq<RuleView>, default_action: RouteAction, q: RouteQuery) -> RouteAction {
    evaluate_from(rules, default_action, q, 0)
}

/// Whether `action` is the action of the first rule that matches the query,
/// or the default where no rule matches.
pub open spec fn is_first_match_action(
    rules: Seq<RuleView>,
    default_action: RouteAction,
    q: RouteQuery,
    action: RouteAction,
) -> bool {
    ||| exists|i: int|
        {
            &&& 0 <= i < rules.len()
            &&& #[trigger] rule_matches(rules[i].rule_type, q)
            &&& action == rules[i].action
            &&& forall|j: int| 0 <= j < i ==> !#[trigger] rule_matches(rules[j].rule_type, q)
        }
    ||| {
        &&& forall|j: int| 0 <= j < rules.len() ==> !#[trigger] rule_matches(rules[j].rule_type, q)
        &&& action == default_action
    }
}

/// Evaluation gives the action of the first rule that matches, and the
/// default where no rule matches.
pub proof fn lemma_evaluate_first_match(
    rules: Seq<RuleView>,
    default_action: RouteAction,
    q: RouteQuery,
)
    ensures
        is_first_match_action(rules, default_action, q, spec_evaluate(rules, default_action, q)),
{
    lemma_evaluate_from(rules, default_action, q, 0);
}

proof fn lemma_evaluate_from(
    rules: Seq<RuleView>,
    default_action: RouteAction,
    q: RouteQuery,
    from: int,
)
    requires
        0 <= from <= rules.len(),
        forall|j: int| 0 <= j < from ==> !#[trigger] rule_matches(rules[j].rule_type, q),
    ensures
        is_first_match_action(rules, default_action, q, evaluate_from(rules, default_action, q, from)),
    decreases rules.len() - from,
{
    if from < rules.len() {
        if rule_matches(rules[from].rule_type, q) {
        } else {
            lemma_evaluate_from(rules, default_action, q, from + 1);
        }
    }
}

/// A rule appended to a list decides only the queries that no rule of the
/// list matches.
pub proof fn lemma_evaluate_push(
    rules: Seq<RuleView>,
    rule: RuleView,
    default_action: RouteAction,
    q: RouteQuery,
    from: int,
)
    requires
        0 <= from <= rules.len(),
    ensures
        evaluate_from(rules.push(rule), default_action, q, from) == evaluate_from(
            rules,
            if rule_matches(rule.rule_type, q) {
                rule.action
            } else {
                default_action
            },
            q,
            from,
        ),
    decreases rules.len() - from,
{
    let longer = rules.push(rule);
    if from < rules.len() {
        assert(longer[from] == rules[from]);
        if !rule_matches(rules[from].rule_type, q) {
            lemma_evaluate_push(rules, rule, default_action, q, from + 1);
        }
    } else {
        assert(longer[from] == rule);
        assert(evaluate_from(longer, default_action, q, from + 1) == default_action);
    }
}

/// The action that a word names, without regard to the case of ASCII
/// letters; the message of refusal for any other word.
pub open spec fn spec_parse_action(s: Seq<char>) -> Result<RouteAction, Seq<char>> {
    if eq_ignore_case(s, "DIRECT"@) {
        Ok(RouteAction::Direct)
    } else if eq_ignore_case(s, "PROXY"@) {
        Ok(RouteAction::Proxy)
    } else if eq_ignore_case(s, "REJECT"@) {
        Ok(RouteAction::Reject)
    } else {
        Err("Unknown action: "@ + s)
    }
}

/// The network that `address/prefix` spells: an IPv4 address in dotted form
/// and a prefix length from 0 to 32. A longer prefix is refused as too
/// large.
pub open spec fn spec_parse_cidr(value: Seq<char>) -> Result<RuleTypeView, Seq<char>> {
    let halves = split(value, '/');
    if halves.len() != 2 {
        Err("Invalid CIDR format: "@ + value)
    } else {
        match parse_ipv4_text(halves[0]) {
            None => Err("Invalid IP: invalid IPv4 address syntax"@),
            Some(ip) => match parse_unsigned(halves[1], 32) {
                Err(f) => Err("Invalid prefix length: "@ + f.spec_message()),
                Ok(p) => Ok(RuleTypeView::IpCidr(ip, p as u8)),
            },
        }
    }
}

/// The port that a text spells.
pub open spec fn spec_parse_port(value: Seq<char>) -> Result<u16, Seq<char>> {
    match parse_unsigned(value, 65535) {
        Err(f) => Err("Invalid port: "@ + f.spec_message()),
        Ok(p) => Ok(p as u16),
    }
}

/// The fields of a rule line: the parts between its commas, each without the
/// white space around it.
pub open spec fn rule_fields(line: Seq<char>) -> Seq<Seq<char>> {
    let parts = split(line, ',');
    Seq::new(parts.len(), |i: int| trim(parts[i]))
}

/// The predicate that the fields of a rule line spell. The first field names
/// the kind, without regard to the case of ASCII letters; every kind but
/// `FINAL` takes its value from the second of at least three fields.
pub open spec fn spec_parse_rule_type(fields: Seq<Seq<char>>) -> Result<RuleTypeView, Seq<char>> {
    let kind = fields[0];
    if eq_ignore_case(kind, "DOMAIN"@) {
        if fields.len() < 3 {
            Err("DOMAIN rule requires a domain"@)
        } else {
            Ok(RuleTypeView::Domain(fields[1]))
        }
    } else if eq_ignore_case(kind, "DOMAIN-SUFFIX"@) {
        if fields.len() < 3 {
            Err("DOMAIN-SUFFIX rule requires a suffix"@)
        } else {
            Ok(RuleTypeView::DomainSuffix(fields[1]))
        }
    } else if eq_ignore_case(kind, "DOMAIN-KEYWORD"@) {
        if fields.len() < 3 {
            Err("DOMAIN-KEYWORD rule requires a keyword"@)
        } else {
            Ok(RuleTypeView::DomainKeyword(fields[1]))
        }
    } else if eq_ignore_case(kind, "IP-CIDR"@) || eq_ignore_case(kind, "IP-CIDR6"@) {
        if fields.len() < 3 {
            Err("IP-CIDR rule requires a CIDR"@)
        } else {
            spec_parse_cidr(fields[1])
        }
    } else if eq_ignore_case(kind, "DST-PORT"@) {
        if fields.len() < 3 {
            Err("DST-PORT rule requires a port"@)
        } else {
            match spec_parse_port(fields[1]) {
                Ok(p) => Ok(RuleTypeView::DstPort(p)),
                Err(m) => Err(m),
            }
        }
    } else if eq_ignore_case(kind, "SRC-PORT"@) {
        if fields.len() < 3 {
            Err("SRC-PORT rule requires a port"@)
        } else {
            match spec_parse_port(fields[1]) {
                Ok(p) => Ok(RuleTypeView::SrcPort(p)),
                Err(m) => Err(m),
            }
        }
    } else if eq_ignore_case(kind, "FINAL"@) {
        Ok(RuleTypeView::Final)
    } else {
        Err("Unknown rule type: "@ + upper(kind))
    }
}

/// The rule that a line spells, or the message that says why it spells
/// none. A line has at least two fields; the last one names the action, and
/// it is looked at before the kind.
pub open spec fn spec_parse_rule_line(line: Seq<char>) -> Result<RuleView, Seq<char>> {
    let fields = rule_fields(line);
    if fields.len() < 2 {
        Err("Invalid rule format: "@ + line)
    } else {
        match spec_parse_action(fields.last()) {
            Err(m) => Err(m),
            Ok(action) => match spec_parse_rule_type(fields) {
                Err(m) => Err(m),
                Ok(rule_type) => Ok(RuleView { rule_type, action, name: None }),
            },
        }
    }
}

/// Whether a line, taken without the white space around it, holds no rule:
/// it is empty, or a comment that starts with `#` or `//`.
pub open spec fn is_skipped_line(line: Seq<char>) -> bool {
    line.len() == 0 || line[0] == '#' || (line.len() >= 2 && line[0] == '/' && line[1] == '/')
}

/// The message for a line that spells no rule: the number of the line,
/// counted from 1, the line without the white space around it, and what is
/// wrong with it.
pub open spec fn located_fault(number: nat, line: Seq<char>, fault: Seq<char>) -> Seq<char> {
    "line "@ + decimal_text(number) + " ("@ + line + "): "@ + fault
}

/// What loading a text gives: the rules read before the first line that
/// spells none, and the message for that line where there is one.
pub struct LoadOutcome {
    pub rules: Seq<RuleView>,
    pub error: Option<Seq<char>>,
}

/// What loading the first `count` lines gives. Lines are read in order, and
/// reading stops at the first line that spells no rule.
pub open spec fn load_lines(lines: Seq<Seq<char>>, count: int) -> LoadOutcome
    decreases count,
{
    if count <= 0 {
        LoadOutcome { rules: Seq::empty(), error: None }
    } else {
        let before = load_lines(lines, count - 1);
        let line = trim(lines[count - 1]);
        if before.error is Some || is_skipped_line(line) {
            before
        } else {
            match spec_parse_rule_line(line) {
                Ok(rule) => LoadOutcome { rules: before.rules.push(rule), error: None },
                Err(m) => LoadOutcome {
                    rules: before.rules,
                    error: Some(located_fault(count as nat, line, m)),
                },
            }
        }
    }
}

/// What loading a configuration text gives. The text holds one rule per
/// line.
pub open spec fn load_config(text: Seq<char>) -> LoadOutcome {
    let lines = split(text, '\n');
    load_lines(lines, lines.len() as int)
}

/// Once a line has been refused, later lines change nothing.
pub proof fn lemma_load_stops(lines: Seq<Seq<char>>, at: int, count: int)
    requires
        0 <= at <= count,
        load_lines(lines, at).error is Some,
    ensures
        load_lines(lines, count) == load_lines(lines, at),
    decreases count - at,
{
    if at < count {
        lemma_load_stops(lines, at, count - 1);
    }
}

/// The text `prefix` followed by the characters `tail`.
fn message_with(prefix: &str, tail: &[char]) -> (s: String)
    ensures
        s@ == prefix@ + tail@,
{
    let mut s = String::from_str(prefix);
    let mut i: usize = 0;
    while i < tail.len()
        invariant
            i <= tail.len(),
            s@ == prefix@ + tail@.take(i as int),
        decreases tail.len() - i,
    {
        s.push(tail[i]);
        assert(tail@.take(i + 1) =~= tail@.take(i as int).push(tail@[i as int]));
        assert(prefix@ + tail@.take(i + 1) =~= (prefix@ + tail@.take(i as int)).push(
            tail@[i as int],
        ));
        i += 1;
    }
    assert(tail@.take(tail.len() as int) =~= tail@);
    s
}

/// Whether `word` is the keyword `keyword`, without regard to the case of
/// ASCII letters.
fn is_keyword(word: &[char], keyword: &str) -> (r: bool)
    ensures
        r == eq_ignore_case(word@, keyword@),
{
    let k = to_chars(keyword);
    chars_eq_ignore_case(word, k.as_slice())
}

/// Reads `address/prefix`.
fn parse_cidr(value: &[char]) -> (r: Result<RuleType, String>)
    ensures
        r matches Ok(t) ==> spec_parse_cidr(value@) == Ok::<RuleTypeView, Seq<char>>(t@),
        r matches Ok(t) ==> t matches RuleType::IpCidr(_, prefix_len) && prefix_len <= 32,
        r matches Err(m) ==> spec_parse_cidr(value@) == Err::<RuleTypeView, Seq<char>>(m@),
{
    let halves = split_chars(value, '/');
    if halves.len() != 2 {
        return Err(message_with("Invalid CIDR format: ", value));
    }
    assert(views(halves@)[0] == halves@[0]@);
    assert(views(halves@)[1] == halves@[1]@);
    let ip = match Ipv4Addr::parse(halves[0].as_slice()) {
        Some(ip) => ip,
        None => {
            return Err(String::from_str("Invalid IP: invalid IPv4 address syntax"));
        },
    };
    match parse_unsigned_chars(halves[1].as_slice(), 32) {
        Ok(p) => Ok(RuleType::IpCidr(ip, p as u8)),
        Err(f) => Err(String::from_str("Invalid prefix length: ").concat(f.message())),
    }
}

/// Reads a port number.
fn parse_port(value: &[char]) -> (r: Result<u16, String>)
    ensures
        r matches Ok(p) ==> spec_parse_port(value@) == Ok::<u16, Seq<char>>(p),
        r matches Err(m) ==> spec_parse_port(value@) == Err::<u16, Seq<char>>(m@),
{
    match parse_unsigned_chars(value, 65535) {
        Ok(p) => Ok(p as u16),
        Err(f) => Err(String::from_str("Invalid port: ").concat(f.message())),
    }
}

/// The fields of a rule line.
fn split_fields(line: &[char]) -> (fields: Vec<Vec<char>>)
    ensures
        views(fields@) == rule_fields(line@),
        fields.len() >= 1,
{
    let parts = split_chars(line, ',');
    let mut fields: Vec<Vec<char>> = Vec::new();
    let mut i: usize = 0;
    while i < parts.len()
        invariant
            i <= parts.len(),
            views(parts@) == split(line@, ','),
            fields.len() == i,
            forall|k: int| 0 <= k < i ==> fields@[k]@ == trim(parts@[k]@),
        decreases parts.len() - i,
    {
        let field = trim_chars(parts[i].as_slice());
        fields.push(field);
        i += 1;
    }
    proof {
        assert forall|k: int| 0 <= k < fields.len() implies views(fields@)[k] == rule_fields(
            line@,
        )[k] by {
            assert(views(parts@)[k] == parts@[k]@);
        }
        assert(views(fields@) =~= rule_fields(line@));
    }
    fields
}

/// The engine's state as plain values: the rules in order, and the default
/// action.
pub struct RuleEngineView {
    pub rules: Seq<RuleView>,
    pub default_action: RouteAction,
}

/// An ordered list of rules with a default action for the connections that
/// no rule matches.
pub struct RuleEngine {
    rules: Vec<Rule>,
    default_action: RouteAction,
}

impl View for RuleEngine {
    type V = RuleEngineView;

    closed spec fn view(&self) -> RuleEngineView {
        RuleEngineView { rules: rule_views(self.rules@), default_action: self.default_action }
    }
}

impl RuleEngine {
    /// An engine without rules that routes directly by default.
    pub fn new() -> (engine: RuleEngine)
        ensures
            engine@.rules == Seq::<RuleView>::empty(),
            engine@.default_action == RouteAction::Direct,
    {
        let engine = RuleEngine { rules: Vec::new(), default_action: RouteAction::Direct };
        assert(engine@.rules =~= Seq::<RuleView>::empty());
        engine
    }

    /// An engine without rules and with the given default.
    pub fn with_default(default_action: RouteAction) -> (engine: RuleEngine)
        ensures
            engine@.rules == Seq::<RuleView>::empty(),
            engine@.default_action == default_action,
    {
        let engine = RuleEngine { rules: Vec::new(), default_action };
        assert(engine@.rules =~= Seq::<RuleView>::empty());
        engine
    }

    /// Appends a rule.
    pub fn add_rule(&mut self, rule: Rule)
        ensures
            final(self)@.rules == old(self)@.rules.push(rule@),
            final(self)@.default_action == old(self)@.default_action,
    {
        self.rules.push(rule);
        assert(self@.rules =~= old(self)@.rules.push(rule@));
    }

    /// Appends rules, in their order.
    pub fn add_rules(&mut self, rules: Vec<Rule>)
        ensures
            final(self)@.rules == old(self)@.rules + rule_views(rules@),
            final(self)@.default_action == old(self)@.default_action,
    {
        let mut rules = rules;
        let ghost added = rules@;
        self.rules.append(&mut rules);
        assert(self@.rules =~= old(self)@.rules + rule_views(added));
    }

    /// Removes every rule. The default stays.
    pub fn clear(&mut self)
        ensures
            final(self)@.rules == Seq::<RuleView>::empty(),
            final(self)@.default_action == old(self)@.default_action,
    {
        self.rules.clear();
        assert(self@.rules =~= Seq::<RuleView>::empty());
    }

    /// The number of rules.
    pub fn len(&self) -> (n: usize)
        ensures
            n == self@.rules.len(),
    {
        self.rules.len()
    }

    pub fn is_empty(&self) -> (r: bool)
        ensures
            r == (self@.rules.len() == 0),
    {
        self.rules.len() == 0
    }

    /// The rules, in order.
    pub fn rules(&self) -> (rules: &[Rule])
        ensures
            rule_views(rules@) == self@.rules,
    {
        self.rules.as_slice()
    }

    /// The action for a connection: that of the first rule, in the order in
    /// which the rules were added, whose predicate holds; the default where
    /// none holds. The engine is not changed.
    pub fn evaluate(&self, domain: Option<&str>, ip: Option<IpAddr>, dst_port: u16, src_port: u16) -> (action:
        RouteAction)
        ensures
            action == spec_evaluate(
                self@.rules,
                self@.default_action,
                query_of(domain, ip, dst_port, src_port),
            ),
            is_first_match_action(
                self@.rules,
                self@.default_action,
                query_of(domain, ip, dst_port, src_port),
                action,
            ),
    {
        let ghost q = query_of(domain, ip, dst_port, src_port);
        proof {
            lemma_evaluate_first_match(self@.rules, self@.default_action, q);
        }
        let mut i: usize = 0;
        while i < self.rules.len()
            invariant
                i <= self.rules.len(),
                q == query_of(domain, ip, dst_port, src_port),
                is_first_match_action(
                    self@.rules,
                    self@.default_action,
                    q,
                    spec_evaluate(self@.rules, self@.default_action, q),
                ),
                spec_evaluate(self@.rules, self@.default_action, q) == evaluate_from(
                    self@.rules,
                    self@.default_action,
                    q,
                    i as int,
                ),
            decreases self.rules.len() - i,
        {
            assert(self@.rules[i as int] == self.rules@[i as int]@);
            if self.rules[i].matches(domain, ip, dst_port, src_port) {
                return self.rules[i].action;
            }
            i += 1;
        }
        self.default_action
    }

    /// Reads the action that a word names.
    pub fn parse_action(s: &[char]) -> (r: Result<RouteAction, String>)
        ensures
            r matches Ok(a) ==> spec_parse_action(s@) == Ok::<RouteAction, Seq<char>>(a),
            r matches Err(m) ==> spec_parse_action(s@) == Err::<RouteAction, Seq<char>>(m@),
    {
        if is_keyword(s, "DIRECT") {
            Ok(RouteAction::Direct)
        } else if is_keyword(s, "PROXY") {
            Ok(RouteAction::Proxy)
        } else if is_keyword(s, "REJECT") {
            Ok(RouteAction::Reject)
        } else {
            Err(message_with("Unknown action: ", s))
        }
    }

    /// Reads the predicate that the fields of a rule line spell.
    fn parse_rule_type(fields: &Vec<Vec<char>>) -> (r: Result<RuleType, String>)
        requires
            fields.len() >= 2,
        ensures
            r matches Ok(t) ==> spec_parse_rule_type(views(fields@)) == Ok::<
                RuleTypeView,
                Seq<char>,
            >(t@),
            r matches Err(m) ==> spec_parse_rule_type(views(fields@)) == Err::<
                RuleTypeView,
                Seq<char>,
            >(m@),
    {
        let kind = fields[0].as_slice();
        assert(views(fields@)[0] == fields@[0]@);
        assert(views(fields@)[1] == fields@[1]@);
        if is_keyword(kind, "DOMAIN") {
            if fields.len() < 3 {
                return Err(String::from_str("DOMAIN rule requires a domain"));
            }
            Ok(RuleType::Domain(to_string(fields[1].as_slice())))
        } else if is_keyword(kind, "DOMAIN-SUFFIX") {
            if fields.len() < 3 {
                return Err(String::from_str("DOMAIN-SUFFIX rule requires a suffix"));
            }
            Ok(RuleType::DomainSuffix(to_string(fields[1].as_slice())))
        } else if is_keyword(kind, "DOMAIN-KEYWORD") {
            if fields.len() < 3 {
                return Err(String::from_str("DOMAIN-KEYWORD rule requires a keyword"));
            }
            Ok(RuleType::DomainKeyword(to_string(fields[1].as_slice())))
        } else if is_keyword(kind, "IP-CIDR") || is_keyword(kind, "IP-CIDR6") {
            if fields.len() < 3 {
                return Err(String::from_str("IP-CIDR rule requires a CIDR"));
            }
            parse_cidr(fields[1].as_slice())
        } else if is_keyword(kind, "DST-PORT") {
            if fields.len() < 3 {
                return Err(String::from_str("DST-PORT rule requires a port"));
            }
            match parse_port(fields[1].as_slice()) {
                Ok(p) => Ok(RuleType::DstPort(p)),
                Err(m) => Err(m),
            }
        } else if is_keyword(kind, "SRC-PORT") {
            if fields.len() < 3 {
                return Err(String::from_str("SRC-PORT rule requires a port"));
            }
            match parse_port(fields[1].as_slice()) {
                Ok(p) => Ok(RuleType::SrcPort(p)),
                Err(m) => Err(m),
            }
        } else if is_keyword(kind, "FINAL") {
            Ok(RuleType::Final)
        } else {
            let shown = upper_chars(kind);
            Err(message_with("Unknown rule type: ", shown.as_slice()))
        }
    }

    /// Reads one rule line: `TYPE, VALUE, ACTION`, or `FINAL, ACTION`.
    pub fn parse_rule_line(line: &[char]) -> (r: Result<Rule, String>)
        ensures
            r matches Ok(rule) ==> spec_parse_rule_line(line@) == Ok::<RuleView, Seq<char>>(rule@),
            r matches Err(m) ==> spec_parse_rule_line(line@) == Err::<RuleView, Seq<char>>(m@),
    {
        let fields = split_fields(line);
        if fields.len() < 2 {
            return Err(message_with("Invalid rule format: ", line));
        }
        assert(views(fields@).last() == fields@[fields.len() - 1]@);
        let action = match Self::parse_action(fields[fields.len() - 1].as_slice()) {
            Ok(a) => a,
            Err(m) => {
                return Err(m);
            },
        };
        match Self::parse_rule_type(&fields) {
            Ok(rule_type) => Ok(Rule::new(rule_type, action)),
            Err(m) => Err(m),
        }
    }

    /// Loads rules from a configuration text with one rule per line. Empty
    /// lines and comment lines are passed over. The rules are appended, in
    /// the order of their lines, to those that the engine holds.
    ///
    /// Returns the number of rules added. Loading stops at the first line
    /// that spells no rule: the message returned names the line by its
    /// number, quotes it, and says what is wrong with it; the rules of the
    /// lines before it stay added.
    pub fn load_from_config(&mut self, config: &str) -> (r: Result<usize, String>)
        ensures
            final(self)@.rules == old(self)@.rules + load_config(config@).rules,
            final(self)@.default_action == old(self)@.default_action,
            r matches Ok(n) ==> load_config(config@).error is None && n == load_config(
                config@,
            ).rules.len(),
            r matches Err(m) ==> load_config(config@).error == Some(m@),
    {
        let text = to_chars(config);
        let lines = split_chars(text.as_slice(), '\n');
        let ghost all = split(config@, '\n');
        let mut count: usize = 0;
        let mut i: usize = 0;
        assert(self@.rules + load_lines(all, 0).rules =~= self@.rules);
        while i < lines.len()
            invariant
                i <= lines.len(),
                all == split(config@, '\n'),
                views(lines@) == all,
                load_lines(all, i as int).error is None,
                count == load_lines(all, i as int).rules.len(),
                count <= i,
                self@.rules == old(self)@.rules + load_lines(all, i as int).rules,
                self@.default_action == old(self)@.default_action,
            decreases lines.len() - i,
        {
            assert(views(lines@)[i as int] == lines@[i as int]@);
            let line = trim_chars(lines[i].as_slice());
            let skipped = line.len() == 0 || line[0] == '#' || (line.len() >= 2 && line[0] == '/'
                && line[1] == '/');
            if !skipped {
                match Self::parse_rule_line(line.as_slice()) {
                    Ok(rule) => {
                        let ghost before = self@.rules;
                        self.rules.push(rule);
                        count += 1;
                        proof {
                            assert(self@.rules =~= before.push(rule@));
                            assert(self@.rules =~= old(self)@.rules + load_lines(
                                all,
                                i + 1,
                            ).rules);
                        }
                    },
                    Err(m) => {
                        proof {
                            lemma_load_stops(all, i + 1, all.len() as int);
                        }
                        let number = decimal_chars(i + 1);
                        let mut located = message_with("line ", number.as_slice());
                        located.append(" (");
                        append_chars(&mut located, line.as_slice());
                        located.append("): ");
                        located.append(m.as_str());
                        return Err(located);
                    },
                }
            }
            i += 1;
        }
        Ok(count)
    }
}

impl Default for RuleEngine {
    fn default() -> (engine: RuleEngine)
        ensures
            engine@.rules == Seq::<RuleView>::empty(),
            engine@.default_action == RouteAction::Direct,
    {
        RuleEngine::new()
    }
}

/// A routing action as the numbers 0 (direct), 1 (proxy) and 2 (reject), in
/// the order of the variants.
#[derive(Debug, Clone, Copy, PartialEq, Eq, Structural)]
pub enum FfiRouteAction {
    Direct,
    Proxy,
    Reject,
}

impl FfiRouteAction {
    /// The number of the action.
    pub open spec fn spec_code(self) -> u8 {
        match self {
            FfiRouteAction::Direct => 0,
            FfiRouteAction::Proxy => 1,
            FfiRouteAction::Reject => 2,
        }
    }

    /// The numbered form of an action.
    pub open spec fn of(action: RouteAction) -> FfiRouteAction {
        match action {
            RouteAction::Direct => FfiRouteAction::Direct,
            RouteAction::Proxy => FfiRouteAction::Proxy,
            RouteAction::Reject => FfiRouteAction::Reject,
        }
    }

    /// The action that the numbered form stands for.
    pub open spec fn action(self) -> RouteAction {
        match self {
            FfiRouteAction::Direct => RouteAction::Direct,
            FfiRouteAction::Proxy => RouteAction::Proxy,
            FfiRouteAction::Reject => RouteAction::Reject,
        }
    }

    /// The number of the action.
    pub fn code(&self) -> (c: u8)
        ensures
            c == self.spec_code(),
    {
        match self {
            FfiRouteAction::Direct => 0,
            FfiRouteAction::Proxy => 1,
            FfiRouteAction::Reject => 2,
        }
    }
}

impl From<RouteAction> for FfiRouteAction {
    fn from(action: RouteAction) -> (r: FfiRouteAction) {
        match action {
            RouteAction::Direct => FfiRouteAction::Direct,
            RouteAction::Proxy => FfiRouteAction::Proxy,
            RouteAction::Reject => FfiRouteAction::Reject,
        }
    }
}

impl vstd::std_specs::convert::FromSpecImpl<RouteAction> for FfiRouteAction {
    open spec fn obeys_from_spec() -> bool {
        true
    }

    open spec fn from_spec(action: RouteAction) -> FfiRouteAction {
        FfiRouteAction::of(action)
    }
}

impl From<FfiRouteAction> for RouteAction {
    fn from(action: FfiRouteAction) -> (r: RouteAction) {
        match action {
            FfiRouteAction::Direct => RouteAction::Direct,
            FfiRouteAction::Proxy => RouteAction::Proxy,
            FfiRouteAction::Reject => RouteAction::Reject,
        }
    }
}

impl vstd::std_specs::convert::FromSpecImpl<FfiRouteAction> for RouteAction {
    open spec fn obeys_from_spec() -> bool {
        true
    }

    open spec fn from_spec(action: FfiRouteAction) -> RouteAction {
        action.action()
    }
}

} // verus!

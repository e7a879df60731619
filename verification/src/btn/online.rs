//! The BTN online rule module and the state it reads: allow list, deny
//! list and rulesets, compiled from what the BTN endpoints send.

use vstd::prelude::*;
use std::collections::HashMap;
use crate::btn::model::BtnRuleset;
use crate::domain::ban::{CheckResult, PeerAction};
use crate::domain::peer::Peer;
use crate::engine::ip_rule_list::{comment_at};
use crate::ip::{IpAddress, Network, ip_text, ip_to_string, network_or_host};
use crate::ip_table::is_longest_match;
use crate::rules::ip_matcher::{IpMatcher, covered};
use crate::rules::matcher::{MatchOutcome, Matcher, RuleSet, StringRule, match_spec, MatcherSpec};
use crate::text::{
    chars_of, copy_range, decimal, deep_chars, push_decimal, push_str, split_chars, split_on,
    string_from_chars, trim_chars, trim_spec,
};
use crate::domain::ban::copy_string;

verus! {

broadcast use vstd::std_specs::hash::group_hash_axioms;

/// The health of the BTN connection, for display.
#[derive(Debug, Clone, Default)]
pub struct BtnStatus {
    pub config_ok: bool,
    pub config_at_ms: i64,
    pub ability_count: usize,
    pub last_error: Option<String>,
    pub last_error_at_ms: i64,
    pub heartbeat_ip: Option<String>,
    pub heartbeat_at_ms: i64,
    pub denylist_entries: usize,
    pub allowlist_entries: usize,
    pub rule_groups: usize,
}

/// The compiled BTN data that the module matches peers against.
pub struct BtnState {
    pub allowlist: IpMatcher<()>,
    pub denylist: IpMatcher<()>,
    /// (category, ruleset) for peer ids.
    pub peer_id_rules: Vec<(String, RuleSet)>,
    /// (category, ruleset) for client names.
    pub client_name_rules: Vec<(String, RuleSet)>,
    /// Networks mapped to their category.
    pub ip_rules: IpMatcher<String>,
    /// Ports mapped to their category.
    pub port_rules: HashMap<u16, String>,
    pub status: BtnStatus,
}

impl BtnState {
    /// An empty state.
    pub fn new() -> (r: BtnState)
        ensures
            r.allowlist@ == Map::<Network, ()>::empty(),
            r.denylist@ == Map::<Network, ()>::empty(),
            r.peer_id_rules@.len() == 0,
            r.client_name_rules@.len() == 0,
            r.ip_rules@ == Map::<Network, String>::empty(),
            r.port_rules@ == Map::<u16, String>::empty(),
    {
        BtnState {
            allowlist: IpMatcher::new(),
            denylist: IpMatcher::new(),
            peer_id_rules: Vec::new(),
            client_name_rules: Vec::new(),
            ip_rules: IpMatcher::new(),
            port_rules: HashMap::new(),
            status: BtnStatus {
                config_ok: false,
                config_at_ms: 0,
                ability_count: 0,
                last_error: None,
                last_error_at_ms: 0,
                heartbeat_ip: None,
                heartbeat_at_ms: 0,
                denylist_entries: 0,
                allowlist_entries: 0,
                rule_groups: 0,
            },
        }
    }
}

/// The first category (in order) whose ruleset matches `input`.
pub open spec fn first_rule_match(rules: Seq<(String, RuleSet)>, input: Seq<char>) -> Option<int> {
    if exists|i: int| 0 <= i < rules.len() && match_spec((#[trigger] rules[i]).1.rules@, input) == MatchOutcome::True {
        Some(choose|i: int| 0 <= i < rules.len() && match_spec((#[trigger] rules[i]).1.rules@, input)
            == MatchOutcome::True && forall|k: int| 0 <= k < i ==> match_spec((#[trigger] rules[k]).1.rules@,
            input) != MatchOutcome::True)
    } else {
        None
    }
}

/// The category of the first matching ruleset of an optional field.
pub open spec fn field_match(rules: Seq<(String, RuleSet)>, field: Option<String>) -> Option<int> {
    match field {
        Some(v) => first_rule_match(rules, v@),
        None => None,
    }
}

/// `r` is a BTN ban with the given rule and reason.
pub open spec fn btn_ban(r: CheckResult, dur: i64, rule: Seq<char>, reason: Seq<char>) -> bool {
    &&& r.module == "BtnNetworkOnline"
    &&& r.action == PeerAction::Ban
    &&& r.duration_ms == dur
    &&& r.rule@ == rule
    &&& r.reason@ == reason
}

/// The BTN online module.
pub struct BtnNetworkOnline {
    pub ban_duration: i64,
}

impl BtnNetworkOnline {
    /// A module with the given ban duration.
    pub fn new(ban_duration: i64) -> (r: BtnNetworkOnline)
        ensures
            r.ban_duration == ban_duration,
    {
        BtnNetworkOnline { ban_duration }
    }

    /// The module's name.
    pub fn name(&self) -> (r: &'static str)
        ensures
            r == "BtnNetworkOnline",
    {
        "BtnNetworkOnline"
    }

    /// The module's key in the profile.
    pub fn config_name(&self) -> (r: &'static str)
        ensures
            r == "btn",
    {
        "btn"
    }

    /// A ban with the given rule and reason.
    fn ban(&self, rule: Vec<char>, reason: Vec<char>) -> (r: CheckResult)
        ensures
            btn_ban(r, self.ban_duration, rule@, reason@),
    {
        CheckResult {
            module: "BtnNetworkOnline",
            action: PeerAction::Ban,
            duration_ms: self.ban_duration,
            rule: string_from_chars(&rule),
            reason: string_from_chars(&reason),
        }
    }

    /// The first matching category of `rules` for `input`.
    fn first_match(rules: &Vec<(String, RuleSet)>, input: &str) -> (r: Option<usize>)
        ensures
            match r {
                Some(i) => first_rule_match(rules@, input@) == Some(i as int) && i < rules@.len(),
                None => first_rule_match(rules@, input@) is None,
            },
    {
        let mut i: usize = 0;
        while i < rules.len()
            invariant
                i <= rules@.len(),
                forall|k: int| 0 <= k < i ==> match_spec((#[trigger] rules@[k]).1.rules@, input@)
                    != MatchOutcome::True,
            decreases rules@.len() - i,
        {
            if rules[i].1.match_input(input) == MatchOutcome::True {
                let ghost j = i as int;
                proof {
                    assert(match_spec(rules@[j].1.rules@, input@) == MatchOutcome::True);
                    let c = first_rule_match(rules@, input@)->0;
                    assert(first_rule_match(rules@, input@) is Some);
                    assert(c == j) by {
                        if c < j {
                            assert(match_spec(rules@[c].1.rules@, input@) != MatchOutcome::True);
                        } else if c > j {
                            assert(match_spec(rules@[j].1.rules@, input@) != MatchOutcome::True);
                        }
                    }
                }
                return Some(i);
            }
            i += 1;
        }
        None
    }

    /// Checks one peer against the BTN state: the allow list lets it through
    /// (`Skip`, overriding every module); then the deny list, the peer-id and
    /// client-name rulesets (first matching category), the network rules
    /// (most specific network) and the port rules ban it.
    pub fn should_ban(&self, state: &BtnState, peer: &Peer) -> (r: CheckResult)
        ensures
            ({
                let ip = peer.address.ip;
                let port = peer.address.port;
                let dur = self.ban_duration;
                if covered(state.allowlist@.dom(), ip) {
                    &&& r.module == "BtnNetworkOnline"
                    &&& r.action == PeerAction::Skip
                    &&& r.duration_ms == 0
                    &&& r.rule@ == "btn:allowlist"@
                    &&& r.reason@ == "BTN 白名单放行"@
                } else if covered(state.denylist@.dom(), ip) {
                    btn_ban(r, dur, "btn:denylist"@, "IP "@ + ip_text(ip) + " 命中 BTN 黑名单"@)
                } else if field_match(state.peer_id_rules@, peer.peer_id) is Some {
                    let cat = state.peer_id_rules@[field_match(state.peer_id_rules@, peer.peer_id)->0].0@;
                    btn_ban(r, dur, "btn:peer_id:"@ + cat, "PeerID 命中 BTN 规则 "@ + cat)
                } else if field_match(state.client_name_rules@, peer.client_name) is Some {
                    let cat = state.client_name_rules@[field_match(state.client_name_rules@,
                        peer.client_name)->0].0@;
                    btn_ban(r, dur, "btn:client_name:"@ + cat, "客户端名命中 BTN 规则 "@ + cat)
                } else if covered(state.ip_rules@.dom(), ip) {
                    exists|n: Network| is_longest_match(state.ip_rules@.dom(), ip, n)
                        && btn_ban(r, dur, "btn:ip:"@ + (#[trigger] state.ip_rules@[n])@,
                        "IP "@ + ip_text(ip) + " 命中 BTN 规则 "@ + state.ip_rules@[n]@)
                } else if state.port_rules@.contains_key(port) {
                    btn_ban(r, dur, "btn:port:"@ + state.port_rules@[port]@, "端口 "@ + decimal(
                        port as nat) + " 命中 BTN 规则 "@ + state.port_rules@[port]@)
                } else {
                    r.module == "BtnNetworkOnline" && r.action == PeerAction::NoAction && r.duration_ms == 0
                }
            }),
    {
        let ip = peer.address.ip;
        if state.allowlist.contains(ip) {
            return CheckResult {
                module: "BtnNetworkOnline",
                action: PeerAction::Skip,
                duration_ms: 0,
                rule: "btn:allowlist".to_string(),
                reason: "BTN 白名单放行".to_string(),
            };
        }
        if state.denylist.contains(ip) {
            let mut reason: Vec<char> = Vec::new();
            push_str(&mut reason, "IP ");
            push_str(&mut reason, ip_to_string(ip).as_str());
            push_str(&mut reason, " 命中 BTN 黑名单");
            return self.ban(chars_of("btn:denylist"), reason);
        }
        if let Some(pid) = &peer.peer_id {
            if let Some(i) = Self::first_match(&state.peer_id_rules, pid.as_str()) {
                let cat = state.peer_id_rules[i].0.as_str();
                let mut rule: Vec<char> = Vec::new();
                push_str(&mut rule, "btn:peer_id:");
                push_str(&mut rule, cat);
                let mut reason: Vec<char> = Vec::new();
                push_str(&mut reason, "PeerID 命中 BTN 规则 ");
                push_str(&mut reason, cat);
                return self.ban(rule, reason);
            }
        }
        if let Some(name) = &peer.client_name {
            if let Some(i) = Self::first_match(&state.client_name_rules, name.as_str()) {
                let cat = state.client_name_rules[i].0.as_str();
                let mut rule: Vec<char> = Vec::new();
                push_str(&mut rule, "btn:client_name:");
                push_str(&mut rule, cat);
                let mut reason: Vec<char> = Vec::new();
                push_str(&mut reason, "客户端名命中 BTN 规则 ");
                push_str(&mut reason, cat);
                return self.ban(rule, reason);
            }
        }
        if let Some(cat) = state.ip_rules.longest_match(ip) {
            let mut rule: Vec<char> = Vec::new();
            push_str(&mut rule, "btn:ip:");
            push_str(&mut rule, cat.as_str());
            let mut reason: Vec<char> = Vec::new();
            push_str(&mut reason, "IP ");
            push_str(&mut reason, ip_to_string(ip).as_str());
            push_str(&mut reason, " 命中 BTN 规则 ");
            push_str(&mut reason, cat.as_str());
            return self.ban(rule, reason);
        }
        let port = peer.address.port;
        if let Some(cat) = state.port_rules.get(&port) {
            let mut rule: Vec<char> = Vec::new();
            push_str(&mut rule, "btn:port:");
            push_str(&mut rule, cat.as_str());
            let mut reason: Vec<char> = Vec::new();
            push_str(&mut reason, "端口 ");
            push_decimal(&mut reason, port as u64);
            push_str(&mut reason, " 命中 BTN 规则 ");
            push_str(&mut reason, cat.as_str());
            return self.ban(rule, reason);
        }
        CheckResult::pass("BtnNetworkOnline")
    }
}

/// `set` holds one rule per pattern, each a case-insensitive "contains"
/// whose hit means "match".
pub open spec fn contains_rules(set: RuleSet, pats: Seq<String>) -> bool {
    &&& set.rules@.len() == pats.len()
    &&& forall|j: int| 0 <= j < pats.len() ==> (#[trigger] set.rules@[j]).matcher.spec_of()
        == MatcherSpec::Contains(pats[j]@) && set.rules@[j].hit_is_true
}

/// The categories of a ruleset compiled: same names, same order.
pub open spec fn compiled(rules: Seq<(String, RuleSet)>, src: Seq<(String, Vec<String>)>) -> bool {
    &&& rules.len() == src.len()
    &&& forall|i: int| 0 <= i < src.len() ==> (#[trigger] rules[i]).0@ == src[i].0@ && contains_rules(rules[i].1, src[i].1@)
}

/// The network rules after adding the patterns `cidrs` of category `cat`
/// (later entries replace earlier ones of the same network).
pub open spec fn add_cidrs(m: Map<Network, String>, cat: String, cidrs: Seq<String>) -> Map<Network, String>
    decreases cidrs.len(),
{
    if cidrs.len() == 0 {
        m
    } else {
        let prev = add_cidrs(m, cat, cidrs.drop_last());
        match network_or_host(cidrs.last()@) {
            Some(n) => prev.insert(n, cat),
            None => prev,
        }
    }
}

/// The network rules of all categories, in order.
pub open spec fn ip_rules_map(entries: Seq<(String, Vec<String>)>) -> Map<Network, String>
    decreases entries.len(),
{
    if entries.len() == 0 {
        Map::empty()
    } else {
        add_cidrs(ip_rules_map(entries.drop_last()), entries.last().0, entries.last().1@)
    }
}

/// The port rules after adding the ports of category `cat` (ports above
/// 65535 are skipped; later entries replace earlier ones).
pub open spec fn add_ports(m: Map<u16, String>, cat: String, ports: Seq<u32>) -> Map<u16, String>
    decreases ports.len(),
{
    if ports.len() == 0 {
        m
    } else {
        let prev = add_ports(m, cat, ports.drop_last());
        if ports.last() <= 65535 {
            prev.insert(ports.last() as u16, cat)
        } else {
            prev
        }
    }
}

/// The port rules of all categories, in order.
pub open spec fn port_rules_map(entries: Seq<(String, Vec<u32>)>) -> Map<u16, String>
    decreases entries.len(),
{
    if entries.len() == 0 {
        Map::empty()
    } else {
        add_ports(port_rules_map(entries.drop_last()), entries.last().0, entries.last().1@)
    }
}

/// A ruleset of "contains" rules, one per pattern.
fn contains_ruleset(pats: &Vec<String>) -> (r: RuleSet)
    ensures
        contains_rules(r, pats@),
{
    let mut rules: Vec<StringRule> = Vec::new();
    let mut i: usize = 0;
    while i < pats.len()
        invariant
            i <= pats@.len(),
            rules@.len() == i,
            forall|j: int| 0 <= j < i ==> (#[trigger] rules@[j]).matcher.spec_of()
                == MatcherSpec::Contains(pats@[j]@) && rules@[j].hit_is_true,
        decreases pats@.len() - i,
    {
        rules.push(StringRule::new(Matcher::Contains(copy_string(&pats[i]))));
        i += 1;
    }
    RuleSet::new(rules)
}

/// Compiles the categories of one kind of rule.
fn compile_categories(src: &Vec<(String, Vec<String>)>) -> (r: Vec<(String, RuleSet)>)
    ensures
        compiled(r@, src@),
{
    let mut out: Vec<(String, RuleSet)> = Vec::new();
    let mut i: usize = 0;
    while i < src.len()
        invariant
            i <= src@.len(),
            out@.len() == i,
            forall|k: int| 0 <= k < i ==> (#[trigger] out@[k]).0@ == src@[k].0@ && contains_rules(out@[k].1, src@[k].1@),
        decreases src@.len() - i,
    {
        let set = contains_ruleset(&src[i].1);
        out.push((copy_string(&src[i].0), set));
        i += 1;
    }
    out
}

/// Applies a fetched ruleset to the state: the peer-id and client-name
/// categories become "contains" rulesets, the networks and ports are mapped
/// to their categories. The allow and deny lists stay as they are.
pub fn apply_ruleset(state: &mut BtnState, rs: &BtnRuleset)
    ensures
        compiled(final(state).peer_id_rules@, rs.peer_id@),
        compiled(final(state).client_name_rules@, rs.client_name@),
        final(state).ip_rules@ == ip_rules_map(rs.ip@),
        final(state).port_rules@ == port_rules_map(rs.port@),
        final(state).allowlist@ == old(state).allowlist@,
        final(state).denylist@ == old(state).denylist@,
{
    let peer_id_rules = compile_categories(&rs.peer_id);
    let client_name_rules = compile_categories(&rs.client_name);
    let mut ip_rules: IpMatcher<String> = IpMatcher::new();
    let mut i: usize = 0;
    while i < rs.ip.len()
        invariant
            i <= rs.ip@.len(),
            ip_rules@ == ip_rules_map(rs.ip@.subrange(0, i as int)),
        decreases rs.ip@.len() - i,
    {
        let ghost pre = rs.ip@.subrange(0, i as int);
        let ghost post = rs.ip@.subrange(0, i as int + 1);
        assert(post.drop_last() =~= pre);
        let cat = &rs.ip[i].0;
        let cidrs = &rs.ip[i].1;
        let ghost base = ip_rules@;
        let mut j: usize = 0;
        while j < cidrs.len()
            invariant
                j <= cidrs@.len(),
                ip_rules@ == add_cidrs(base, *cat, cidrs@.subrange(0, j as int)),
            decreases cidrs@.len() - j,
        {
            assert(cidrs@.subrange(0, j as int + 1).drop_last() =~= cidrs@.subrange(0, j as int));
            ip_rules.insert(cidrs[j].as_str(), cat.clone());
            j += 1;
        }
        assert(cidrs@.subrange(0, j as int) =~= cidrs@);
        i += 1;
    }
    assert(rs.ip@.subrange(0, i as int) =~= rs.ip@);
    let mut port_rules: HashMap<u16, String> = HashMap::new();
    let mut i: usize = 0;
    while i < rs.port.len()
        invariant
            i <= rs.port@.len(),
            port_rules@ == port_rules_map(rs.port@.subrange(0, i as int)),
        decreases rs.port@.len() - i,
    {
        let ghost pre = rs.port@.subrange(0, i as int);
        let ghost post = rs.port@.subrange(0, i as int + 1);
        assert(post.drop_last() =~= pre);
        let cat = &rs.port[i].0;
        let ports = &rs.port[i].1;
        let ghost base = port_rules@;
        let mut j: usize = 0;
        while j < ports.len()
            invariant
                j <= ports@.len(),
                port_rules@ == add_ports(base, *cat, ports@.subrange(0, j as int)),
            decreases ports@.len() - j,
        {
            assert(ports@.subrange(0, j as int + 1).drop_last() =~= ports@.subrange(0, j as int));
            let p = ports[j];
            if p <= 65535 {
                port_rules.insert(p as u16, cat.clone());
            }
            j += 1;
        }
        assert(ports@.subrange(0, j as int) =~= ports@);
        i += 1;
    }
    assert(rs.port@.subrange(0, i as int) =~= rs.port@);
    state.peer_id_rules = peer_id_rules;
    state.client_name_rules = client_name_rules;
    state.ip_rules = ip_rules;
    state.port_rules = port_rules;
}

/// The address text of one line of a BTN list: the part before any `#`, trimmed.
pub open spec fn list_line_text(raw: Seq<char>) -> Seq<char> {
    trim_spec(split_on(raw, '#')[0])
}

/// A line counts when its text is not empty and has no `,` (ranges are not used).
pub open spec fn list_line_used(raw: Seq<char>) -> bool {
    let t = list_line_text(raw);
    t.len() > 0 && !t.contains(',')
}

/// The networks of a BTN address list (CIDR blocks or bare addresses, one
/// per line, `#` comments).
pub open spec fn list_networks(text: Seq<char>) -> Set<Network> {
    let lines = split_on(text, '\n');
    Set::new(|n: Network| exists|i: int|
        0 <= i < lines.len() && list_line_used(lines[i]) && #[trigger] network_or_host(list_line_text(lines[i])) == Some(n))
}

/// Reads a BTN address list into a matcher.
pub fn parse_ip_lines(text: &str) -> (r: IpMatcher<()>)
    ensures
        r@.dom() == list_networks(text@),
{
    let v = chars_of(text);
    let lines = split_chars(&v, '\n');
    let ghost ls = split_on(text@, '\n');
    let mut m: IpMatcher<()> = IpMatcher::new();
    let mut i: usize = 0;
    while i < lines.len()
        invariant
            i <= lines@.len(),
            deep_chars(lines@) == ls,
            ls == split_on(text@, '\n'),
            m@.dom() == Set::new(|n: Network| exists|k: int|
                0 <= k < i && list_line_used(ls[k]) && #[trigger] network_or_host(list_line_text(ls[k])) == Some(n)),
        decreases lines@.len() - i,
    {
        assert(deep_chars(lines@)[i as int] == lines@[i as int]@);
        let pieces = split_chars(&lines[i], '#');
        proof { crate::text::lemma_split_on_nonempty(lines@[i as int]@, '#'); }
        assert(deep_chars(pieces@)[0] == pieces@[0]@);
        let t = trim_chars(&pieces[0]);
        let ghost before = m@.dom();
        let has_comma = crate::text::has_char(&t, ',');
        if t.len() > 0 && !has_comma {
            m.insert(string_from_chars(&t).as_str(), ());
        }
        proof {
            assert(m@.dom() =~= Set::new(|n: Network| exists|k: int|
                0 <= k < i + 1 && list_line_used(ls[k]) && #[trigger] network_or_host(list_line_text(ls[k])) == Some(n))) by {
                assert forall|n: Network| m@.dom().contains(n) implies exists|k: int|
                    0 <= k < i + 1 && list_line_used(ls[k]) && #[trigger] network_or_host(list_line_text(ls[k])) == Some(n) by {
                    if !before.contains(n) {
                        assert(list_line_used(ls[i as int]) && network_or_host(list_line_text(ls[i as int])) == Some(n));
                    }
                }
                assert forall|n: Network| (exists|k: int|
                    0 <= k < i + 1 && list_line_used(ls[k]) && #[trigger] network_or_host(list_line_text(ls[k])) == Some(n))
                    implies m@.dom().contains(n) by {
                    let k = choose|k: int| 0 <= k < i + 1 && list_line_used(ls[k]) && #[trigger] network_or_host(list_line_text(ls[k])) == Some(n);
                    if k < i {
                        assert(before.contains(n));
                    }
                }
            }
        }
        i += 1;
    }
    m
}

/// Replaces the deny list with the networks of `text`.
pub fn apply_denylist(state: &mut BtnState, text: &str)
    ensures
        final(state).denylist@.dom() == list_networks(text@),
        final(state).allowlist@ == old(state).allowlist@,
{
    state.denylist = parse_ip_lines(text);
}

/// Replaces the allow list with the networks of `text`.
pub fn apply_allowlist(state: &mut BtnState, text: &str)
    ensures
        final(state).allowlist@.dom() == list_networks(text@),
        final(state).denylist@ == old(state).denylist@,
{
    state.allowlist = parse_ip_lines(text);
}

} // verus!

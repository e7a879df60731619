use pbh::engine::pcb::{
    account_upload, completed_estimate, parse_addr_key, parse_range_key, pcb_decide, pcb_result, raw_ip,
    upload_fits, PcbFacts, PcbTrack, PcbVerdict,
};
use pbh::engine::modules::PcbParams;
use std::collections::HashSet;

use pbh::domain::ban::{BanMetadata, CheckResult, PeerAction};
use pbh::domain::peer::{Peer, PeerAddress};
use pbh::engine::auto_range_ban::AutoRangeBan;
use pbh::engine::ban_list::BanList;
use pbh::engine::ban_manager::{
    fold_result, login_backoff_ms, login_gate_ready, manual_ban, manual_unban, next_login_gate, record_ban,
    should_check, LoginGate, LoginResult,
};
use pbh::engine::ip_blacklist::IpBlackList;
use pbh::engine::ip_rule_list::{
    build_sub_matcher, parse_rule_list, refresh_one, strip_inline_comment, IpBlackRuleList, SubConfig, SubMatcher,
};
use pbh::engine::nat_address::{IdentityNatProvider, NatAddressProvider};
use pbh::engine::ptr::{ptr_name, PtrBlacklist};
use pbh::engine::wave::{wave_step, WaveAction, WaveEvent, WaveState};
use pbh::geoip::IpGeoData;
use pbh::ip::parse_ip;
use pbh::rules::ip_matcher::IpMatcher;
use pbh::rules::matcher::{Matcher, RuleSet, StringRule};

fn meta(unban_at: i64, for_disconnect: bool) -> BanMetadata {
    BanMetadata {
        context: "test".into(),
        random_id: "id".into(),
        peer: PeerAddress::new(parse_ip("1.2.3.4").unwrap(), 6881),
        ban_at: 0,
        unban_at,
        ban_for_disconnect: for_disconnect,
        exclude_from_report: false,
        exclude_from_display: false,
        rule: String::new(),
        description: String::new(),
    }
}

fn peer(ip: &str, port: u16, speed: i64) -> Peer {
    Peer {
        address: PeerAddress::new(parse_ip(ip).unwrap(), port),
        peer_id: None,
        client_name: None,
        download_speed: speed,
        upload_speed: speed,
        downloaded: 0,
        uploaded: 0,
        flags: None,
    }
}

#[test]
fn bans_neighbor_in_same_v4_block() {
    let mut bl = BanList::new();
    bl.ban("1.2.3.4", meta(i64::MAX, false));
    let m = AutoRangeBan::new(30, 48, 1000);
    assert_eq!(m.should_ban(&bl, &peer("1.2.3.5", 6881, 1)).action, PeerAction::Ban);
    assert_eq!(m.should_ban(&bl, &peer("1.2.3.200", 6881, 1)).action, PeerAction::NoAction);
}

#[test]
fn skips_ban_for_disconnect_entries() {
    let mut bl = BanList::new();
    bl.ban("1.2.3.4", meta(i64::MAX, true));
    let m = AutoRangeBan::new(30, 48, 1000);
    assert_eq!(m.should_ban(&bl, &peer("1.2.3.5", 6881, 1)).action, PeerAction::NoAction);
}

#[test]
fn handshaking_peer_passes() {
    let mut bl = BanList::new();
    bl.ban("1.2.3.4", meta(i64::MAX, false));
    let m = AutoRangeBan::new(30, 48, 1000);
    assert_eq!(m.should_ban(&bl, &peer("1.2.3.5", 6881, 0)).action, PeerAction::NoAction);
}

#[test]
fn ban_and_lookup_single_ip() {
    let mut bl = BanList::new();
    assert!(bl.ban("1.2.3.4", meta(i64::MAX, false)));
    assert!(bl.contains(parse_ip("1.2.3.4").unwrap()));
    assert!(!bl.contains(parse_ip("1.2.3.5").unwrap()));
    assert_eq!(bl.len(), 1);
    assert!(!bl.ban("not an address", meta(i64::MAX, false)));
    assert_eq!(bl.len(), 1);
}

#[test]
fn cidr_covers_range_longest_prefix() {
    let mut bl = BanList::new();
    bl.ban("10.0.0.0/8", meta(i64::MAX, false));
    let mut narrow = meta(i64::MAX, false);
    narrow.rule = "narrow".into();
    bl.ban("10.1.2.0/24", narrow);
    assert!(bl.contains(parse_ip("10.1.2.200").unwrap()));
    assert!(bl.contains(parse_ip("10.9.9.9").unwrap()));
    assert!(!bl.contains(parse_ip("11.0.0.1").unwrap()));
    assert_eq!(bl.get(parse_ip("10.1.2.200").unwrap()).unwrap().rule, "narrow");
    assert_eq!(bl.get(parse_ip("10.9.9.9").unwrap()).unwrap().rule, "");
}

#[test]
fn remove_expired_only() {
    let mut bl = BanList::new();
    bl.ban("1.1.1.1", meta(1000, false));
    bl.ban("2.2.2.2", meta(i64::MAX, false));
    let removed = bl.remove_expired(5000);
    assert_eq!(removed.len(), 1);
    assert_eq!(removed[0].unban_at, 1000);
    assert!(!bl.contains(parse_ip("1.1.1.1").unwrap()));
    assert!(bl.contains(parse_ip("2.2.2.2").unwrap()));
    assert_eq!(bl.remove_expired(5000).len(), 0);
}

#[test]
fn unban_and_snapshot() {
    let mut bl = BanList::new();
    bl.ban("3.3.3.0/24", meta(i64::MAX, true));
    let snap = bl.snapshot();
    assert_eq!(snap.len(), 1);
    assert_eq!(snap[0].0, "3.3.3.0/24");
    assert!(snap[0].1.ban_for_disconnect);
    assert!(bl.unban("3.3.3.0/24").is_some());
    assert!(bl.is_empty());
    assert!(bl.unban("3.3.3.0/24").is_none());
}

#[test]
fn unban_undoes_ban() {
    let mut bl = BanList::new();
    bl.ban("5.5.5.5", meta(i64::MAX, false));
    bl.ban("6.6.6.0/24", meta(i64::MAX, false));
    assert_eq!(bl.len(), 2);
    bl.unban("6.6.6.0/24");
    assert_eq!(bl.len(), 1);
    assert!(bl.contains(parse_ip("5.5.5.5").unwrap()));
    assert!(!bl.contains(parse_ip("6.6.6.6").unwrap()));
}

#[test]
fn snapshot_lists_v4_before_v6() {
    let mut bl = BanList::new();
    bl.ban("2001:db8::/32", meta(i64::MAX, false));
    bl.ban("1.2.3.4", meta(i64::MAX, false));
    let snap = bl.snapshot();
    assert_eq!(snap.len(), 2);
    assert_eq!(snap[0].0, "1.2.3.4/32");
    assert_eq!(snap[1].0, "2001:db8::/32");
}

#[test]
fn backoff_escalates_and_caps() {
    assert_eq!(login_backoff_ms(1), 30_000);
    assert_eq!(login_backoff_ms(2), 120_000);
    assert_eq!(login_backoff_ms(3), 300_000);
    assert_eq!(login_backoff_ms(4), 600_000);
    assert_eq!(login_backoff_ms(5), 900_000);
    assert_eq!(login_backoff_ms(99), 900_000);
}

#[test]
fn gate_ready_logic() {
    assert!(login_gate_ready(None, 1000));
    let g = LoginGate { fails: 1, next_ms: 2000 };
    assert!(!login_gate_ready(Some(&g), 1999));
    assert!(login_gate_ready(Some(&g), 2000));
    let suspended = LoginGate { fails: 0, next_ms: i64::MAX };
    assert!(!login_gate_ready(Some(&suspended), i64::MAX - 1));
}

#[test]
fn login_gate_transitions() {
    let (g1, warn1) = next_login_gate(None, LoginResult::Failed, 1000);
    let g1 = g1.unwrap();
    assert_eq!(g1.fails, 1);
    assert_eq!(g1.next_ms, 31_000);
    assert!(!warn1);
    let (g2, _) = next_login_gate(Some(g1), LoginResult::Failed, 2000);
    assert_eq!(g2.unwrap().next_ms, 122_000);
    let (s, warn) = next_login_gate(Some(g1), LoginResult::Rejected, 3000);
    assert!(warn);
    let s = s.unwrap();
    assert!(!login_gate_ready(Some(&s), i64::MAX - 1));
    let (_, warn_again) = next_login_gate(Some(s), LoginResult::Rejected, 4000);
    assert!(!warn_again);
    let (cleared, _) = next_login_gate(Some(s), LoginResult::Accepted, 5000);
    assert!(cleared.is_none());
}

#[test]
fn fold_stops_on_skip() {
    let acc = CheckResult::pass("A");
    let ban = CheckResult { module: "B", action: PeerAction::Ban, duration_ms: 5, rule: String::new(), reason: String::new() };
    let (m, stop) = fold_result(acc, ban);
    assert_eq!(m.action, PeerAction::Ban);
    assert!(!stop);
    let skip = CheckResult { module: "C", action: PeerAction::Skip, duration_ms: 0, rule: String::new(), reason: String::new() };
    let (m2, stop2) = fold_result(m, skip);
    assert_eq!(m2.action, PeerAction::Skip);
    assert!(stop2);
}

#[test]
fn ignored_or_banned_peers_are_not_checked() {
    let mut ignore: IpMatcher<()> = IpMatcher::new();
    ignore.insert("192.168.0.0/16", ());
    let mut bl = BanList::new();
    bl.ban("1.2.3.4", meta(i64::MAX, false));
    assert!(!should_check(&ignore, &bl, parse_ip("192.168.1.1").unwrap()));
    assert!(!should_check(&ignore, &bl, parse_ip("1.2.3.4").unwrap()));
    assert!(should_check(&ignore, &bl, parse_ip("8.8.8.8").unwrap()));
}

#[test]
fn record_ban_uses_module_or_global_duration() {
    let mut bl = BanList::new();
    let mut newly: Vec<String> = Vec::new();
    let addr = PeerAddress::new(parse_ip("7.7.7.7").unwrap(), 6881);
    let r = CheckResult { module: "M", action: PeerAction::Ban, duration_ms: 0, rule: "r".into(), reason: "why".into() };
    record_ban(&mut bl, &r, &addr, 1000, 60_000, 1, &mut newly);
    assert_eq!(newly, vec!["7.7.7.7:6881".to_string()]);
    let m = bl.get(parse_ip("7.7.7.7").unwrap()).unwrap();
    assert_eq!(m.unban_at, 61_000);
    assert_eq!(m.context, "M");
    assert_eq!(m.description, "why");
    assert!(!m.ban_for_disconnect);
}

#[test]
fn record_ban_of_ipv6_peer_is_recorded() {
    let mut bl = BanList::new();
    let mut newly: Vec<String> = Vec::new();
    let addr = PeerAddress::new(parse_ip("::ffff:1.2.3.4").unwrap(), 51413);
    let r = CheckResult { module: "M", action: PeerAction::BanForDisconnect, duration_ms: 5, rule: "r".into(), reason: "x".into() };
    record_ban(&mut bl, &r, &addr, 10, 60_000, 2, &mut newly);
    assert_eq!(newly.len(), 1);
    let m = bl.get(parse_ip("::ffff:1.2.3.4").unwrap()).unwrap();
    assert_eq!(m.unban_at, 15);
    assert!(m.ban_for_disconnect);
    assert_eq!(bl.len(), 1);
}

#[test]
fn manual_ban_and_unban() {
    let mut bl = BanList::new();
    assert!(manual_ban(&mut bl, "9.9.9.9", 0, 1000, 1));
    assert!(bl.contains(parse_ip("9.9.9.9").unwrap()));
    assert_eq!(bl.get(parse_ip("9.9.9.9").unwrap()).unwrap().rule, "manual");
    assert!(!manual_ban(&mut bl, "nope", 0, 1000, 2));
    assert!(manual_unban(&mut bl, "9.9.9.9"));
    assert!(!manual_unban(&mut bl, "9.9.9.9"));
}

#[test]
fn bans_by_ip_and_port_without_geoip() {
    let m = IpBlackList::new(
        1000,
        &vec!["1.2.3.0/24".to_string()],
        HashSet::from([2003u16]),
        HashSet::new(),
        Vec::new(),
        Vec::new(),
        Vec::new(),
    );
    assert_eq!(m.should_ban(&peer("9.9.9.9", 2003, 0), None).action, PeerAction::Ban);
    assert_eq!(m.should_ban(&peer("1.2.3.55", 6881, 0), None).action, PeerAction::Ban);
    assert_eq!(m.should_ban(&peer("8.8.8.8", 6881, 0), None).action, PeerAction::NoAction);
}

#[test]
fn geoip_checks_skip_when_provider_absent() {
    let m = IpBlackList::new(1000, &vec![], HashSet::new(), HashSet::new(), vec!["CN".to_string()], Vec::new(), Vec::new());
    assert!(m.needs_geoip());
    assert_eq!(m.should_ban(&peer("1.2.3.4", 6881, 0), None).action, PeerAction::NoAction);
}

#[test]
fn region_and_asn_ban_with_geo_data() {
    let m = IpBlackList::new(1000, &vec![], HashSet::new(), HashSet::from([4134u32]), vec!["CN".to_string()], Vec::new(), Vec::new());
    let geo = IpGeoData {
        country_iso: Some("CN".into()),
        country_name: None,
        city_name: None,
        asn: None,
        as_organization: None,
        net_type: None,
        cn_province: None,
        cn_city: None,
    };
    assert_eq!(m.should_ban(&peer("1.2.3.4", 6881, 0), Some(geo.clone())).action, PeerAction::Ban);
    let asn_only = IpGeoData { country_iso: Some("US".into()), asn: Some(4134), ..geo };
    assert_eq!(m.should_ban(&peer("1.2.3.4", 6881, 0), Some(asn_only)).action, PeerAction::Ban);
}

#[test]
fn parse_plain_and_cidr_with_comments() {
    let text = "# 头部注释\n1.2.3.4\n10.0.0.0/8 # 内网\n203.0.113.0/24 // CDN\n\n// 空注释行\n";
    let out = parse_rule_list(text);
    assert_eq!(out, vec!["1.2.3.4", "10.0.0.0/8", "203.0.113.0/24"]);
}

#[test]
fn parse_emule_dat_range_to_cidr() {
    let text = "192.168.001.000 , 192.168.001.255 , 100 , Some Org\n\
                016.000.000.000 , 016.255.255.255 , 200 , Dropped (level>=128)\n";
    let out = parse_rule_list(text);
    assert_eq!(out, vec!["192.168.1.0/24"]);
}

#[test]
fn matcher_built_from_parsed() {
    let out = parse_rule_list("1.2.3.0/24\n9.9.9.9\n");
    let mut m: IpMatcher<()> = IpMatcher::new();
    let cnt = out.iter().filter(|c| m.insert(c, ())).count();
    assert_eq!(cnt, 2);
    assert!(m.contains(parse_ip("1.2.3.55").unwrap()));
    assert!(m.contains(parse_ip("9.9.9.9").unwrap()));
    assert!(!m.contains(parse_ip("8.8.8.8").unwrap()));
}

#[test]
fn emule_multi_block_range() {
    let out = parse_rule_list("1.0.0.0 , 1.0.0.3 , 50 , x\n");
    assert_eq!(out, vec!["1.0.0.0/30"]);
}

#[test]
fn emule_uneven_range_splits_into_aligned_blocks() {
    let out = parse_rule_list("1.0.0.1 , 1.0.0.6 , 0 , x\n");
    assert_eq!(out, vec!["1.0.0.1/32", "1.0.0.2/31", "1.0.0.4/31", "1.0.0.6/32"]);
    let all = parse_rule_list("0.0.0.0 , 255.255.255.255 , 0 , everything\n");
    assert_eq!(all, vec!["0.0.0.0/0"]);
}

#[test]
fn inline_comments_are_cut() {
    assert_eq!(strip_inline_comment("1.2.3.4 # x"), "1.2.3.4 ");
    assert_eq!(strip_inline_comment("1.2.3.4 // y"), "1.2.3.4 ");
    assert_eq!(strip_inline_comment("1.2.3.4"), "1.2.3.4");
}

fn sub(id: &str) -> SubConfig {
    SubConfig { rule_id: id.into(), rule_name: format!("list {id}"), url: "https://x".into(), enabled: true }
}

#[test]
fn subscription_module_bans_first_covering() {
    let (a, na) = build_sub_matcher(&sub("a"), &vec!["1.2.3.0/24".to_string(), "junk".to_string()]);
    assert_eq!(na, 1);
    let (b, _) = build_sub_matcher(&sub("b"), &vec!["1.2.0.0/16".to_string()]);
    let m = IpBlackRuleList { ban_duration: 1000, matchers: vec![a, b] };
    let r = m.should_ban(&peer("1.2.3.4", 1, 0));
    assert_eq!(r.action, PeerAction::Ban);
    assert_eq!(r.rule, "ipbl:a");
    assert_eq!(r.reason, "命中 IP 黑名单订阅「list a」");
    assert_eq!(m.should_ban(&peer("1.2.9.9", 1, 0)).rule, "ipbl:b");
    assert_eq!(m.should_ban(&peer("9.9.9.9", 1, 0)).action, PeerAction::NoAction);
}

#[test]
fn failed_refresh_keeps_old_matcher() {
    let (a, _) = build_sub_matcher(&sub("a"), &vec!["1.2.3.0/24".to_string()]);
    let mut prev: Vec<SubMatcher> = vec![a];
    let mut next: Vec<SubMatcher> = Vec::new();
    assert_eq!(refresh_one(&mut prev, &mut next, &sub("a"), None), None);
    assert_eq!(prev.len(), 0);
    assert_eq!(next.len(), 1);
    assert!(next[0].matcher.contains(parse_ip("1.2.3.4").unwrap()));
    assert_eq!(refresh_one(&mut prev, &mut next, &sub("c"), None), None);
    assert_eq!(next.len(), 1);
    let fresh = vec!["5.5.5.5".to_string()];
    assert_eq!(refresh_one(&mut prev, &mut next, &sub("d"), Some(&fresh)), Some(1));
    assert_eq!(next.len(), 2);
    assert_eq!(next[1].rule_id, "d");
}

#[test]
fn identity_nat_is_passthrough() {
    assert_eq!(IdentityNatProvider.translate("1.2.3.4:6881"), "1.2.3.4:6881");
}

fn ptr_module() -> PtrBlacklist {
    let rs = RuleSet::new(vec![
        StringRule::new(Matcher::Contains("datacenter".into())),
        StringRule::new(Matcher::EndsWith(".cn".into())),
    ]);
    PtrBlacklist::new(rs, 1000)
}

#[test]
fn judge_matches_and_passes() {
    let m = ptr_module();
    assert_eq!(m.judge(Some("host.datacenter.example")).action, PeerAction::Ban);
    assert_eq!(m.judge(Some("foo.bar.cn")).action, PeerAction::Ban);
    assert_eq!(m.judge(Some("clean.example.com")).action, PeerAction::NoAction);
    assert_eq!(m.judge(None).action, PeerAction::NoAction);
    let r = m.judge(Some("foo.bar.cn"));
    assert_eq!(r.rule, "ptr-blacklist");
    assert_eq!(r.reason, "PTR foo.bar.cn 命中黑名单");
    assert_eq!(r.duration_ms, 1000);
}

#[test]
fn first_sight_passes_and_schedules() {
    let m = ptr_module();
    let p = peer("1.2.3.4", 6881, 1);
    let (r, lookup) = m.should_ban_cached(&p, None);
    assert_eq!(r.action, PeerAction::NoAction);
    assert!(lookup);
    let (r2, lookup2) = m.should_ban_cached(&p, Some(Some("x.datacenter.net")));
    assert_eq!(r2.action, PeerAction::Ban);
    assert!(!lookup2);
    let (r3, lookup3) = m.should_ban_cached(&peer("1.2.3.4", 6881, 0), None);
    assert_eq!(r3.action, PeerAction::NoAction);
    assert!(!lookup3);
}

#[test]
fn ptr_names_lose_trailing_dots() {
    assert_eq!(ptr_name("host.example.com."), "host.example.com");
    assert_eq!(ptr_name("a.."), "a");
    assert_eq!(ptr_name("plain"), "plain");
}

#[test]
fn pcb_keys_read_back() {
    let v4 = raw_ip("1.2.3.4", 6881);
    assert_eq!(v4, "1.2.3.4:6881");
    let key = format!("abc|{v4}");
    assert_eq!(parse_addr_key(&key), Some(("1.2.3.4".to_string(), 6881, "abc".to_string())));
    let v6 = raw_ip("2001:db8::1", -5);
    assert_eq!(v6, "[2001:db8::1]:-5");
    let key6 = format!("t|{v6}");
    assert_eq!(parse_addr_key(&key6), Some(("2001:db8::1".to_string(), -5, "t".to_string())));
    assert_eq!(parse_addr_key("no-bar"), None);
    assert_eq!(parse_addr_key("t|1.2.3.4:x"), None);
    assert_eq!(parse_range_key("t|1.2.3.0/24"), Some(("1.2.3.0/24".to_string(), "t".to_string())));
}

fn pcb_params() -> PcbParams {
    PcbParams {
        minimum_size: 50_000_000,
        block_excessive: true,
        ipv4_prefix: 32,
        ipv6_prefix: 56,
        ban_duration: 2_592_000_000,
        max_wait_duration: 30_000,
        fast_pcb_test_block_duration: 15_000,
        enable_persist: true,
        persist_duration: 1_209_600_000,
    }
}

fn no_facts() -> PcbFacts {
    PcbFacts {
        fast_test_reached: false,
        over_size: false,
        over_completed: false,
        progress_behind: false,
        rewound: false,
        reported_positive: true,
    }
}

const GB: i64 = 1_000_000_000;

#[test]
fn pcb_fast_test_runs_once() {
    let p = pcb_params();
    let mut a = PcbTrack::new(0);
    let mut r = PcbTrack::new(0);
    let f = PcbFacts { fast_test_reached: true, ..no_facts() };
    assert_eq!(pcb_decide(&p, &mut a, &mut r, GB, GB, true, GB / 5, 1000, f), PcbVerdict::FastTest);
    assert_eq!(a.fast_pcb_test_execute_at, 1000);
    assert_eq!(r.fast_pcb_test_execute_at, 1000);
    assert_eq!(pcb_decide(&p, &mut a, &mut r, GB, GB, true, GB / 5, 2000, f), PcbVerdict::Pass);
    let res = pcb_result(&p, PcbVerdict::FastTest, "x".to_string());
    assert_eq!(res.action, PeerAction::BanForDisconnect);
    assert_eq!(res.duration_ms, 15_000);
    assert_eq!(res.rule, "pcb:fast-test");
}

#[test]
fn pcb_small_or_idle_torrents_pass() {
    let p = pcb_params();
    let mut a = PcbTrack::new(0);
    let mut r = PcbTrack::new(0);
    let f = PcbFacts { fast_test_reached: true, progress_behind: true, ..no_facts() };
    assert_eq!(pcb_decide(&p, &mut a, &mut r, 1000, 1000, true, 900, 1, f), PcbVerdict::Pass);
    assert_eq!(pcb_decide(&p, &mut a, &mut r, GB, GB, false, 900, 1, f), PcbVerdict::Pass);
    assert_eq!(pcb_decide(&p, &mut a, &mut r, 0, 0, true, 900, 1, f), PcbVerdict::Pass);
    assert_eq!(a, PcbTrack::new(0));
}

#[test]
fn pcb_excessive_upload_bans_and_closes_the_window() {
    let p = pcb_params();
    let mut a = PcbTrack::new(0);
    let mut r = PcbTrack::new(0);
    a.ban_delay_window_end_at = 99;
    let f = PcbFacts { over_size: true, ..no_facts() };
    assert_eq!(pcb_decide(&p, &mut a, &mut r, GB, GB, true, 2 * GB, 10, f), PcbVerdict::Excessive);
    assert_eq!(a.ban_delay_window_end_at, 0);
    let f = PcbFacts { over_completed: true, ..no_facts() };
    assert_eq!(pcb_decide(&p, &mut a, &mut r, 4 * GB, GB, true, 2 * GB, 10, f), PcbVerdict::ExcessiveIncomplete);
    // Not beyond the completed part: no ban.
    assert_eq!(pcb_decide(&p, &mut a, &mut r, 4 * GB, 3 * GB, true, 2 * GB, 10, f), PcbVerdict::Pass);
    let res = pcb_result(&p, PcbVerdict::Excessive, "too much".to_string());
    assert_eq!((res.action, res.duration_ms, res.rule.as_str()), (PeerAction::Ban, 2_592_000_000, "pcb:excessive"));
}

#[test]
fn pcb_difference_waits_out_the_window() {
    let p = pcb_params();
    let mut a = PcbTrack::new(0);
    let mut r = PcbTrack::new(0);
    let f = PcbFacts { progress_behind: true, ..no_facts() };
    assert_eq!(pcb_decide(&p, &mut a, &mut r, GB, GB, true, GB / 2, 1000, f), PcbVerdict::Pass);
    assert_eq!(a.ban_delay_window_end_at, 31_000);
    assert_eq!(r.ban_delay_window_end_at, 31_000);
    assert_eq!(pcb_decide(&p, &mut a, &mut r, GB, GB, true, GB / 2, 20_000, f), PcbVerdict::Pass);
    assert_eq!(pcb_decide(&p, &mut a, &mut r, GB, GB, true, GB / 2, 40_000, f), PcbVerdict::Difference);
    assert_eq!(a.progress_difference_counter, 1);
    assert_eq!(r.progress_difference_counter, 1);
    assert_eq!(a.ban_delay_window_end_at, 0);
}

#[test]
fn pcb_rewind_bans_a_positive_report_at_once() {
    let p = pcb_params();
    let mut a = PcbTrack::new(0);
    let mut r = PcbTrack::new(0);
    let f = PcbFacts { rewound: true, ..no_facts() };
    assert_eq!(pcb_decide(&p, &mut a, &mut r, GB, GB, true, 0, 5, f), PcbVerdict::Rewind);
    assert_eq!(a.rewind_counter, 1);
    // A report of zero (a restart) first opens a window.
    let f = PcbFacts { rewound: true, reported_positive: false, ..no_facts() };
    assert_eq!(pcb_decide(&p, &mut a, &mut r, GB, GB, true, 0, 5, f), PcbVerdict::Pass);
    assert_eq!(a.ban_delay_window_end_at, 30_005);
}

#[test]
fn pcb_upload_survives_reconnects() {
    let mut a = PcbTrack::new(0);
    let mut r = PcbTrack::new(0);
    assert!(upload_fits(&a, &r, 100));
    assert_eq!(account_upload(&mut a, &mut r, 100), 100);
    a.last_report_uploaded = 100;
    // The counter went back to 30 after a reconnect: 30 more were uploaded.
    assert_eq!(account_upload(&mut a, &mut r, 30), 130);
    assert_eq!(r.tracking_uploaded_increase_total, 130);
    a.tracking_uploaded_increase_total = i64::MAX;
    assert!(!upload_fits(&a, &r, i64::MAX));
}

#[test]
fn pcb_completed_estimate_takes_the_largest() {
    let mut a = PcbTrack::new(0);
    let mut r = PcbTrack::new(0);
    a.last_torrent_completed_size = 7;
    r.last_torrent_completed_size = 9;
    assert_eq!(completed_estimate(-1, &a, &r), 9);
    assert_eq!(completed_estimate(12, &a, &r), 12);
}

#[test]
fn blocklist_text_lists_each_ban_once() {
    let mut bl = BanList::new();
    assert_eq!(bl.blocklist_text(), "");
    bl.ban("2001:db8::1", meta(i64::MAX, false));
    bl.ban("1.2.3.4", meta(i64::MAX, false));
    bl.ban("10.0.0.0/8", meta(i64::MAX, false));
    let text = bl.blocklist_text();
    let lines: Vec<&str> = text.split('\n').collect();
    assert_eq!(lines.len(), 3);
    let set: HashSet<&str> = lines.iter().copied().collect();
    assert!(set.contains("1.2.3.4/32") && set.contains("10.0.0.0/8") && set.contains("2001:db8::1/128"));
    assert_eq!(lines[2], "2001:db8::1/128");
}

#[test]
fn wave_lifts_expired_bans_before_any_downloader() {
    let mut bl = BanList::new();
    bl.ban("1.1.1.1", meta(100, false));
    bl.ban("2.2.2.2", meta(i64::MAX, false));
    let mut s = WaveState::new();
    match wave_step(&mut s, &mut bl, WaveEvent::Tick { now: 500, downloaders: 1 }) {
        WaveAction::Notify { lifted } => assert_eq!(lifted.len(), 1),
        other => panic!("unexpected {other:?}"),
    }
    assert_eq!(bl.len(), 1);
    assert!(matches!(wave_step(&mut s, &mut bl, WaveEvent::Tick { now: 600, downloaders: 1 }), WaveAction::Busy));
    assert!(matches!(wave_step(&mut s, &mut bl, WaveEvent::Pushed), WaveAction::Ignored));
    assert!(matches!(wave_step(&mut s, &mut bl, WaveEvent::Notified), WaveAction::Inspect { downloader: 0 }));
}

#[test]
fn wave_passes_over_paused_and_refused_downloaders() {
    let mut bl = BanList::new();
    let mut s = WaveState::new();
    wave_step(&mut s, &mut bl, WaveEvent::Tick { now: 0, downloaders: 3 });
    assert!(matches!(wave_step(&mut s, &mut bl, WaveEvent::Notified), WaveAction::Inspect { downloader: 0 }));
    let a = wave_step(&mut s, &mut bl, WaveEvent::Status { paused: true, login_ready: true });
    assert!(matches!(a, WaveAction::Inspect { downloader: 1 }));
    let a = wave_step(&mut s, &mut bl, WaveEvent::Status { paused: false, login_ready: false });
    assert!(matches!(a, WaveAction::Inspect { downloader: 2 }));
    let a = wave_step(&mut s, &mut bl, WaveEvent::Status { paused: false, login_ready: true });
    assert!(matches!(a, WaveAction::Login { downloader: 2 }));
    let a = wave_step(&mut s, &mut bl, WaveEvent::LoggedIn { accepted: false });
    assert!(matches!(a, WaveAction::Done));
    assert!(matches!(wave_step(&mut s, &mut bl, WaveEvent::Tick { now: 1, downloaders: 0 }), WaveAction::Notify { .. }));
    assert!(matches!(wave_step(&mut s, &mut bl, WaveEvent::Notified), WaveAction::Done));
}

#[test]
fn wave_pushes_whole_list_and_new_keys_after_last_torrent() {
    let mut bl = BanList::new();
    bl.ban("9.9.9.9", meta(i64::MAX, false));
    let mut s = WaveState::new();
    wave_step(&mut s, &mut bl, WaveEvent::Tick { now: 0, downloaders: 1 });
    wave_step(&mut s, &mut bl, WaveEvent::Notified);
    wave_step(&mut s, &mut bl, WaveEvent::Status { paused: false, login_ready: true });
    let a = wave_step(&mut s, &mut bl, WaveEvent::LoggedIn { accepted: true });
    assert!(matches!(a, WaveAction::FetchTorrents { downloader: 0 }));
    let a = wave_step(&mut s, &mut bl, WaveEvent::Torrents { count: Some(2) });
    assert!(matches!(a, WaveAction::FetchPeers { downloader: 0, torrent: 0 }));
    bl.ban("7.7.7.7", meta(i64::MAX, false));
    let a = wave_step(&mut s, &mut bl, WaveEvent::Peers { newly: vec!["7.7.7.7:1".into()] });
    assert!(matches!(a, WaveAction::FetchPeers { downloader: 0, torrent: 1 }));
    match wave_step(&mut s, &mut bl, WaveEvent::Peers { newly: vec!["8.8.8.8:2".into()] }) {
        WaveAction::Push { downloader, full, newly } => {
            assert_eq!(downloader, 0);
            assert_eq!(newly, vec!["7.7.7.7:1".to_string(), "8.8.8.8:2".to_string()]);
            let set: HashSet<String> = full.into_iter().collect();
            assert_eq!(set, ["7.7.7.7/32".to_string(), "9.9.9.9/32".to_string()].into_iter().collect());
        }
        other => panic!("unexpected {other:?}"),
    }
    assert!(matches!(wave_step(&mut s, &mut bl, WaveEvent::Pushed), WaveAction::Done));
}

#[test]
fn wave_skips_push_when_torrents_unreadable() {
    let mut bl = BanList::new();
    let mut s = WaveState::new();
    wave_step(&mut s, &mut bl, WaveEvent::Tick { now: 0, downloaders: 2 });
    wave_step(&mut s, &mut bl, WaveEvent::Notified);
    wave_step(&mut s, &mut bl, WaveEvent::Status { paused: false, login_ready: true });
    wave_step(&mut s, &mut bl, WaveEvent::LoggedIn { accepted: true });
    let a = wave_step(&mut s, &mut bl, WaveEvent::Torrents { count: None });
    assert!(matches!(a, WaveAction::Inspect { downloader: 1 }));
    wave_step(&mut s, &mut bl, WaveEvent::Status { paused: false, login_ready: true });
    wave_step(&mut s, &mut bl, WaveEvent::LoggedIn { accepted: true });
    match wave_step(&mut s, &mut bl, WaveEvent::Torrents { count: Some(0) }) {
        WaveAction::Push { downloader, full, newly } => {
            assert_eq!(downloader, 1);
            assert!(full.is_empty() && newly.is_empty());
        }
        other => panic!("unexpected {other:?}"),
    }
}

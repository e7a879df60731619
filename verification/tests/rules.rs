use pbh::domain::ban::PeerAction;
use pbh::domain::peer::{Peer, PeerAddress, PeerFlag};
use pbh::domain::torrent::Torrent;
use pbh::ip::{parse_ip, parse_network};
use pbh::engine::modules::IdleParams;
use pbh::rules::idle::{idle_ban, idle_check, idle_step, protected, IdleStep, ProtectMode};
use pbh::rules::ip_matcher::IpMatcher;
use pbh::rules::matcher::{CompiledRegex, HitField, MatchOutcome, Matcher, RawRule, RuleParseError, RuleSet, StringRule};
use pbh::rules::module::{AntiVampire, ClientNameBlacklist, PeerIdBlacklist, RuleFeatureModule};
use pbh::rules::multi_dial::{dial_block, dial_result, dial_step, DialStep};

#[test]
fn cidr_longest_prefix_match() {
    let mut m: IpMatcher<&str> = IpMatcher::new();
    assert!(m.insert("10.0.0.0/8", "wide"));
    assert!(m.insert("10.1.2.0/24", "narrow"));
    assert_eq!(m.longest_match(parse_ip("10.1.2.5").unwrap()), Some(&"narrow"));
    assert_eq!(m.longest_match(parse_ip("10.9.9.9").unwrap()), Some(&"wide"));
    assert!(!m.contains(parse_ip("8.8.8.8").unwrap()));
}

#[test]
fn bare_ip_and_ipv6() {
    let mut m: IpMatcher<u8> = IpMatcher::new();
    assert!(m.insert("1.2.3.4", 1));
    assert!(m.insert("2001:db8::/32", 2));
    assert!(m.contains(parse_ip("1.2.3.4").unwrap()));
    assert!(!m.contains(parse_ip("1.2.3.5").unwrap()));
    assert!(m.contains(parse_ip("2001:db8::dead").unwrap()));
    assert_eq!(m.len(), 2);
}

#[test]
fn rejects_garbage() {
    let mut m: IpMatcher<()> = IpMatcher::new();
    assert!(!m.insert("not-an-ip", ()));
    assert!(m.is_empty());
}

#[test]
fn reinserting_a_network_replaces_its_value() {
    let mut m: IpMatcher<u8> = IpMatcher::new();
    m.insert("1.2.3.0/24", 1);
    m.insert("1.2.3.0/24", 2);
    assert_eq!(m.len(), 1);
    assert_eq!(m.longest_match(parse_ip("1.2.3.9").unwrap()), Some(&2));
    assert!(parse_network("1.2.3.4/33").is_none());
}

#[test]
fn starts_with_case_insensitive() {
    let rs = RuleSet::new(vec![StringRule::new(Matcher::StartsWith("-XL".into()))]);
    assert_eq!(rs.match_input("-xl0019-blah"), MatchOutcome::True);
    assert_eq!(rs.match_input("-qB4250-"), MatchOutcome::False);
}

#[test]
fn false_rule_short_circuits_over_true() {
    let rs = RuleSet::new(vec![
        StringRule::new(Matcher::Contains("xl".into())),
        StringRule { matcher: Matcher::Equals("-XL-trusted".into()), hit_is_true: false },
    ]);
    assert_eq!(rs.match_input("-XL-trusted"), MatchOutcome::False);
    let reversed = RuleSet::new(vec![
        StringRule { matcher: Matcher::Equals("-XL-trusted".into()), hit_is_true: false },
        StringRule::new(Matcher::Contains("xl".into())),
    ]);
    assert_eq!(reversed.match_input("-XL-trusted"), MatchOutcome::False);
    assert_eq!(reversed.match_input("-XL-other"), MatchOutcome::True);
}

#[test]
fn length_rule() {
    let rs = RuleSet::new(vec![StringRule::new(Matcher::Length { min: 1, max: 3 })]);
    assert_eq!(rs.match_input("ab"), MatchOutcome::True);
    assert_eq!(rs.match_input("abcd"), MatchOutcome::False);
    assert_eq!(rs.match_input("中文字"), MatchOutcome::True);
}

#[test]
fn regex_case_sensitive() {
    let rs = RuleSet::new(vec![StringRule::new(Matcher::Regex(CompiledRegex::new(r"^-XL\d{4}-").unwrap()))]);
    assert_eq!(rs.match_input("-XL0019-x"), MatchOutcome::True);
    assert_eq!(rs.match_input("-xl0019-x"), MatchOutcome::False);
}

fn raw(method: &str, content: Option<&str>, min: Option<u64>, max: Option<u64>, hit: HitField) -> RawRule {
    RawRule { method: Some(method.into()), content: content.map(String::from), min, max, hit }
}

#[test]
fn parse_json_rules() {
    let rules = vec![
        raw("STARTS_WITH", Some("-XL"), None, None, HitField::Absent),
        raw("REGEX", Some("^cacao"), None, None, HitField::Absent),
        raw("LENGTH", None, Some(1), Some(3), HitField::Absent),
    ];
    let rs = RuleSet::parse(&rules).unwrap();
    assert_eq!(rs.match_input("-XL0019"), MatchOutcome::True);
    assert_eq!(rs.match_input("cacaoclient"), MatchOutcome::True);
    assert_eq!(rs.match_input("ab"), MatchOutcome::True);
    assert_eq!(rs.match_input("normalclient"), MatchOutcome::False);
}

#[test]
fn parse_hit_false_is_allowlist() {
    let rules = vec![raw("EQUALS", Some("good"), None, None, HitField::Text("FALSE".into()))];
    let rs = RuleSet::parse(&rules).unwrap();
    assert_eq!(rs.match_input("good"), MatchOutcome::False);
    let rules2 = vec![raw("EQUALS", Some("good"), None, None, HitField::Bool(false))];
    assert_eq!(RuleSet::parse(&rules2).unwrap().match_input("good"), MatchOutcome::False);
}

#[test]
fn parse_unknown_method_errors() {
    let rules = vec![raw("FOO", Some("x"), None, None, HitField::Absent)];
    assert!(RuleSet::parse(&rules).is_err());
    match RuleSet::parse(&rules) {
        Err(RuleParseError::UnknownMethod(m)) => assert_eq!(m, "FOO"),
        _ => panic!("expected an unknown method"),
    }
}

#[test]
fn parse_errors_for_bad_regex_and_missing_method() {
    let bad = vec![raw("REGEX", Some("("), None, None, HitField::Absent)];
    assert!(matches!(RuleSet::parse(&bad), Err(RuleParseError::Regex(_))));
    let no_method = vec![RawRule { method: None, content: Some("x".into()), min: None, max: None, hit: HitField::Absent }];
    assert!(matches!(RuleSet::parse(&no_method), Err(RuleParseError::MissingField(_))));
    let no_content = vec![raw("CONTAINS", None, None, None, HitField::Absent)];
    assert_eq!(RuleSet::parse(&no_content).unwrap().match_input("anything"), MatchOutcome::True);
}

#[test]
fn empty_ruleset_is_false() {
    assert_eq!(RuleSet::default().match_input("anything"), MatchOutcome::False);
}

fn peer(peer_id: Option<&str>, client: Option<&str>) -> Peer {
    Peer {
        address: PeerAddress::new(parse_ip("1.2.3.4").unwrap(), 6881),
        peer_id: peer_id.map(String::from),
        client_name: client.map(String::from),
        download_speed: 1,
        upload_speed: 1,
        downloaded: 0,
        uploaded: 0,
        flags: None,
    }
}

fn torrent(seeding: bool) -> Torrent {
    Torrent {
        id: "h".into(),
        hash: "h".into(),
        name: "t".into(),
        seeding,
        size: 100,
        completed_size: -1,
        private_torrent: false,
    }
}

#[test]
fn peer_id_blacklist_bans_match() {
    let rs = RuleSet::new(vec![StringRule::new(Matcher::StartsWith("-XL".into()))]);
    let m = PeerIdBlacklist::new(rs, 1000);
    let r = m.should_ban(&torrent(false), &peer(Some("-XL0019-"), None));
    assert_eq!(r.action, PeerAction::Ban);
    assert_eq!(r.reason, "PeerID 命中黑名单: -XL0019-");
    assert_eq!(m.should_ban(&torrent(false), &peer(Some("-qB4250-"), None)).action, PeerAction::NoAction);
    assert_eq!(m.should_ban(&torrent(false), &peer(None, None)).action, PeerAction::NoAction);
}

#[test]
fn client_name_blacklist_bans_match() {
    let rs = RuleSet::new(vec![StringRule::new(Matcher::Contains("xunlei".into()))]);
    let m = ClientNameBlacklist::new(rs, 2000);
    let r = m.should_ban(&torrent(false), &peer(None, Some("Xunlei 0.0.1")));
    assert_eq!(r.action, PeerAction::Ban);
    assert_eq!(r.duration_ms, 2000);
    assert_eq!(m.should_ban(&torrent(false), &peer(None, Some("qBittorrent"))).action, PeerAction::NoAction);
}

#[test]
fn anti_vampire_xunlei_0019_only_when_seeding() {
    let m = AntiVampire::new(1000, true);
    assert_eq!(m.should_ban(&torrent(false), &peer(Some("-XL0019-"), None)).action, PeerAction::NoAction);
    assert_eq!(m.should_ban(&torrent(true), &peer(Some("-XL0019-"), None)).action, PeerAction::Ban);
    assert_eq!(m.should_ban(&torrent(false), &peer(Some("-XL0012-"), None)).action, PeerAction::Ban);
    assert_eq!(m.should_ban(&torrent(false), &peer(Some("-qB4250-"), None)).action, PeerAction::NoAction);
    let off = AntiVampire::new(1000, false);
    assert_eq!(off.should_ban(&torrent(false), &peer(Some("-XL0012-"), None)).action, PeerAction::NoAction);
}

#[test]
fn bans_after_exceeding_tolerance() {
    assert_eq!(dial_step(false, false, 1, 2), DialStep::Pass);
    assert_eq!(dial_step(false, false, 2, 2), DialStep::Pass);
    assert_eq!(dial_step(false, false, 3, 2), DialStep::Ban);
    let (block, key) = dial_block("T1", parse_ip("1.2.3.12").unwrap(), 24, 56).unwrap();
    assert_eq!(key, "T1@1.2.3.0/24");
    let r = dial_result(DialStep::Ban, &block, 3, 2, 1000);
    assert_eq!(r.action, PeerAction::Ban);
    assert_eq!(r.rule, "mdb:multi-dialing");
    assert_eq!(r.reason, "同段 1.2.3.0/24 多拨 3 个 IP（容忍 2）");
}

#[test]
fn different_subnet_or_torrent_independent() {
    let (_, k1) = dial_block("T1", parse_ip("1.2.3.10").unwrap(), 24, 56).unwrap();
    let (_, k2) = dial_block("T1", parse_ip("9.9.9.10").unwrap(), 24, 56).unwrap();
    let (_, k3) = dial_block("T2", parse_ip("1.2.3.10").unwrap(), 24, 56).unwrap();
    assert_ne!(k1, k2);
    assert_ne!(k1, k3);
    assert!(dial_block("T1", parse_ip("1.2.3.10").unwrap(), 40, 56).is_none());
}

#[test]
fn same_ip_repeated_does_not_accumulate() {
    let (_, a) = dial_block("T1", parse_ip("1.2.3.10").unwrap(), 24, 56).unwrap();
    let (_, b) = dial_block("T1", parse_ip("1.2.3.10").unwrap(), 24, 56).unwrap();
    assert_eq!(a, b);
    assert_eq!(dial_step(true, true, 1, 2), DialStep::Hunt);
}

fn idle_peer() -> Peer {
    Peer {
        address: PeerAddress::new(parse_ip("1.2.3.4").unwrap(), 6881),
        peer_id: None,
        client_name: None,
        download_speed: 0,
        upload_speed: 0,
        downloaded: 0,
        uploaded: 0,
        flags: None,
    }
}

#[test]
fn first_sight_passes_then_idle_bans() {
    let p = idle_peer();
    assert!(protected(ProtectMode::Always, true, &p));
    assert_eq!(idle_step(true, &p, None, false, 64, 0, 1000), IdleStep::Start);
    assert_eq!(idle_step(true, &p, Some((1000, 0, 0)), false, 64, 0, 1003), IdleStep::Ban);
    let r = idle_ban(1000, 0);
    assert_eq!(r.action, PeerAction::Ban);
    assert_eq!(r.reason, "空闲连接超过 0ms 无传输");
}

#[test]
fn active_transfer_resets() {
    let mut p = idle_peer();
    p.uploaded = 10_000;
    assert_eq!(idle_step(true, &p, Some((1000, 0, 0)), false, 64, 0, 1003), IdleStep::Start);
    let mut fast = idle_peer();
    fast.upload_speed = 1000;
    assert_eq!(idle_step(true, &fast, Some((1000, 0, 0)), false, 64, 0, 1003), IdleStep::Forget);
}

#[test]
fn seeding_only_skips_download_task() {
    let p = idle_peer();
    assert!(!protected(ProtectMode::SeedingOnly, false, &p));
    assert_eq!(idle_step(false, &p, Some((0, 0, 0)), false, 64, 0, 1003), IdleStep::Forget);
    assert_eq!(ProtectMode::from_u8(1), ProtectMode::SeedingOnly);
    let mut interested = idle_peer();
    interested.flags = Some(PeerFlag::parse("d"));
    assert!(!protected(ProtectMode::ByPeerFlags, false, &interested));
    assert!(protected(ProtectMode::ByPeerFlags, true, &interested));
    let params = IdleParams {
        ban_duration: 1000,
        max_allowed_idle_ms: 0,
        idle_speed_threshold: 64,
        reset_on_status_change: true,
        mode: ProtectMode::SeedingOnly,
    };
    assert_eq!(idle_check(&params, false, &p, None, false, 1003).1.action, PeerAction::NoAction);
    assert_eq!(idle_check(&params, false, &p, Some((0, 0, 0)), false, 1003).1.action, PeerAction::NoAction);
}

use pbh::btn::headers::{btn_headers, is_anonymous};
use pbh::btn::hash::{crc32, hashed_identifier};
use pbh::btn::model::{AbilityConfig, BtnConfigResponse, BtnRuleset, PowEndpoint};
use pbh::btn::online::{apply_allowlist, apply_denylist, apply_ruleset, BtnNetworkOnline, BtnState};
use pbh::btn::pow::{has_leading_zero_bits, solve};
use pbh::btn::schedule::{
    ability_action, ability_due, ability_interval, ability_tick, config_stale, next_cursor, submit_cursor,
    AbilityAction, AbilityTick,
};
use pbh::domain::ban::PeerAction;
use pbh::domain::peer::{Peer, PeerAddress};
use pbh::ip::parse_ip;
use sha2::{Digest, Sha256};

#[test]
fn crc32_known_vector() {
    assert_eq!(crc32(b"123456789"), 0xCBF4_3926);
}

#[test]
fn crc32_of_nothing_is_zero() {
    assert_eq!(crc32(b""), 0);
}

#[test]
fn hashed_identifier_stable_and_lowercased() {
    let a = hashed_identifier("ABCDEF0123456789ABCDEF0123456789ABCDEF01");
    let b = hashed_identifier("abcdef0123456789abcdef0123456789abcdef01");
    assert_eq!(a, b);
    assert_eq!(a.len(), 64);
    assert!(a.chars().all(|c| c.is_ascii_hexdigit()));
    assert!(a.chars().all(|c| !c.is_ascii_uppercase()));
    assert_ne!(a, hashed_identifier("abcdef0123456789abcdef0123456789abcdef02"));
}

#[test]
fn leading_zero_bits_check() {
    assert!(has_leading_zero_bits(&[0x00, 0x0f], 8));
    assert!(has_leading_zero_bits(&[0x00, 0x0f], 12));
    assert!(!has_leading_zero_bits(&[0x00, 0x1f], 12));
    assert!(has_leading_zero_bits(&[0xff], 0));
    assert!(!has_leading_zero_bits(&[0x00], 9));
}

#[test]
fn solves_low_difficulty() {
    let challenge = b"btn-pow-test-challenge";
    let bits = 12;
    let nonce = solve(challenge, bits).expect("a nonce exists");
    let mut h = Sha256::new();
    h.update(challenge);
    h.update(nonce);
    assert!(has_leading_zero_bits(&h.finalize(), bits));
}

#[test]
fn solve_difficulty_zero_is_first_nonce() {
    let nonce = solve(b"x", 0).unwrap();
    assert_eq!(nonce, [0u8; 8]);
}

#[test]
fn legacy_detection() {
    let cfg = BtnConfigResponse {
        min_protocol_version: Some(12),
        max_protocol_version: None,
        ability: Vec::new(),
        proof_of_work_captcha: None,
    };
    assert!(cfg.is_legacy());
    let modern = BtnConfigResponse {
        min_protocol_version: Some(20),
        max_protocol_version: Some(20),
        ability: Vec::new(),
        proof_of_work_captcha: Some(PowEndpoint { endpoint: "https://x/pow".into() }),
    };
    assert!(!modern.is_legacy());
}

fn peer(ip: &str, port: u16, pid: Option<&str>) -> Peer {
    Peer {
        address: PeerAddress::new(parse_ip(ip).unwrap(), port),
        peer_id: pid.map(String::from),
        client_name: None,
        download_speed: 0,
        upload_speed: 0,
        downloaded: 0,
        uploaded: 0,
        flags: None,
    }
}

#[test]
fn allowlist_skips_over_denylist() {
    let mut state = BtnState::new();
    apply_denylist(&mut state, "1.2.3.0/24\n");
    apply_allowlist(&mut state, "1.2.3.4\n");
    let m = BtnNetworkOnline::new(1000);
    assert_eq!(m.should_ban(&state, &peer("1.2.3.4", 6881, None)).action, PeerAction::Skip);
    assert_eq!(m.should_ban(&state, &peer("1.2.3.5", 6881, None)).action, PeerAction::Ban);
}

#[test]
fn ruleset_peer_id_and_port() {
    let mut state = BtnState::new();
    let rs = BtnRuleset {
        version: None,
        peer_id: vec![("bad".to_string(), vec!["-XL".to_string()])],
        client_name: Vec::new(),
        ip: Vec::new(),
        port: vec![("weird".to_string(), vec![2003])],
    };
    apply_ruleset(&mut state, &rs);
    let m = BtnNetworkOnline::new(1000);
    assert_eq!(m.should_ban(&state, &peer("8.8.8.8", 6881, Some("-XL0019-"))).action, PeerAction::Ban);
    assert_eq!(m.should_ban(&state, &peer("8.8.8.8", 2003, None)).action, PeerAction::Ban);
    assert_eq!(m.should_ban(&state, &peer("8.8.8.8", 6881, Some("-qB4250-"))).action, PeerAction::NoAction);
}

#[test]
fn ruleset_ip_category_bans() {
    let mut state = BtnState::new();
    let rs = BtnRuleset {
        version: Some("v1".into()),
        peer_id: Vec::new(),
        client_name: Vec::new(),
        ip: vec![("datacenter".to_string(), vec!["1.2.3.0/24".to_string()])],
        port: Vec::new(),
    };
    apply_ruleset(&mut state, &rs);
    let m = BtnNetworkOnline::new(1000);
    let r = m.should_ban(&state, &peer("1.2.3.9", 6881, None));
    assert_eq!(r.action, PeerAction::Ban);
    assert_eq!(r.duration_ms, 1000);
    assert_eq!(m.should_ban(&state, &peer("1.2.4.9", 6881, None)).action, PeerAction::NoAction);
}

fn ability(endpoint: Option<&str>, interval: Option<i64>) -> AbilityConfig {
    AbilityConfig {
        endpoint: endpoint.map(String::from),
        interval,
        random_initial_delay: None,
        pow_captcha: false,
        version: None,
    }
}

#[test]
fn ability_interval_defaults_and_floor() {
    assert_eq!(ability_interval(None), 3_600_000);
    assert_eq!(ability_interval(Some(10)), 1000);
    assert_eq!(ability_interval(Some(60_000)), 60_000);
}

#[test]
fn ability_due_after_interval() {
    assert!(ability_due(None, 0, 1000));
    assert!(!ability_due(Some(5000), 5999, 1000));
    assert!(ability_due(Some(5000), 6000, 1000));
    assert!(ability_due(Some(i64::MIN), i64::MAX, 1000));
}

#[test]
fn ability_actions_by_name() {
    assert_eq!(ability_action("rule_peer_identity", false), AbilityAction::FetchRules);
    assert_eq!(ability_action("rules", false), AbilityAction::FetchRules);
    assert_eq!(ability_action("ip_denylist", false), AbilityAction::FetchDenylist);
    assert_eq!(ability_action("ip_allowlist", true), AbilityAction::FetchAllowlist);
    assert_eq!(ability_action("submit_bans", true), AbilityAction::SubmitBans);
    assert_eq!(ability_action("submit_bans", false), AbilityAction::Nothing);
    assert_eq!(ability_action("heartbeat", true), AbilityAction::Nothing);
}

#[test]
fn ability_tick_outcomes() {
    let a = ability(Some("https://x/rules"), Some(60_000));
    assert_eq!(ability_tick("rules", &a, None, 0, true), AbilityTick::Run(AbilityAction::FetchRules));
    assert_eq!(ability_tick("rules", &a, Some(0), 59_999, true), AbilityTick::NotDue);
    assert_eq!(ability_tick("rules", &a, Some(0), 60_000, true), AbilityTick::Run(AbilityAction::FetchRules));
    let no_ep = ability(None, None);
    assert_eq!(ability_tick("ip_denylist", &no_ep, None, 0, true), AbilityTick::NoEndpoint);
}

#[test]
fn config_goes_stale_after_an_hour() {
    assert!(!config_stale(0, 3_600_000));
    assert!(config_stale(0, 3_600_001));
}

#[test]
fn submit_cursor_reads_stored_number() {
    assert_eq!(submit_cursor(None), 0);
    assert_eq!(submit_cursor(Some("42".to_string())), 42);
    assert_eq!(submit_cursor(Some("-7".to_string())), -7);
    assert_eq!(submit_cursor(Some("x1".to_string())), 0);
    assert_eq!(submit_cursor(Some(String::new())), 0);
}

#[test]
fn next_cursor_is_largest_id() {
    assert_eq!(next_cursor(&vec![], 9), 9);
    assert_eq!(next_cursor(&vec![3, 17, 5], 0), 17);
}

#[test]
fn anonymous_uses_installation_id() {
    assert!(is_anonymous("", ""));
    assert!(is_anonymous("your_app_id", "real"));
    let h = btn_headers("", "", "install-123", "1.0.0");
    assert!(h.iter().any(|(k, v)| k == "X-BTN-InstallationID" && v == "install-123"));
    assert!(!h.iter().any(|(k, _)| k == "X-BTN-AppID"));
    assert!(h.iter().any(|(k, v)| k == "user-agent" && v == "PeerBanHelper-Rust/1.0.0/BTN-Protocol/2.0.1/20"));
}

#[test]
fn authed_sets_app_headers() {
    assert!(!is_anonymous("appid", "secret"));
    let h = btn_headers("appid", "secret", "i", "1.0.0");
    assert!(h.iter().any(|(k, v)| k == "X-BTN-AppID" && v == "appid"));
    assert!(h.iter().any(|(k, v)| k == "Authentication" && v == "Bearer appid@secret"));
    assert!(!h.iter().any(|(k, _)| k == "X-BTN-InstallationID"));
    assert_eq!(h.len(), 7);
}

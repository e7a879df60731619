use pbh::downloader::manager::{find_config, remove_config, upsert_config, DownloaderManager};
use pbh::downloader::qbittorrent::{
    api_base, check_kind, feature_flags, is_enhanced, login_accepted, login_after_probe, login_reject_hint,
    parse_version, status_error, type_label, at_least, supports_range_ban, SemVersion,
};
use pbh::downloader::{
    join_full_ban_string, join_increment_peers, normalize_entry, DownloaderConfig, DownloaderError, FeatureFlag,
};

#[test]
fn full_ban_single_ips() {
    let s = join_full_ban_string(&vec!["1.2.3.4".into(), "1.2.3.4".into(), "5.6.7.8".into()], true);
    assert_eq!(s, "1.2.3.4\n5.6.7.8");
}

#[test]
fn full_ban_cidr_gated_by_range_support() {
    let nets = vec!["10.0.0.0/24".to_string(), "1.2.3.4".to_string()];
    let with = join_full_ban_string(&nets, true);
    assert!(with.contains("10.0.0.0/24"));
    assert!(with.contains("1.2.3.4"));
    let without = join_full_ban_string(&nets, false);
    assert_eq!(without, "1.2.3.4");
}

#[test]
fn full_ban_lines_are_distinct_addresses() {
    let nets: Vec<String> = vec![
        " 1.2.3.4 ".into(),
        "1.2.3.4/32".into(),
        "10.0.0.0/8".into(),
        "::ffff:5.6.7.8".into(),
        "not an address".into(),
        "2001:db8::1/128".into(),
    ];
    let s = join_full_ban_string(&nets, false);
    let lines: Vec<&str> = s.split('\n').collect();
    assert_eq!(lines, vec!["1.2.3.4", "::ffff:5.6.7.8", "2001:db8::1"]);
    assert!(lines.iter().all(|l| !l.contains('/')));
    assert_eq!(join_full_ban_string(&vec!["junk".into()], false), "");
}

#[test]
fn ipv6_compressed_and_slash32_host() {
    assert_eq!(join_full_ban_string(&vec!["9.9.9.9/32".into()], true), "9.9.9.9");
    let s = join_full_ban_string(&vec!["2001:0db8:0000:0000:0000:0000:0000:0001".into()], true);
    assert_eq!(s, "2001:db8::1");
}

#[test]
fn increment_pipe_joined_distinct() {
    let s = join_increment_peers(&vec![
        "1.2.3.4:6881".into(),
        "1.2.3.4:6881".into(),
        "[2001:db8::1]:6881".into(),
    ]);
    assert_eq!(s, "1.2.3.4:6881|[2001:db8::1]:6881");
}

#[test]
fn normalize_drops_garbage_and_clears_host_bits() {
    assert_eq!(normalize_entry("garbage", true), None);
    assert_eq!(normalize_entry(" 10.1.2.3/8 ", true).as_deref(), Some("10.0.0.0/8"));
    assert_eq!(normalize_entry("10.1.2.3/8", false), None);
    assert_eq!(join_full_ban_string(&vec![], true), "");
}

#[test]
fn factory_rejects_unknown() {
    assert!(check_kind("transmission").is_err());
    assert!(check_kind("qbittorrent").is_ok());
    assert!(check_kind("qBittorrentEE").is_ok());
}

#[test]
fn build_client_sets_endpoint_and_kind() {
    assert_eq!(api_base("http://host:8080/"), "http://host:8080/api/v2");
    assert!(is_enhanced("qbittorrentee"));
    assert_eq!(type_label(is_enhanced("qbittorrentee")), "qBittorrentEE");
    assert_eq!(type_label(false), "qBittorrent");
    assert!(feature_flags(false).contains(&FeatureFlag::UnbanIp));
    assert!(feature_flags(true).contains(&FeatureFlag::RangeBanIp));
}

fn release(major: u64, minor: u64, patch: u64) -> SemVersion {
    SemVersion { major, minor, patch, pre: String::new() }
}

#[test]
fn version_parse_lenient() {
    assert_eq!(parse_version("v5.3.0").unwrap(), release(5, 3, 0));
    assert_eq!(parse_version("4.6").unwrap(), release(4, 6, 0));
    assert!(at_least(&parse_version("5.3.0").unwrap(), 5, 3, 0));
    assert!(!at_least(&parse_version("5.0.1").unwrap(), 5, 3, 0));
}

#[test]
fn pre_releases_come_before_their_release() {
    let beta = parse_version("5.3.0-beta1").unwrap();
    assert_eq!(beta.pre, "beta1");
    assert!(!at_least(&beta, 5, 3, 0));
    assert_eq!(supports_range_ban("v5.3.0-beta1"), Some(false));
    assert_eq!(supports_range_ban("v5.3.0"), Some(true));
    assert_eq!(supports_range_ban("v5.4.1"), Some(true));
    assert_eq!(supports_range_ban("v4.6.7"), Some(false));
    assert_eq!(supports_range_ban("6"), Some(true));
    assert_eq!(supports_range_ban("not a version"), Some(false));
    assert_eq!(supports_range_ban("01.2"), None);
}

#[test]
fn status_error_classifies_auth() {
    assert!(status_error("/auth/login", 403, "403 Forbidden", "banned").is_auth());
    assert!(status_error("/auth/login", 401, "401 Unauthorized", "no").is_auth());
    assert!(!status_error("/x", 500, "500 Internal Server Error", "oops").is_auth());
    assert!(!status_error("/x", 404, "404 Not Found", "nf").is_auth());
    match status_error("/x", 404, "404 Not Found", "nf") {
        DownloaderError::Api(m) => assert_eq!(m, "/x → 404 Not Found: nf"),
        other => panic!("unexpected {:?}", other),
    }
}

#[test]
fn login_reject_hint_is_actionable() {
    let h = login_reject_hint("Fails.", "403 Forbidden");
    assert!(h.contains("Fails."));
    assert!(h.contains("跳过身份验证"));
    assert!(h.contains("用户名/密码"));
}

#[test]
fn login_tolerates_qb_auth_bypass() {
    assert!(!login_accepted("Fails."));
    assert!(login_accepted(" ok. "));
    assert!(login_after_probe("Fails.", Ok("v5.0.0".to_string())).is_none());
}

#[test]
fn login_fails_with_hint_when_no_bypass() {
    let o = login_after_probe("Fails.", Err("403 Forbidden".to_string())).unwrap();
    assert!(!o.success);
    assert!(o.message.contains("跳过身份验证"));
    let e = login_after_probe("Fails.", Ok("  ".to_string())).unwrap();
    assert!(!e.success);
}

fn cfg(id: &str, name: &str) -> DownloaderConfig {
    DownloaderConfig { id: id.into(), name: name.into(), ..Default::default() }
}

#[test]
fn load_upsert_remove_roundtrip() {
    let mut mgr: DownloaderManager<String> = DownloaderManager::load(Vec::new(), Vec::new());
    assert_eq!(mgr.count(), 0);

    let c = DownloaderConfig {
        id: "d1".into(),
        kind: "qbittorrent".into(),
        name: "qb".into(),
        endpoint: "http://127.0.0.1:8080".into(),
        ..Default::default()
    };
    mgr.upsert(c, "client d1".to_string());
    assert_eq!(mgr.count(), 1);

    // Loading again from the stored configurations.
    let stored = mgr.configs().clone();
    let built: Vec<Option<String>> = stored.iter().map(|c| Some(format!("client {}", c.id))).collect();
    let mut mgr2 = DownloaderManager::load(stored, built);
    assert_eq!(mgr2.count(), 1);
    assert_eq!(mgr2.configs()[0].name, "qb");

    assert!(mgr2.remove("d1"));
    assert_eq!(mgr2.count(), 0);
    assert!(!mgr2.remove("nope"));
}

#[test]
fn upsert_replaces_by_id_and_remove_by_id() {
    let mut configs: Vec<DownloaderConfig> = Vec::new();
    assert_eq!(upsert_config(&mut configs, cfg("a", "first")), None);
    assert_eq!(upsert_config(&mut configs, cfg("b", "second")), None);
    assert_eq!(upsert_config(&mut configs, cfg("a", "renamed")), Some(0));
    assert_eq!(configs.len(), 2);
    assert_eq!(configs[0].name, "renamed");
    assert_eq!(find_config(&configs, "b"), Some(1));
    assert_eq!(remove_config(&mut configs, "a"), Some(0));
    assert_eq!(remove_config(&mut configs, "a"), None);
    assert_eq!(configs.len(), 1);
    assert_eq!(configs[0].id, "b");
}

#[test]
fn manager_keeps_downloader_beside_its_configuration() {
    let mut mgr: DownloaderManager<u32> = DownloaderManager::load(
        vec![cfg("a", "first"), cfg("b", "second")],
        vec![Some(1), None],
    );
    assert_eq!(mgr.count(), 1);
    mgr.upsert(cfg("b", "second again"), 2);
    assert_eq!(mgr.count(), 2);
    assert_eq!(mgr.items()[1], Some(2));
    assert_eq!(mgr.configs()[1].name, "second again");
    assert!(mgr.remove("a"));
    assert_eq!(mgr.items().len(), 1);
    assert_eq!(mgr.items()[0], Some(2));
    assert_eq!(mgr.configs()[0].id, "b");
}

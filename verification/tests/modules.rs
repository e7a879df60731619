use pbh::engine::modules::{default_client_name_rules, default_peer_id_rules};
use pbh::rules::matcher::MatchOutcome;
use pbh::engine::modules::{dur, enabled, field_bool, field_i64, int_list, module_plans, str_list, ConfValue, ModulePlan};

fn section(name: &str, entries: Vec<(&str, ConfValue)>) -> (String, ConfValue) {
    (
        name.to_string(),
        ConfValue::Mapping(entries.into_iter().map(|(k, v)| (k.to_string(), v)).collect()),
    )
}

#[test]
fn module_section_lookup() {
    let sections = vec![section(
        "progress-cheat-blocker",
        vec![("enabled", ConfValue::Bool(true)), ("ban-duration", ConfValue::Int(2_592_000_000))],
    )];
    assert!(field_bool(&sections, "progress-cheat-blocker", "enabled", false));
    assert_eq!(field_i64(&sections, "progress-cheat-blocker", "ban-duration", 0), 2_592_000_000);
    assert_eq!(field_i64(&sections, "nonexistent", "ban-duration", 7), 7);
    assert!(!enabled(&sections, "nonexistent", false));
    assert!(enabled(&sections, "nonexistent", true));
}

#[test]
fn module_duration_falls_back_to_global() {
    let sections = vec![
        section("a", vec![("ban-duration", ConfValue::Int(5000))]),
        section("b", vec![("ban-duration", ConfValue::Text("x".into()))]),
    ];
    assert_eq!(dur(&sections, "a", 100), 5000);
    assert_eq!(dur(&sections, "b", 100), 100);
    assert_eq!(dur(&sections, "c", 100), 100);
}

#[test]
fn lists_keep_only_their_kind() {
    let sections = vec![section(
        "ip-address-blocker",
        vec![
            ("ports", ConfValue::List(vec![ConfValue::Int(2003), ConfValue::Text("x".into()), ConfValue::Int(6889)])),
            ("regions", ConfValue::List(vec![ConfValue::Text("CN".into()), ConfValue::Int(1)])),
        ],
    )];
    assert_eq!(int_list(&sections, "ip-address-blocker", "ports"), vec![2003, 6889]);
    assert_eq!(str_list(&sections, "ip-address-blocker", "regions"), vec!["CN".to_string()]);
    assert!(int_list(&sections, "ip-address-blocker", "missing").is_empty());
}

#[test]
fn default_profile_enables_the_default_modules() {
    let plans = module_plans(&vec![], 1000);
    assert_eq!(plans.len(), 4);
    assert!(matches!(plans[0], ModulePlan::PeerIdBlacklist { ban_duration: 1000 }));
    assert!(matches!(plans[1], ModulePlan::ClientNameBlacklist { .. }));
    assert!(matches!(plans[2], ModulePlan::AntiVampire(_)));
    assert!(matches!(plans[3], ModulePlan::ProgressCheat(_)));
}

#[test]
fn disabled_and_enabled_modules() {
    let sections = vec![
        section("peer-id-blacklist", vec![("enabled", ConfValue::Bool(false))]),
        section("ptr-blacklist", vec![("enabled", ConfValue::Bool(true)), ("ban-duration", ConfValue::Int(42))]),
    ];
    let plans = module_plans(&sections, 1000);
    assert!(!plans.iter().any(|p| matches!(p, ModulePlan::PeerIdBlacklist { .. })));
    assert!(plans.iter().any(|p| matches!(p, ModulePlan::PtrBlacklist { ban_duration: 42, .. })));
}

#[test]
fn built_in_rules_catch_common_leechers() {
    let p = default_peer_id_rules();
    assert_eq!(p.rules.len(), 8);
    assert_eq!(p.match_input("-XL0019-"), MatchOutcome::True);
    assert_eq!(p.match_input("-dt0001-"), MatchOutcome::True);
    assert_eq!(p.match_input("cacaoTorrent"), MatchOutcome::True);
    assert_eq!(p.match_input("-qB4250-"), MatchOutcome::False);
    let c = default_client_name_rules();
    assert_eq!(c.rules.len(), 6);
    assert_eq!(c.match_input("Xunlei 0.0.1.9"), MatchOutcome::True);
    assert_eq!(c.match_input("taipei-torrent dev"), MatchOutcome::True);
    assert_eq!(c.match_input("qBittorrent/4.6.0"), MatchOutcome::False);
}

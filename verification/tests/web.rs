use pbh::engine::ip_rule_list::refresh_interval_secs;
use pbh::engine::modules::ConfValue;
use pbh::web::helpers::{history_window, sub_rule_problem, update_too_small, MIN_UPDATE_BYTES};
use pbh::web::subscriptions::{profile_sub_rules, with_sub_rule, without_sub_rule};

fn mapping(entries: Vec<(&str, ConfValue)>) -> ConfValue {
    ConfValue::Mapping(entries.into_iter().map(|(k, v)| (k.to_string(), v)).collect())
}

fn text(s: &str) -> ConfValue {
    ConfValue::Text(s.to_string())
}

fn get<'a>(v: &'a ConfValue, key: &str) -> Option<&'a ConfValue> {
    match v {
        ConfValue::Mapping(m) => m.iter().find(|(k, _)| k == key).map(|(_, v)| v),
        _ => None,
    }
}

fn as_bool(v: Option<&ConfValue>) -> Option<bool> {
    match v {
        Some(ConfValue::Bool(b)) => Some(*b),
        _ => None,
    }
}

fn sample_section() -> ConfValue {
    mapping(vec![
        ("enabled", ConfValue::Bool(true)),
        ("check-interval", ConfValue::Int(1_800_000)),
        (
            "rules",
            mapping(vec![
                ("a", mapping(vec![("name", text("List A")), ("url", text("https://a.example/list.txt"))])),
                ("b", mapping(vec![("enabled", ConfValue::Bool(false)), ("url", text("https://b.example/list.txt"))])),
                ("c", ConfValue::Null),
            ]),
        ),
    ])
}

#[test]
fn sub_rules_are_listed_with_defaults() {
    let section = sample_section();
    let rows = profile_sub_rules(Some(&section));
    assert_eq!(rows.len(), 3);
    assert_eq!(
        rows[0],
        ("a".to_string(), "List A".to_string(), "https://a.example/list.txt".to_string(), true)
    );
    assert_eq!(rows[1], ("b".to_string(), "b".to_string(), "https://b.example/list.txt".to_string(), false));
    assert_eq!(rows[2], ("c".to_string(), "c".to_string(), String::new(), true));
    assert!(profile_sub_rules(None).is_empty());
    assert!(profile_sub_rules(Some(&text("not a mapping"))).is_empty());
}

#[test]
fn adding_a_sub_rule_creates_the_section_and_turns_it_on() {
    let s = with_sub_rule(None, "x", "Xs", "https://x.example/", true).unwrap();
    assert_eq!(as_bool(get(&s, "enabled")), Some(true));
    let rows = profile_sub_rules(Some(&s));
    assert_eq!(rows, vec![("x".to_string(), "Xs".to_string(), "https://x.example/".to_string(), true)]);
}

#[test]
fn adding_a_sub_rule_replaces_by_id_and_keeps_the_rest() {
    let mut section = sample_section();
    if let ConfValue::Mapping(m) = &mut section {
        m[0].1 = ConfValue::Bool(false);
    }
    let s = with_sub_rule(Some(section), "a", "Renamed", "https://a2.example/", false).unwrap();
    assert_eq!(as_bool(get(&s, "enabled")), Some(true));
    assert!(matches!(get(&s, "check-interval"), Some(ConfValue::Int(1_800_000))));
    let rows = profile_sub_rules(Some(&s));
    assert_eq!(rows.len(), 3);
    assert_eq!(rows[0], ("a".to_string(), "Renamed".to_string(), "https://a2.example/".to_string(), false));
    assert_eq!(rows[1].0, "b");
}

#[test]
fn a_section_that_is_not_a_mapping_is_left_alone() {
    let s = with_sub_rule(Some(ConfValue::Int(3)), "x", "X", "u", true);
    assert!(matches!(s, Some(ConfValue::Int(3))));
    let s = without_sub_rule(Some(ConfValue::Int(3)), "x");
    assert!(matches!(s, Some(ConfValue::Int(3))));
    assert!(without_sub_rule(None, "x").is_none());
}

#[test]
fn removing_sub_rules_turns_the_module_off_when_none_is_left() {
    let s = without_sub_rule(Some(sample_section()), "a").unwrap();
    assert_eq!(as_bool(get(&s, "enabled")), Some(true));
    let ids: Vec<String> = profile_sub_rules(Some(&s)).into_iter().map(|r| r.0).collect();
    assert_eq!(ids, vec!["b".to_string(), "c".to_string()]);
    let s = without_sub_rule(Some(s), "b").unwrap();
    let s = without_sub_rule(Some(s), "c").unwrap();
    assert!(profile_sub_rules(Some(&s)).is_empty());
    assert_eq!(as_bool(get(&s, "enabled")), Some(false));
    let s = without_sub_rule(Some(mapping(vec![("enabled", ConfValue::Bool(true))])), "zz").unwrap();
    assert_eq!(as_bool(get(&s, "enabled")), Some(false));
}

#[test]
fn add_then_remove_keeps_the_other_sub_rules() {
    let before = profile_sub_rules(Some(&sample_section()));
    let added = with_sub_rule(Some(sample_section()), "new", "N", "https://n.example/", true).unwrap();
    let removed = without_sub_rule(Some(added), "new").unwrap();
    assert_eq!(profile_sub_rules(Some(&removed)), before);
}

#[test]
fn sub_rule_problems() {
    assert_eq!(sub_rule_problem("  ", "https://x"), Some("rule_id 与 url 必填"));
    assert_eq!(sub_rule_problem("a", ""), Some("rule_id 与 url 必填"));
    assert_eq!(sub_rule_problem("a.b", "https://x"), Some("rule_id 不可含 '.'"));
    assert_eq!(sub_rule_problem("ab", "https://x"), None);
}

#[test]
fn history_window_defaults_and_limits() {
    assert_eq!(history_window(None, None), (1, 20, 0));
    assert_eq!(history_window(Some(3), Some(50)), (3, 50, 100));
    assert_eq!(history_window(Some(0), Some(0)), (1, 1, 0));
    assert_eq!(history_window(Some(-4), Some(1000)), (1, 200, 0));
    assert_eq!(history_window(Some(i64::MAX), Some(200)), (i64::MAX, 200, i64::MAX));
}

#[test]
fn update_size_guard() {
    assert_eq!(MIN_UPDATE_BYTES, 1024 * 1024);
    assert!(update_too_small(1000));
    assert!(update_too_small(1024 * 1024 - 1));
    assert!(!update_too_small(1_200_000));
}

#[test]
fn rule_list_refresh_interval_is_held_between_a_minute_and_a_day() {
    assert_eq!(refresh_interval_secs(1_800_000), 1800);
    assert_eq!(refresh_interval_secs(1000), 60);
    assert_eq!(refresh_interval_secs(-5), 60);
    assert_eq!(refresh_interval_secs(i64::MAX), 86_400);
}

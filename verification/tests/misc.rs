use pbh::geoip::{download_due, files, first_fetch_step, mirrors, next_fetch_step, url_for, FetchOutcome, FetchStep};
use pbh::i18n::{fill_args, utf8_char_len, TransParam, TranslationComponent};
use pbh::notify::PushChannel;
use pbh::storage::{BanHistoryRow, RuleSubInfo, RuleSubLog};
use pbh::web::envelope::StdResp;
use pbh::web::helpers::{
    asset_name, ct_eq, err_chain, extract_ipv4, extract_ipv6, gen_hex_token, gen_id, hex_token, target_for, version_newer,
};

#[test]
fn url_join() {
    assert_eq!(
        url_for(mirrors()[0], "GeoIP-City.mmdb"),
        "https://github.com/PBH-BTN/GeoLite.mmdb/releases/latest/download/GeoIP-City.mmdb"
    );
    assert_eq!(mirrors().len(), 3);
    assert_eq!(files(), vec!["GeoIP-City.mmdb", "GeoIP-ASN.mmdb", "GeoCN.mmdb"]);
}

#[test]
fn missing_file_needs_download() {
    assert!(download_due(false, false, None));
    assert!(download_due(false, true, Some(0)));
}

#[test]
fn fresh_file_no_download_when_autoupdate_off() {
    assert!(!download_due(true, false, Some(0)));
    assert!(!download_due(true, true, Some(0)));
    assert!(!download_due(true, true, Some(3_888_000_000)));
    assert!(download_due(true, true, Some(3_888_000_001)));
    assert!(!download_due(true, false, Some(u128::MAX)));
    assert!(!download_due(true, true, None));
}

#[test]
fn fills_in_order() {
    assert_eq!(fill_args("封禁 {} 端口 {}", &vec!["1.2.3.4".into(), "6881".into()]), "封禁 1.2.3.4 端口 6881");
}

#[test]
fn leftover_placeholders_kept() {
    assert_eq!(fill_args("{} 和 {}", &vec!["a".into()]), "a 和 {}");
}

#[test]
fn extra_args_ignored() {
    assert_eq!(fill_args("{}", &vec!["a".into(), "b".into()]), "a");
}

#[test]
fn utf8_safe() {
    assert_eq!(fill_args("中文{}结尾", &vec!["值".into()]), "中文值结尾");
}

#[test]
fn template_without_placeholders_is_unchanged() {
    assert_eq!(fill_args("no holes { } here", &vec!["x".into()]), "no holes { } here");
    assert_eq!(fill_args("{}{}", &vec![]), "{}{}");
}

#[test]
fn utf8_lengths_from_first_byte() {
    assert_eq!(utf8_char_len(b'a'), 1);
    assert_eq!(utf8_char_len("é".as_bytes()[0]), 2);
    assert_eq!(utf8_char_len("中".as_bytes()[0]), 3);
    assert_eq!(utf8_char_len("😀".as_bytes()[0]), 4);
}

#[test]
fn translation_components_keep_key_and_params() {
    let c = TranslationComponent::new("k");
    assert_eq!(c.key, "k");
    assert!(c.params.is_empty());
    let d = TranslationComponent::with_params("k2", vec![TransParam::Text("v".into()), TransParam::Component(Box::new(c))]);
    assert_eq!(d.params.len(), 2);
}

#[test]
fn ok_sets_success_true() {
    let r = StdResp::ok(42);
    assert!(r.success);
    assert_eq!(r.data, Some(42));
    assert!(r.message.is_none());
}

#[test]
fn err_sets_success_false() {
    let r: StdResp<()> = StdResp::err("boom");
    assert!(!r.success);
    assert_eq!(r.message.as_deref(), Some("boom"));
    let m = StdResp::ok_msg("saved", Some(1));
    assert!(m.success);
    assert_eq!(m.message.as_deref(), Some("saved"));
}

#[test]
fn semver_compare() {
    assert!(version_newer("0.1.0", "0.2.0"));
    assert!(version_newer("0.1.0", "1.0.0"));
    assert!(!version_newer("0.2.0", "0.1.0"));
    assert!(!version_newer("0.1.0", "0.1.0"));
    assert!(version_newer("v0.1.0", "v0.2.0"));
    assert!(version_newer("0.1.0", "v0.2.0"));
    assert!(!version_newer("v0.2.0", "0.1.0"));
    assert!(version_newer("1.0.0", "1.0.1-rc1"));
    assert!(!version_newer("1.0.0", "1.0.0-rc1"));
    assert!(version_newer("1.0.0", "1.0.0.1"));
    assert!(!version_newer("1.0", "1.0.0"));
}

#[test]
fn ipv4_from_various_formats() {
    assert_eq!(extract_ipv4("1.2.3.4").as_deref(), Some("1.2.3.4"));
    assert_eq!(extract_ipv4("  203.0.113.9\n").as_deref(), Some("203.0.113.9"));
    assert_eq!(extract_ipv4("当前 IP：203.0.113.9 来自：xx").as_deref(), Some("203.0.113.9"));
    assert_eq!(extract_ipv4("ipCallback({ip:\"203.0.113.9\",code:0})").as_deref(), Some("203.0.113.9"));
    assert_eq!(extract_ipv4("{\"ip\":\"198.51.100.7\"}").as_deref(), Some("198.51.100.7"));
    assert!(extract_ipv4("no address here").is_none());
    assert!(extract_ipv4("256.1.1.1 only").is_none());
}

#[test]
fn ipv6_extraction() {
    assert_eq!(extract_ipv6("Your IPv6 is 2001:db8::1 today").as_deref(), Some("2001:db8::1"));
    assert!(extract_ipv6("1.2.3.4 no v6").is_none());
}

#[test]
fn asset_name_matches_release_convention() {
    let t = target_for("linux", "x86_64");
    assert_eq!(asset_name(t).unwrap(), "pbh-rust-x86_64-unknown-linux-gnu.gz");
    assert!(asset_name(None).is_none());
}

#[test]
fn linux_x86_64_target() {
    assert_eq!(target_for("linux", "x86_64"), Some("x86_64-unknown-linux-gnu"));
    assert_eq!(target_for("macos", "aarch64"), Some("aarch64-apple-darwin"));
    assert_eq!(target_for("linux", "riscv64"), None);
}

#[test]
fn constant_time_compare() {
    assert!(ct_eq("token", "token"));
    assert!(!ct_eq("token", "tokem"));
    assert!(!ct_eq("token", "token2"));
    assert!(ct_eq("", ""));
}

#[test]
fn error_chain_skips_repeats() {
    assert_eq!(err_chain(&vec!["a".into(), "b".into()]), "a ← b");
    assert_eq!(err_chain(&vec!["connect failed: refused".into(), "refused".into()]), "connect failed: refused");
    assert_eq!(err_chain(&vec![]), "");
}

#[test]
fn generated_ids_are_hex() {
    let id = gen_id();
    assert!(id.starts_with('d'));
    assert!(id[1..].chars().all(|c| c.is_ascii_hexdigit()));
    if let Some(t) = gen_hex_token() {
        assert_eq!(t.len(), 32);
        assert!(t.chars().all(|c| c.is_ascii_hexdigit()));
    }
}

#[test]
fn storage_rows_hold_their_fields() {
    let row = BanHistoryRow {
        id: 1,
        ban_at: 2,
        unban_at: 3,
        ip: "1.2.3.4".into(),
        port: 6881,
        peer_id: None,
        client_name: Some("qB".into()),
        module_name: "M".into(),
        rule_name: "r".into(),
        description: "d".into(),
        downloader: "dl".into(),
    };
    assert_eq!(row.clone().ip, "1.2.3.4");
    let info = RuleSubInfo {
        rule_id: "a".into(),
        enabled: true,
        rule_name: "n".into(),
        sub_url: "https://x".into(),
        last_update: None,
        ent_count: Some(3),
    };
    assert_eq!(info.ent_count, Some(3));
    let log = RuleSubLog { id: 1, rule_id: "a".into(), update_time: 5, count: 3, update_type: "AUTO".into() };
    assert_eq!(log.count, 3);
    assert_ne!(PushChannel::Bark, PushChannel::Ntfy);
}

#[test]
fn geoip_fetch_retries_with_credentials_only_after_401() {
    assert_eq!(first_fetch_step(3), FetchStep::Try { mirror: 0, with_auth: false });
    assert_eq!(first_fetch_step(0), FetchStep::Done(false));
    assert_eq!(next_fetch_step(0, false, FetchOutcome::Saved, true, 3), FetchStep::Done(true));
    assert_eq!(
        next_fetch_step(0, false, FetchOutcome::Unauthorized, true, 3),
        FetchStep::Try { mirror: 0, with_auth: true }
    );
    assert_eq!(
        next_fetch_step(0, false, FetchOutcome::Unauthorized, false, 3),
        FetchStep::Try { mirror: 1, with_auth: false }
    );
    assert_eq!(next_fetch_step(1, false, FetchOutcome::Failed, true, 3), FetchStep::Try { mirror: 2, with_auth: false });
    assert_eq!(next_fetch_step(2, true, FetchOutcome::Unauthorized, true, 3), FetchStep::Done(false));
}

#[test]
fn hex_token_spells_each_byte() {
    assert_eq!(hex_token(&vec![0x00, 0xab, 0x7f, 0x10]), "00ab7f10");
    assert_eq!(hex_token(&vec![0xffu8; 16]).len(), 32);
}

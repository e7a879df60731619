use pbh::config::model::{AppConfig, NetworkConfig, ProxyTarget, ProxyTargets};
use pbh::config::paths::Paths;
use pbh::config::ProfileConfig;

#[test]
fn defaults_are_sane() {
    let a = AppConfig::default();
    assert_eq!(a.server.http, 9898);
    assert_eq!(a.server.address, "0.0.0.0");
    assert!(a.btn.submit);
    assert!(!a.btn.enabled);
    assert!(a.ip_database.auto_update);

    let p = ProfileConfig::default();
    assert_eq!(p.check_interval_ms, 5000);
    assert_eq!(p.ban_duration_ms, 1_209_600_000);
}

#[test]
fn server_defaults_and_history_days() {
    let a = pbh::config::AppConfig::default();
    assert_eq!(a.server_http, 9898);
    assert_eq!(a.server_address, "0.0.0.0");
    assert!(!a.allow_cors);
    assert_eq!(AppConfig::default().persist.ban_logs_keep_days, 180);
}

#[test]
fn proxy_targets_default_only_censored() {
    let t = ProxyTargets::default();
    assert!(t.btn && t.geoip && t.rule_subscription && t.update);
    assert!(!t.public_ip);
}

#[test]
fn proxy_for_gates_by_target() {
    let mut n = NetworkConfig { proxy: "http://127.0.0.1:7890".into(), ..Default::default() };
    assert_eq!(n.proxy_for(ProxyTarget::Btn), "http://127.0.0.1:7890");
    assert_eq!(n.proxy_for(ProxyTarget::Update), "http://127.0.0.1:7890");
    assert_eq!(n.proxy_for(ProxyTarget::PublicIp), "");
    n.proxy_targets.btn = false;
    assert_eq!(n.proxy_for(ProxyTarget::Btn), "");
    assert_eq!(n.proxy_for(ProxyTarget::Geoip), "http://127.0.0.1:7890");
    n.proxy.clear();
    n.proxy_targets.btn = true;
    assert_eq!(n.proxy_for(ProxyTarget::Btn), "");
}

#[test]
fn layout_under_data_root() {
    let p = Paths::with_data_dir("/x/data");
    assert_eq!(p.config_file("config.yml"), "/x/data/config/config.yml");
    assert_eq!(p.db_file(), "/x/data/persist/peerbanhelper-nt.db");
    assert_eq!(p.logs_dir(), "/x/data/logs");
    assert_eq!(p.data_dir(), "/x/data");
}

#[test]
fn relative_data_dir_resolves_under_working_dir() {
    let p = Paths::resolve("/srv/pbh", "data");
    assert_eq!(p.data_dir(), "/srv/pbh/data");
    assert_eq!(p.db_file(), "/srv/pbh/data/persist/peerbanhelper-nt.db");
    assert!(std::path::Path::new(&p.db_file()).is_absolute());
    let q = Paths::resolve("/srv/pbh", "/x/data");
    assert_eq!(q.db_file(), "/x/data/persist/peerbanhelper-nt.db");
}

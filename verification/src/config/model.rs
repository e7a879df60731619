//! The infrastructure settings of `config.yml`, with their defaults, and the
//! choice of proxy per kind of outgoing request.

use vstd::prelude::*;

verus! {

/// The infrastructure settings.
#[derive(Debug, Clone)]
pub struct AppConfig {
    pub server: ServerConfig,
    pub persist: PersistConfig,
    pub btn: BtnConfig,
    pub ip_database: IpDatabaseConfig,
    pub network: NetworkConfig,
}

impl Default for AppConfig {
    /// Every section at its default.
    fn default() -> (r: AppConfig)
        ensures
            r.server.http == 9898,
            r.server.address@ == "0.0.0.0"@,
            r.server.token@.len() == 0,
            r.persist.ban_logs_keep_days == 180,
            !r.btn.enabled,
            r.btn.submit,
            r.btn.config_url@ == "https://sparkle.ghostchu.com/ping/config"@,
            r.ip_database.auto_update,
            r.network.proxy@.len() == 0,
            r.network.proxy_targets == ProxyTargets::default_spec(),
    {
        AppConfig {
            server: ServerConfig::default(),
            persist: PersistConfig::default(),
            btn: BtnConfig::default(),
            ip_database: IpDatabaseConfig::default(),
            network: NetworkConfig::default(),
        }
    }
}

/// The web server.
#[derive(Debug, Clone)]
pub struct ServerConfig {
    /// The HTTP port.
    pub http: u16,
    /// The listen address.
    pub address: String,
    /// The API token; empty means one is generated at first start.
    pub token: String,
}

impl Default for ServerConfig {
    /// Port 9898 on all interfaces, no token yet.
    fn default() -> (r: ServerConfig)
        ensures
            r.http == 9898,
            r.address@ == "0.0.0.0"@,
            r.token@.len() == 0,
    {
        ServerConfig { http: 9898, address: "0.0.0.0".to_string(), token: String::new() }
    }
}

/// Persistence.
#[derive(Debug, Clone)]
pub struct PersistConfig {
    /// Days of ban history to keep.
    pub ban_logs_keep_days: i64,
}

impl Default for PersistConfig {
    /// 180 days of history.
    fn default() -> (r: PersistConfig)
        ensures
            r.ban_logs_keep_days == 180,
    {
        PersistConfig { ban_logs_keep_days: 180 }
    }
}

/// The BTN network.
#[derive(Debug, Clone)]
pub struct BtnConfig {
    pub enabled: bool,
    pub config_url: String,
    pub submit: bool,
    pub app_id: String,
    pub app_secret: String,
}

impl Default for BtnConfig {
    /// Off, submitting when on, the public configuration URL, no credentials.
    fn default() -> (r: BtnConfig)
        ensures
            !r.enabled,
            r.config_url@ == "https://sparkle.ghostchu.com/ping/config"@,
            r.submit,
            r.app_id@.len() == 0,
            r.app_secret@.len() == 0,
    {
        BtnConfig {
            enabled: false,
            config_url: "https://sparkle.ghostchu.com/ping/config".to_string(),
            submit: true,
            app_id: String::new(),
            app_secret: String::new(),
        }
    }
}

/// The GeoIP databases.
#[derive(Debug, Clone)]
pub struct IpDatabaseConfig {
    pub account_id: String,
    pub license_key: String,
    pub auto_update: bool,
}

impl Default for IpDatabaseConfig {
    /// No credentials, automatic updates on.
    fn default() -> (r: IpDatabaseConfig)
        ensures
            r.account_id@.len() == 0,
            r.license_key@.len() == 0,
            r.auto_update,
    {
        IpDatabaseConfig { account_id: String::new(), license_key: String::new(), auto_update: true }
    }
}

/// Outgoing connections.
#[derive(Debug, Clone)]
pub struct NetworkConfig {
    /// The proxy URL (http, https or socks5); empty means direct.
    pub proxy: String,
    /// Which kinds of request go through the proxy.
    pub proxy_targets: ProxyTargets,
}

impl Default for NetworkConfig {
    /// No proxy; the default kinds.
    fn default() -> (r: NetworkConfig)
        ensures
            r.proxy@.len() == 0,
            r.proxy_targets == ProxyTargets::default_spec(),
    {
        NetworkConfig { proxy: String::new(), proxy_targets: ProxyTargets::default() }
    }
}

/// Which kinds of outgoing request use the proxy. By default the targets
/// abroad (BTN, GeoIP, rule subscriptions, updates) do, and the public-IP
/// probe (a domestic service) does not.
#[derive(Debug, Clone, Copy, PartialEq, Eq, Structural)]
pub struct ProxyTargets {
    pub btn: bool,
    pub geoip: bool,
    pub rule_subscription: bool,
    pub update: bool,
    pub public_ip: bool,
}

impl ProxyTargets {
    /// The default kinds.
    pub open spec fn default_spec() -> ProxyTargets {
        ProxyTargets { btn: true, geoip: true, rule_subscription: true, update: true, public_ip: false }
    }
}

impl Default for ProxyTargets {
    /// Everything abroad through the proxy, the public-IP probe direct.
    fn default() -> (r: ProxyTargets)
        ensures
            r == ProxyTargets::default_spec(),
    {
        ProxyTargets { btn: true, geoip: true, rule_subscription: true, update: true, public_ip: false }
    }
}

/// A kind of outgoing request.
#[derive(Debug, Clone, Copy, PartialEq, Eq, Structural)]
pub enum ProxyTarget {
    Btn,
    Geoip,
    RuleSubscription,
    Update,
    PublicIp,
}

/// Whether `target` is one of the kinds that use the proxy.
pub open spec fn proxy_on(t: ProxyTargets, target: ProxyTarget) -> bool {
    match target {
        ProxyTarget::Btn => t.btn,
        ProxyTarget::Geoip => t.geoip,
        ProxyTarget::RuleSubscription => t.rule_subscription,
        ProxyTarget::Update => t.update,
        ProxyTarget::PublicIp => t.public_ip,
    }
}

impl NetworkConfig {
    /// The proxy for a kind of request: the proxy when the kind uses it,
    /// else the empty text (direct).
    pub fn proxy_for(&self, target: ProxyTarget) -> (r: &str)
        ensures
            r@ == (if proxy_on(self.proxy_targets, target) { self.proxy@ } else { Seq::<char>::empty() }),
    {
        let on = match target {
            ProxyTarget::Btn => self.proxy_targets.btn,
            ProxyTarget::Geoip => self.proxy_targets.geoip,
            ProxyTarget::RuleSubscription => self.proxy_targets.rule_subscription,
            ProxyTarget::Update => self.proxy_targets.update,
            ProxyTarget::PublicIp => self.proxy_targets.public_ip,
        };
        if on {
            self.proxy.as_str()
        } else {
            proof {
                reveal_strlit("");
            }
            ""
        }
    }
}

} // verus!

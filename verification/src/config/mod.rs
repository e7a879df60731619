//! Configuration: the infrastructure settings (`config.yml`), the ban
//! behaviour (`profile.yml`), and the layout of the data directory.

pub mod model;
pub mod paths;

use vstd::prelude::*;
use crate::engine::modules::{ConfValue, lookup, lookup_exec};

verus! {

/// The essential server settings.
#[derive(Debug, Clone)]
pub struct AppConfig {
    pub server_http: u16,
    pub server_address: String,
    pub server_token: String,
    pub allow_cors: bool,
}

impl Default for AppConfig {
    /// Port 9898 on all interfaces, no token, no CORS.
    fn default() -> (r: AppConfig)
        ensures
            r.server_http == 9898,
            r.server_address@ == "0.0.0.0"@,
            r.server_token@.len() == 0,
            !r.allow_cors,
    {
        AppConfig {
            server_http: 9898,
            server_address: "0.0.0.0".to_string(),
            server_token: String::new(),
            allow_cors: false,
        }
    }
}

/// The essential ban-behaviour settings.
#[derive(Debug)]
pub struct ProfileConfig {
    /// The interval of ban waves (ms).
    pub check_interval_ms: i64,
    /// The global default ban duration (ms).
    pub ban_duration_ms: i64,
    /// Peers from these addresses (CIDR or bare) are not checked.
    pub ignore_peers_from_addresses: Vec<String>,
    /// The module sections (`module.<config name>`), in the profile's order.
    pub module: Vec<(String, ConfValue)>,
}

impl ProfileConfig {
    /// The section of one module, if the profile has it.
    pub fn module_section(&self, config_name: &str) -> (r: Option<&ConfValue>)
        ensures
            match r {
                Some(v) => lookup(self.module@, config_name@) == Some(*v),
                None => lookup(self.module@, config_name@) is None,
            },
    {
        lookup_exec(&self.module, config_name)
    }
}

impl Default for ProfileConfig {
    /// A wave every 5 s, bans of 14 days, nothing ignored, no module sections.
    fn default() -> (r: ProfileConfig)
        ensures
            r.check_interval_ms == 5000,
            r.ban_duration_ms == 1_209_600_000,
            r.ignore_peers_from_addresses@.len() == 0,
            r.module@.len() == 0,
    {
        ProfileConfig {
            check_interval_ms: 5000,
            ban_duration_ms: 1_209_600_000,
            ignore_peers_from_addresses: Vec::new(),
            module: Vec::new(),
        }
    }
}

} // verus!

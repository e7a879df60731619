//! The BTN protocol's models (what the configuration and ruleset endpoints answer).

use vstd::prelude::*;

verus! {

/// The answer of the configuration endpoint; abilities are listed by name.
#[derive(Debug, Clone)]
pub struct BtnConfigResponse {
    pub min_protocol_version: Option<u32>,
    pub max_protocol_version: Option<u32>,
    pub ability: Vec<(String, AbilityConfig)>,
    pub proof_of_work_captcha: Option<PowEndpoint>,
}

impl BtnConfigResponse {
    /// The legacy protocol is used when the minimum version is below 20 (a
    /// missing minimum counts as 20).
    pub fn is_legacy(&self) -> (b: bool)
        ensures
            b == (match self.min_protocol_version {
                Some(v) => v < 20,
                None => false,
            }),
    {
        match self.min_protocol_version {
            Some(v) => v < 20,
            None => false,
        }
    }
}

/// The configuration of one ability.
#[derive(Debug, Clone)]
pub struct AbilityConfig {
    pub endpoint: Option<String>,
    pub interval: Option<i64>,
    pub random_initial_delay: Option<i64>,
    pub pow_captcha: bool,
    pub version: Option<String>,
}

/// Where captcha challenges are fetched.
#[derive(Debug, Clone)]
pub struct PowEndpoint {
    pub endpoint: String,
}

/// A ruleset: for each kind of rule, categories with their patterns.
#[derive(Debug, Clone, Default)]
pub struct BtnRuleset {
    pub version: Option<String>,
    pub peer_id: Vec<(String, Vec<String>)>,
    pub client_name: Vec<(String, Vec<String>)>,
    pub ip: Vec<(String, Vec<String>)>,
    pub port: Vec<(String, Vec<u32>)>,
}

/// What the BTN scheduler runs with.
#[derive(Debug, Clone)]
pub struct BtnRuntimeConfig {
    pub config_url: String,
    pub app_id: String,
    pub app_secret: String,
    pub installation_id: String,
    pub submit: bool,
    /// The duration of BTN bans.
    pub ban_duration: i64,
}

} // verus!

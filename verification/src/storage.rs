//! Rows read from and written to the database.

use vstd::prelude::*;

verus! {

/// One row of the ban history, as listed to the web UI.
#[derive(Debug, Clone)]
pub struct BanHistoryRow {
    pub id: i64,
    pub ban_at: i64,
    pub unban_at: i64,
    pub ip: String,
    pub port: i64,
    pub peer_id: Option<String>,
    pub client_name: Option<String>,
    pub module_name: String,
    pub rule_name: String,
    pub description: String,
    pub downloader: String,
}

/// What is stored of one address-list subscription.
#[derive(Debug, Clone)]
pub struct RuleSubInfo {
    pub rule_id: String,
    pub enabled: bool,
    pub rule_name: String,
    pub sub_url: String,
    pub last_update: Option<i64>,
    pub ent_count: Option<i64>,
}

/// One update of an address-list subscription.
#[derive(Debug, Clone)]
pub struct RuleSubLog {
    pub id: i64,
    pub rule_id: String,
    pub update_time: i64,
    pub count: i64,
    pub update_type: String,
}

} // verus!

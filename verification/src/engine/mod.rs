//! The ban engine: the ban list and the logic that decides and records bans.

pub mod ban_list;
pub mod ban_manager;
pub mod auto_range_ban;
pub mod ip_blacklist;
pub mod ip_rule_list;
pub mod pcb;
pub mod modules;
pub mod nat_address;
pub mod ptr;
pub mod wave;

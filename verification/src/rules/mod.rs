//! Peer rules: string matchers, rule sets, the rule modules and the address matcher.

pub mod matcher;
pub mod ip_matcher;
pub mod module;
pub mod idle;
pub mod multi_dial;

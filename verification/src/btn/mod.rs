//! The BitTorrent threat network (BTN): identifiers, captcha, the protocol
//! models and the online rule module.

pub mod hash;
pub mod pow;
pub mod model;
pub mod online;
pub mod schedule;
pub mod headers;

//! PeerBanHelper core: peer ban decisions, rule matching, ban lists and the
//! small pure helpers around them, stated and proved with Verus.

pub mod domain;
pub mod text;
pub mod ip;
pub mod ip_table;
pub mod rules;
pub mod engine;
pub mod geoip;
pub mod i18n;
pub mod downloader;
pub mod btn;
pub mod config;
pub mod web;
pub mod notify;
pub mod storage;

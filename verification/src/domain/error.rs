//! The top-level error of the application.

use vstd::prelude::*;
use crate::text::{push_str, string_from_chars};

verus! {

/// An error of the application, by area.
#[derive(Debug, Clone, PartialEq, Eq)]
pub enum PbhError {
    /// Loading or checking the configuration.
    Config(String),
    /// Talking to a downloader (login, fetching, banning).
    Downloader(String),
    /// The database.
    Storage(String),
    /// Network and HTTP (BTN included).
    Network(String),
    /// Anything else.
    Other(String),
}

impl PbhError {
    /// The text of the error: its area, then the message (`Other`: the message alone).
    pub fn message(&self) -> (r: String)
        ensures
            r@ == match self {
                PbhError::Config(m) => "config error: "@ + m@,
                PbhError::Downloader(m) => "downloader error: "@ + m@,
                PbhError::Storage(m) => "storage error: "@ + m@,
                PbhError::Network(m) => "network error: "@ + m@,
                PbhError::Other(m) => m@,
            },
    {
        let mut v: Vec<char> = Vec::new();
        match self {
            PbhError::Config(m) => {
                push_str(&mut v, "config error: ");
                push_str(&mut v, m.as_str());
            },
            PbhError::Downloader(m) => {
                push_str(&mut v, "downloader error: ");
                push_str(&mut v, m.as_str());
            },
            PbhError::Storage(m) => {
                push_str(&mut v, "storage error: ");
                push_str(&mut v, m.as_str());
            },
            PbhError::Network(m) => {
                push_str(&mut v, "network error: ");
                push_str(&mut v, m.as_str());
            },
            PbhError::Other(m) => {
                push_str(&mut v, m.as_str());
            },
        }
        string_from_chars(&v)
    }
}

} // verus!

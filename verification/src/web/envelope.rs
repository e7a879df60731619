//! The response envelope of the web API and its pages of results.

use vstd::prelude::*;
use crate::text::{chars_of, string_from_chars};

verus! {

/// The standard response: `{ success, message, data }`.
#[derive(Debug, Clone)]
pub struct StdResp<T> {
    pub success: bool,
    pub message: Option<String>,
    pub data: Option<T>,
}

impl<T> StdResp<T> {
    /// A success carrying `data`.
    pub fn ok(data: T) -> (r: StdResp<T>)
        ensures
            r.success,
            r.message is None,
            r.data == Some(data),
    {
        StdResp { success: true, message: None, data: Some(data) }
    }

    /// A success with a message and optional data.
    pub fn ok_msg(message: &str, data: Option<T>) -> (r: StdResp<T>)
        ensures
            r.success,
            r.message matches Some(m) && m@ == message@,
            r.data == data,
    {
        StdResp { success: true, message: Some(string_from_chars(&chars_of(message))), data }
    }

    /// A failure with a message and no data.
    pub fn err(message: &str) -> (r: StdResp<T>)
        ensures
            !r.success,
            r.message matches Some(m) && m@ == message@,
            r.data is None,
    {
        StdResp { success: false, message: Some(string_from_chars(&chars_of(message))), data: None }
    }
}

/// A page of results (`?page=` from 1, `&pageSize=` default 10).
#[derive(Debug, Clone)]
pub struct PbhPage<T> {
    pub page: i64,
    pub size: i64,
    pub total: i64,
    pub results: Vec<T>,
}

} // verus!

//! The fixed headers of every BTN request: the client identity, and either
//! the account credentials or, without an account, the installation id.

use vstd::prelude::*;
use crate::text::{push_str, str_eq, string_from_chars};

verus! {

/// The BTN protocol version this client implements.
pub const PROTOCOL_IMPL_VERSION: u32 = 20;

/// The readable BTN protocol version.
pub const PROTOCOL_READABLE_VERSION: &'static str = "2.0.1";

/// A credential left at its placeholder (empty or an example value).
pub open spec fn is_example(s: Seq<char>) -> bool {
    s.len() == 0 || s == "example"@ || s == "your_app_id"@ || s == "your_app_secret"@
}

fn placeholder(s: &str) -> (b: bool)
    ensures
        b == is_example(s@),
{
    s.is_empty() || str_eq(s, "example") || str_eq(s, "your_app_id") || str_eq(s, "your_app_secret")
}

/// Without a real account (either credential a placeholder) the client
/// identifies itself by its installation id.
pub fn is_anonymous(app_id: &str, app_secret: &str) -> (b: bool)
    ensures
        b == (is_example(app_id@) || is_example(app_secret@)),
{
    placeholder(app_id) || placeholder(app_secret)
}

/// The headers, name and value, as mathematical values.
pub open spec fn headers_view(h: Seq<(String, String)>) -> Seq<(Seq<char>, Seq<char>)> {
    h.map_values(|p: (String, String)| (p.0@, p.1@))
}

/// The fixed headers of a BTN request.
pub open spec fn headers_spec(app_id: Seq<char>, app_secret: Seq<char>, installation_id: Seq<char>,
    version: Seq<char>) -> Seq<(Seq<char>, Seq<char>)>
{
    let base = seq![
        ("user-agent"@, "PeerBanHelper-Rust/"@ + version + "/BTN-Protocol/2.0.1/20"@),
        ("content-type"@, "application/json"@),
    ];
    if is_example(app_id) || is_example(app_secret) {
        base.push(("X-BTN-InstallationID"@, installation_id))
    } else {
        base + seq![
            ("X-BTN-AppID"@, app_id),
            ("X-BTN-AppSecret"@, app_secret),
            ("BTN-AppID"@, app_id),
            ("BTN-AppSecret"@, app_secret),
            ("Authentication"@, "Bearer "@ + app_id + "@"@ + app_secret),
        ]
    }
}

fn s3(a: &str, b: &str, c: &str) -> (r: String)
    ensures
        r@ == a@ + b@ + c@,
{
    let mut v: Vec<char> = Vec::new();
    push_str(&mut v, a);
    push_str(&mut v, b);
    push_str(&mut v, c);
    string_from_chars(&v)
}

fn s4(a: &str, b: &str, c: &str, d: &str) -> (r: String)
    ensures
        r@ == a@ + b@ + c@ + d@,
{
    let mut v: Vec<char> = Vec::new();
    push_str(&mut v, a);
    push_str(&mut v, b);
    push_str(&mut v, c);
    push_str(&mut v, d);
    string_from_chars(&v)
}

/// The fixed headers of a BTN request, by name and value; `version` is the
/// client's own version.
pub fn btn_headers(app_id: &str, app_secret: &str, installation_id: &str, version: &str)
    -> (r: Vec<(String, String)>)
    ensures
        headers_view(r@) == headers_spec(app_id@, app_secret@, installation_id@, version@),
{
    let mut h: Vec<(String, String)> = Vec::new();
    let ua = s3("PeerBanHelper-Rust/", version, "/BTN-Protocol/2.0.1/20");
    h.push(("user-agent".to_owned(), ua));
    h.push(("content-type".to_owned(), "application/json".to_owned()));
    if is_anonymous(app_id, app_secret) {
        h.push(("X-BTN-InstallationID".to_owned(), installation_id.to_owned()));
    } else {
        h.push(("X-BTN-AppID".to_owned(), app_id.to_owned()));
        h.push(("X-BTN-AppSecret".to_owned(), app_secret.to_owned()));
        h.push(("BTN-AppID".to_owned(), app_id.to_owned()));
        h.push(("BTN-AppSecret".to_owned(), app_secret.to_owned()));
        h.push(("Authentication".to_owned(), s4("Bearer ", app_id, "@", app_secret)));
    }
    assert(headers_view(h@) =~= headers_spec(app_id@, app_secret@, installation_id@, version@));
    h
}

} // verus!

//! GeoIP: the data a lookup gives, and the rules for fetching the databases.

use vstd::prelude::*;
use crate::text::push_str;
use crate::text::string_from_chars;
use crate::ip::IpAddress;

verus! {

/// How old a database may grow before it is fetched again: 45 days.
pub const UPDATE_INTERVAL_MS: u128 = 3_888_000_000;

/// What a GeoIP lookup knows of an address; every field may be missing.
#[derive(Debug, Clone)]
pub struct IpGeoData {
    pub country_iso: Option<String>,
    pub country_name: Option<String>,
    pub city_name: Option<String>,
    pub asn: Option<u32>,
    pub as_organization: Option<String>,
    /// The Chinese network type (from the GeoCN database).
    pub net_type: Option<String>,
    pub cn_province: Option<String>,
    pub cn_city: Option<String>,
}

/// A source of GeoIP data, such as a set of MaxMind databases. `None`: the
/// source knows nothing of the address.
pub trait GeoIpProvider {
    fn query(&self, ip: IpAddress) -> Option<IpGeoData>;
}

/// A GeoCN record: network type and region, each optional.
#[derive(Debug, Clone)]
pub struct GeoCnRecord {
    pub net: Option<String>,
    pub province: Option<String>,
    pub city: Option<String>,
}

/// The mirrors the databases are fetched from, tried in this order.
pub fn mirrors() -> (r: Vec<&'static str>)
    ensures
        r@ == seq![
            "https://github.com/PBH-BTN/GeoLite.mmdb/releases/latest/download/",
            "https://pbh-static.paulzzh.com/ipdb/",
            "https://pbh-static.ghostchu.com/ipdb/",
        ],
{
    vec![
        "https://github.com/PBH-BTN/GeoLite.mmdb/releases/latest/download/",
        "https://pbh-static.paulzzh.com/ipdb/",
        "https://pbh-static.ghostchu.com/ipdb/",
    ]
}

/// The database files that are needed.
pub fn files() -> (r: Vec<&'static str>)
    ensures
        r@ == seq!["GeoIP-City.mmdb", "GeoIP-ASN.mmdb", "GeoCN.mmdb"],
{
    vec!["GeoIP-City.mmdb", "GeoIP-ASN.mmdb", "GeoCN.mmdb"]
}

/// The download URL of `file` on `mirror`: the two texts joined.
pub fn url_for(mirror: &str, file: &str) -> (r: String)
    ensures
        r@ == mirror@ + file@,
{
    let mut v: Vec<char> = Vec::new();
    push_str(&mut v, mirror);
    push_str(&mut v, file);
    string_from_chars(&v)
}

/// Whether a database file must be fetched: when it does not exist, or when
/// automatic updates are on and its age (if it can be told) exceeds the interval.
pub fn download_due(present: bool, auto_update: bool, age_ms: Option<u128>) -> (b: bool)
    ensures
        b == (!present || (auto_update && age_ms is Some && age_ms->0 > UPDATE_INTERVAL_MS)),
{
    if !present {
        return true;
    }
    if !auto_update {
        return false;
    }
    match age_ms {
        Some(a) => a > UPDATE_INTERVAL_MS,
        None => false,
    }
}

/// How one download attempt ended.
#[derive(Debug, Clone, Copy, PartialEq, Eq, Structural)]
pub enum FetchOutcome {
    /// The file was fetched and written.
    Saved,
    /// The mirror answered 401.
    Unauthorized,
    /// Anything else went wrong.
    Failed,
}

/// What to do next when fetching a database.
#[derive(Debug, Clone, Copy, PartialEq, Eq, Structural)]
pub enum FetchStep {
    /// Ask mirror `mirror`, with the MaxMind credentials or without.
    Try { mirror: usize, with_auth: bool },
    /// Stop: whether the file was fetched.
    Done(bool),
}

/// The first attempt: the first mirror, without credentials (none when
/// there is no mirror).
pub fn first_fetch_step(mirror_count: usize) -> (r: FetchStep)
    ensures
        r == (if mirror_count == 0 { FetchStep::Done(false) } else { FetchStep::Try { mirror: 0, with_auth: false } }),
{
    if mirror_count == 0 {
        FetchStep::Done(false)
    } else {
        FetchStep::Try { mirror: 0, with_auth: false }
    }
}

/// The step after an attempt (see `next_fetch_step`).
pub open spec fn next_step_spec(mirror: usize, with_auth: bool, outcome: FetchOutcome, has_credentials: bool,
    mirror_count: usize) -> FetchStep
{
    if outcome == FetchOutcome::Saved {
        FetchStep::Done(true)
    } else if outcome == FetchOutcome::Unauthorized && !with_auth && has_credentials {
        FetchStep::Try { mirror, with_auth: true }
    } else if mirror + 1 < mirror_count {
        FetchStep::Try { mirror: (mirror + 1) as usize, with_auth: false }
    } else {
        FetchStep::Done(false)
    }
}

/// The step after an attempt on mirror `mirror`: done once the file is
/// saved; a mirror that answers 401 without credentials is asked again with
/// them, when there are any; otherwise the next mirror, until none is left.
pub fn next_fetch_step(mirror: usize, with_auth: bool, outcome: FetchOutcome, has_credentials: bool,
    mirror_count: usize) -> (r: FetchStep)
    requires
        mirror < mirror_count,
    ensures
        r == next_step_spec(mirror, with_auth, outcome, has_credentials, mirror_count),
{
    match outcome {
        FetchOutcome::Saved => FetchStep::Done(true),
        FetchOutcome::Unauthorized if !with_auth && has_credentials => FetchStep::Try { mirror, with_auth: true },
        _ => if mirror + 1 < mirror_count {
            FetchStep::Try { mirror: mirror + 1, with_auth: false }
        } else {
            FetchStep::Done(false)
        },
    }
}

/// How many attempts at most are left from an attempt on `mirror`.
pub open spec fn attempts_left(mirror: int, with_auth: bool, mirror_count: int) -> int {
    2 * (mirror_count - mirror) - if with_auth { 1int } else { 0int }
}

/// Fetching ends: every step after an attempt leaves fewer attempts, so no
/// mirror is asked more than twice, and credentials are sent to a mirror
/// only after it answered 401.
pub proof fn lemma_fetch_steps_advance(mirror: usize, with_auth: bool, outcome: FetchOutcome, has_credentials: bool,
    mirror_count: usize)
    requires
        mirror < mirror_count,
    ensures
        ({
            let r = next_step_spec(mirror, with_auth, outcome, has_credentials, mirror_count);
            &&& r matches FetchStep::Try { mirror: m2, with_auth: a2 } ==> m2 < mirror_count
                && 0 <= attempts_left(m2 as int, a2, mirror_count as int)
                    < attempts_left(mirror as int, with_auth, mirror_count as int)
            &&& r matches FetchStep::Try { mirror: m2, with_auth: true } ==> m2 == mirror
                && outcome == FetchOutcome::Unauthorized
        }),
{
}

} // verus!

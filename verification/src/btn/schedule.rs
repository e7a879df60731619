//! The decisions of the BTN scheduler: when an ability is due, what it does,
//! when the configuration must be fetched again, and the submit cursor.

use vstd::prelude::*;
use crate::btn::model::AbilityConfig;
use crate::text::{chars_of, parse_i64, parse_i64_spec, str_eq};

verus! {

/// The interval of an ability that names none (one hour).
pub const DEFAULT_ABILITY_INTERVAL_MS: i64 = 3_600_000;

/// No ability runs more often than this.
pub const MIN_ABILITY_INTERVAL_MS: i64 = 1000;

/// How long a fetched configuration is used before it is fetched again.
pub const CONFIG_MAX_AGE_MS: i64 = 3_600_000;

/// How many ban records one submission carries at most.
pub const SUBMIT_PAGE_SIZE: i64 = 100;

/// What an ability does when it runs.
#[derive(Debug, Clone, Copy, PartialEq, Eq, Structural)]
pub enum AbilityAction {
    /// Fetch the peer rules and apply them.
    FetchRules,
    /// Fetch the address denylist and apply it.
    FetchDenylist,
    /// Fetch the address allowlist and apply it.
    FetchAllowlist,
    /// Submit the bans recorded since the cursor.
    SubmitBans,
    /// An ability this client does not implement (or submission is off).
    Nothing,
}

/// The outcome of looking at one ability in one scheduler round.
#[derive(Debug, Clone, Copy, PartialEq, Eq, Structural)]
pub enum AbilityTick {
    /// Its interval has not passed since it last ran.
    NotDue,
    /// It is due but names no endpoint: skipped, and still due next round.
    NoEndpoint,
    /// It runs now (and `now` becomes its last run).
    Run(AbilityAction),
}

/// The effective interval of an ability.
pub open spec fn interval_spec(interval: Option<i64>) -> int {
    let i: int = match interval {
        Some(i) => i as int,
        None => DEFAULT_ABILITY_INTERVAL_MS as int,
    };
    if i < MIN_ABILITY_INTERVAL_MS { MIN_ABILITY_INTERVAL_MS as int } else { i }
}

/// The effective interval of an ability: the one it names (an hour if none),
/// never below a second.
pub fn ability_interval(interval: Option<i64>) -> (r: i64)
    ensures
        r == interval_spec(interval),
{
    let i = match interval {
        Some(i) => i,
        None => DEFAULT_ABILITY_INTERVAL_MS,
    };
    if i < MIN_ABILITY_INTERVAL_MS { MIN_ABILITY_INTERVAL_MS } else { i }
}

/// An ability is due when it never ran, or when `interval` has passed since.
pub open spec fn due_spec(last: Option<i64>, now: i64, interval: int) -> bool {
    match last {
        None => true,
        Some(t) => now - t >= interval,
    }
}

/// Whether an ability that last ran at `last` is due at `now`.
pub fn ability_due(last: Option<i64>, now: i64, interval: i64) -> (r: bool)
    ensures
        r == due_spec(last, now, interval as int),
{
    match last {
        None => true,
        Some(t) => (now as i128) - (t as i128) >= interval as i128,
    }
}

/// What the ability named `key` does.
pub open spec fn action_spec(key: Seq<char>, submit: bool) -> AbilityAction {
    if key == "rule_peer_identity"@ || key == "rules"@ {
        AbilityAction::FetchRules
    } else if key == "ip_denylist"@ {
        AbilityAction::FetchDenylist
    } else if key == "ip_allowlist"@ {
        AbilityAction::FetchAllowlist
    } else if key == "submit_bans"@ && submit {
        AbilityAction::SubmitBans
    } else {
        AbilityAction::Nothing
    }
}

/// What the ability named `key` does (`submit`: whether bans are submitted).
pub fn ability_action(key: &str, submit: bool) -> (r: AbilityAction)
    ensures
        r == action_spec(key@, submit),
{
    if str_eq(key, "rule_peer_identity") || str_eq(key, "rules") {
        AbilityAction::FetchRules
    } else if str_eq(key, "ip_denylist") {
        AbilityAction::FetchDenylist
    } else if str_eq(key, "ip_allowlist") {
        AbilityAction::FetchAllowlist
    } else if str_eq(key, "submit_bans") && submit {
        AbilityAction::SubmitBans
    } else {
        AbilityAction::Nothing
    }
}

/// The outcome for one ability in a round.
pub open spec fn tick_spec(key: Seq<char>, ability: AbilityConfig, last: Option<i64>, now: i64,
    submit: bool) -> AbilityTick
{
    if !due_spec(last, now, interval_spec(ability.interval)) {
        AbilityTick::NotDue
    } else if ability.endpoint is None {
        AbilityTick::NoEndpoint
    } else {
        AbilityTick::Run(action_spec(key, submit))
    }
}

/// Looks at one ability in a scheduler round: not due, due without an
/// endpoint, or run with its action.
pub fn ability_tick(key: &str, ability: &AbilityConfig, last: Option<i64>, now: i64, submit: bool)
    -> (r: AbilityTick)
    ensures
        r == tick_spec(key@, *ability, last, now, submit),
{
    let interval = ability_interval(ability.interval);
    if !ability_due(last, now, interval) {
        return AbilityTick::NotDue;
    }
    match &ability.endpoint {
        None => AbilityTick::NoEndpoint,
        Some(_) => AbilityTick::Run(ability_action(key, submit)),
    }
}

/// Whether a configuration fetched at `started` must be fetched again at `now`.
pub fn config_stale(started: i64, now: i64) -> (r: bool)
    ensures
        r == (now - started > CONFIG_MAX_AGE_MS),
{
    (now as i128) - (started as i128) > CONFIG_MAX_AGE_MS as i128
}

/// The stored submit cursor: the number stored, or 0 when nothing (or no
/// number) is stored.
pub open spec fn cursor_spec(stored: Option<Seq<char>>) -> int {
    match stored {
        Some(s) => match parse_i64_spec(s) {
            Some(x) => x,
            None => 0,
        },
        None => 0,
    }
}

/// Reads the submit cursor from its stored text.
pub fn submit_cursor(stored: Option<String>) -> (r: i64)
    ensures
        r == cursor_spec(match stored { Some(s) => Some(s@), None => None }),
{
    match stored {
        None => 0,
        Some(s) => {
            let v = chars_of(s.as_str());
            proof { assert(v@.subrange(0, v@.len() as int) =~= s@); }
            match parse_i64(&v, 0, v.len()) {
                Some(x) => x,
                None => 0,
            }
        },
    }
}

/// The cursor after submitting the records with ids `ids`: their largest id
/// (the old cursor when there are none).
pub fn next_cursor(ids: &Vec<i64>, cursor: i64) -> (r: i64)
    ensures
        ids@.len() == 0 ==> r == cursor,
        ids@.len() > 0 ==> ids@.contains(r) && forall|i: int| 0 <= i < ids@.len() ==> ids@[i] <= r,
{
    if ids.len() == 0 {
        return cursor;
    }
    let mut best = ids[0];
    let mut k: usize = 1;
    assert(ids@.subrange(0, 1)[0] == best);
    while k < ids.len()
        invariant
            1 <= k <= ids@.len(),
            ids@.subrange(0, k as int).contains(best),
            forall|i: int| 0 <= i < k ==> ids@[i] <= best,
        decreases ids@.len() - k,
    {
        if ids[k] > best {
            best = ids[k];
            assert(ids@.subrange(0, k + 1)[k as int] == best);
        } else {
            let ghost j = choose|j: int| 0 <= j < k && ids@.subrange(0, k as int)[j] == best;
            assert(ids@.subrange(0, k + 1)[j] == best);
        }
        k += 1;
    }
    assert(ids@.subrange(0, ids@.len() as int) =~= ids@);
    best
}

} // verus!

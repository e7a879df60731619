//! The reverse-DNS (PTR) blacklist: bans peers whose address resolves to a
//! name that matches the rules.
//!
//! Resolving is network I/O, so a peer's name is looked up in the background
//! and checked in a later wave: the first sight of an address passes and asks
//! for a lookup; later waves judge the cached answer.

use vstd::prelude::*;
use crate::domain::ban::{CheckResult, PeerAction};
use crate::domain::peer::Peer;
use crate::rules::matcher::{MatchOutcome, RuleSet, match_spec};
use crate::text::{chars_of, push_str, string_from_chars};

verus! {

/// The module's name in results.
pub open spec fn ptr_module() -> &'static str {
    "PTRBlacklist"
}

/// The PTR blacklist: its rules and how long a ban lasts.
pub struct PtrBlacklist {
    pub rules: RuleSet,
    pub ban_duration: i64,
}

/// `s` without its trailing dots (a fully qualified name ends in one).
pub open spec fn without_trailing_dots(s: Seq<char>) -> Seq<char>
    decreases s.len(),
{
    if s.len() > 0 && s.last() == '.' {
        without_trailing_dots(s.drop_last())
    } else {
        s
    }
}

/// The name of a PTR record as the rules see it: the resolver's text without
/// its trailing dots.
pub fn ptr_name(raw: &str) -> (r: String)
    ensures
        r@ == without_trailing_dots(raw@),
{
    let v = chars_of(raw);
    let mut end = v.len();
    assert(v@.subrange(0, end as int) =~= raw@);
    while end > 0 && v[end - 1] == '.'
        invariant
            end <= v@.len(),
            v@ == raw@,
            without_trailing_dots(v@.subrange(0, end as int)) == without_trailing_dots(raw@),
        decreases end,
    {
        assert(v@.subrange(0, end as int).drop_last() =~= v@.subrange(0, end - 1));
        end = end - 1;
    }
    let mut out: Vec<char> = Vec::new();
    let mut i: usize = 0;
    while i < end
        invariant
            i <= end <= v@.len(),
            out@ == v@.subrange(0, i as int),
        decreases end - i,
    {
        out.push(v[i]);
        assert(out@ =~= v@.subrange(0, i + 1));
        i += 1;
    }
    proof {
        let p = v@.subrange(0, end as int);
        assert(!(p.len() > 0 && p.last() == '.'));
        assert(without_trailing_dots(p) == p);
    }
    string_from_chars(&out)
}

/// The verdict on a resolved PTR name (`None`: the address has no PTR record).
pub open spec fn judge_spec(m: PtrBlacklist, ptr: Option<Seq<char>>, r: CheckResult) -> bool {
    &&& r.module == ptr_module()
    &&& match ptr {
        Some(n) if match_spec(m.rules.rules@, n) == MatchOutcome::True => {
            &&& r.action == PeerAction::Ban
            &&& r.duration_ms == m.ban_duration
            &&& r.rule@ == "ptr-blacklist"@
            &&& r.reason@ == "PTR "@ + n + " 命中黑名单"@
        },
        _ => r.action == PeerAction::NoAction && r.duration_ms == 0,
    }
}

/// `None` for `None`, the view of the name otherwise.
pub open spec fn opt_view(p: Option<&str>) -> Option<Seq<char>> {
    match p {
        Some(s) => Some(s@),
        None => None,
    }
}

impl PtrBlacklist {
    /// A module with the given rules and ban duration.
    pub fn new(rules: RuleSet, ban_duration: i64) -> (r: PtrBlacklist)
        ensures
            r.rules == rules,
            r.ban_duration == ban_duration,
    {
        PtrBlacklist { rules, ban_duration }
    }

    /// The module's name.
    pub fn name(&self) -> (r: &'static str)
        ensures
            r == ptr_module(),
    {
        "PTRBlacklist"
    }

    /// The module's key in the profile.
    pub fn config_name(&self) -> (r: &'static str)
        ensures
            r@ == "ptr-blacklist"@,
    {
        "ptr-blacklist"
    }

    /// Judges a resolved name: a name that matches the rules is banned; no
    /// record, or a name that does not match, passes.
    pub fn judge(&self, ptr: Option<&str>) -> (r: CheckResult)
        ensures
            judge_spec(*self, opt_view(ptr), r),
    {
        match ptr {
            Some(name) => {
                if self.rules.match_input(name) == MatchOutcome::True {
                    let mut v: Vec<char> = Vec::new();
                    push_str(&mut v, "PTR ");
                    push_str(&mut v, name);
                    push_str(&mut v, " 命中黑名单");
                    CheckResult {
                        module: "PTRBlacklist",
                        action: PeerAction::Ban,
                        duration_ms: self.ban_duration,
                        rule: "ptr-blacklist".to_string(),
                        reason: string_from_chars(&v),
                    }
                } else {
                    CheckResult::pass("PTRBlacklist")
                }
            },
            None => CheckResult::pass("PTRBlacklist"),
        }
    }

    /// Checks a peer against what the cache holds for its address (`None`: not
    /// resolved yet; `Some(None)`: resolved, no record). Returns the verdict
    /// and whether a lookup of the address must be started. A handshaking
    /// peer passes; an address not resolved yet passes and asks for a lookup.
    pub fn should_ban_cached(&self, peer: &Peer, cached: Option<Option<&str>>)
        -> (r: (CheckResult, bool))
        ensures
            (peer.upload_speed <= 0 && peer.download_speed <= 0) ==> r.0.module == ptr_module()
                && r.0.action == PeerAction::NoAction && !r.1,
            !(peer.upload_speed <= 0 && peer.download_speed <= 0) ==> match cached {
                Some(p) => judge_spec(*self, opt_view(p), r.0) && !r.1,
                None => r.0.module == ptr_module() && r.0.action == PeerAction::NoAction
                    && r.1,
            },
    {
        if peer.is_handshaking() {
            return (CheckResult::pass("PTRBlacklist"), false);
        }
        match cached {
            Some(p) => (self.judge(p), false),
            None => (CheckResult::pass("PTRBlacklist"), true),
        }
    }
}

} // verus!

use vstd::prelude::*;
use crate::domain::peer::PeerAddress;
use crate::text::{chars_of, string_from_chars};

verus! {

/// What one module decides for one peer.
///
/// The variants are ordered by priority: `NoAction < BanForDisconnect < Ban < Skip`.
/// When results of several modules are merged, the one of higher priority wins.
#[derive(Debug, Clone, Copy, PartialEq, Eq, PartialOrd, Ord, Hash, Structural)]
pub enum PeerAction {
    /// Leave the peer alone.
    NoAction,
    /// A short ban that only forces a disconnect.
    BanForDisconnect,
    /// Ban the peer.
    Ban,
    /// Explicitly let the peer through, overriding every other module.
    Skip,
}

impl PeerAction {
    /// The priority of an action, as an integer.
    pub open spec fn rank(self) -> int {
        match self {
            PeerAction::NoAction => 0,
            PeerAction::BanForDisconnect => 1,
            PeerAction::Ban => 2,
            PeerAction::Skip => 3,
        }
    }

    /// The priority of an action.
    pub fn priority(&self) -> (r: u8)
        ensures
            r as int == self.rank(),
    {
        match self {
            PeerAction::NoAction => 0,
            PeerAction::BanForDisconnect => 1,
            PeerAction::Ban => 2,
            PeerAction::Skip => 3,
        }
    }
}

impl Default for PeerAction {
    /// No action.
    fn default() -> (r: PeerAction)
        ensures
            r == PeerAction::NoAction,
    {
        PeerAction::NoAction
    }
}

/// The result of one rule check.
#[derive(Debug, Clone)]
pub struct CheckResult {
    /// The module that produced the result.
    pub module: &'static str,
    /// The decided action.
    pub action: PeerAction,
    /// Ban duration in milliseconds; `0` means the global default.
    pub duration_ms: i64,
    /// The rule that matched.
    pub rule: String,
    /// Human readable reason.
    pub reason: String,
}

/// The result that `merge` picks out of `a` and `b`: the higher priority wins,
/// and on equal priority the longer duration, with ties going to `a`.
pub open spec fn merge_pick(a: CheckResult, b: CheckResult) -> CheckResult {
    if a.action.rank() < b.action.rank() {
        b
    } else if a.action.rank() > b.action.rank() {
        a
    } else if b.duration_ms > a.duration_ms {
        b
    } else {
        a
    }
}

impl CheckResult {
    /// The "no action" result of a module.
    pub fn pass(module: &'static str) -> (r: CheckResult)
        ensures
            r.module == module,
            r.action == PeerAction::NoAction,
            r.duration_ms == 0,
            r.rule@.len() == 0,
            r.reason@.len() == 0,
    {
        CheckResult {
            module,
            action: PeerAction::NoAction,
            duration_ms: 0,
            rule: String::new(),
            reason: String::new(),
        }
    }

    /// Merges two results: the higher priority action wins; on equal priority
    /// the longer duration wins, and on equal duration `self` is kept.
    pub fn merge(self, other: CheckResult) -> (r: CheckResult)
        ensures
            r == merge_pick(self, other),
    {
        let a = self.action.priority();
        let b = other.action.priority();
        if a < b {
            other
        } else if a > b {
            self
        } else if other.duration_ms > self.duration_ms {
            other
        } else {
            self
        }
    }
}

/// The merged result always carries the higher of the two priorities, and it is
/// one of the two inputs.
pub proof fn lemma_merge_takes_max_priority(a: CheckResult, b: CheckResult)
    ensures
        merge_pick(a, b).action.rank() == if a.action.rank() >= b.action.rank() {
            a.action.rank()
        } else {
            b.action.rank()
        },
        merge_pick(a, b) == a || merge_pick(a, b) == b,
{
}

/// Merging is associative, so folding the results of several modules in order
/// does not depend on how the folds are grouped.
pub proof fn lemma_merge_associative(a: CheckResult, b: CheckResult, c: CheckResult)
    ensures
        merge_pick(merge_pick(a, b), c) == merge_pick(a, merge_pick(b, c)),
{
}

/// A `Skip` result absorbs every other result, on either side.
pub proof fn lemma_merge_skip_absorbs(a: CheckResult, s: CheckResult)
    requires
        s.action == PeerAction::Skip,
    ensures
        merge_pick(a, s).action == PeerAction::Skip,
        merge_pick(s, a).action == PeerAction::Skip,
{
}

/// The record kept for one ban.
#[derive(Debug, Clone)]
pub struct BanMetadata {
    /// The module that banned the peer.
    pub context: String,
    /// A random id of the ban.
    pub random_id: String,
    /// The banned peer.
    pub peer: PeerAddress,
    /// When the ban began (epoch milliseconds).
    pub ban_at: i64,
    /// When the ban ends (epoch milliseconds).
    pub unban_at: i64,
    /// A short ban that only forces a disconnect.
    pub ban_for_disconnect: bool,
    pub exclude_from_report: bool,
    pub exclude_from_display: bool,
    pub rule: String,
    pub description: String,
}

/// A copy of a string.
pub fn copy_string(s: &String) -> (r: String)
    ensures
        r@ == s@,
{
    let v = chars_of(s.as_str());
    string_from_chars(&v)
}

impl BanMetadata {
    /// Two records hold the same values.
    pub open spec fn same(self, o: BanMetadata) -> bool {
        &&& self.context@ == o.context@
        &&& self.random_id@ == o.random_id@
        &&& self.peer.ip == o.peer.ip
        &&& self.peer.port == o.peer.port
        &&& self.peer.raw_ip@ == o.peer.raw_ip@
        &&& self.ban_at == o.ban_at
        &&& self.unban_at == o.unban_at
        &&& self.ban_for_disconnect == o.ban_for_disconnect
        &&& self.exclude_from_report == o.exclude_from_report
        &&& self.exclude_from_display == o.exclude_from_display
        &&& self.rule@ == o.rule@
        &&& self.description@ == o.description@
    }

    /// A copy of the record.
    pub fn duplicate(&self) -> (r: BanMetadata)
        ensures
            r.same(*self),
    {
        BanMetadata {
            context: copy_string(&self.context),
            random_id: copy_string(&self.random_id),
            peer: self.peer.duplicate(),
            ban_at: self.ban_at,
            unban_at: self.unban_at,
            ban_for_disconnect: self.ban_for_disconnect,
            exclude_from_report: self.exclude_from_report,
            exclude_from_display: self.exclude_from_display,
            rule: copy_string(&self.rule),
            description: copy_string(&self.description),
        }
    }
}

} // verus!

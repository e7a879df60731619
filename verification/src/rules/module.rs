//! The rule-module interface and the modules that need nothing but the peer:
//! the peer-id blacklist, the client-name blacklist and the anti-vampire preset.

use vstd::prelude::*;
use crate::domain::ban::{CheckResult, PeerAction};
use crate::domain::peer::Peer;
use crate::domain::torrent::Torrent;
use crate::ip::IpAddress;
use crate::rules::matcher::{MatchOutcome, RuleSet, match_spec};
use crate::text::{chars_of, lowercase, push_str, string_from_chars, starts_with_spec, contains_spec,
    starts_with_chars, contains_chars, to_lowercase};

verus! {

/// A rule module: checked once per (torrent, peer) in every ban wave.
pub trait RuleFeatureModule {
    /// The module's name (used in logs and ban records).
    fn name(&self) -> &'static str;

    /// The module's key in the profile (`module.<config name>`).
    fn config_name(&self) -> &'static str;

    /// Checks one peer.
    fn should_ban(&self, torrent: &Torrent, peer: &Peer) -> CheckResult;

    /// Called when a ban of `ip` is lifted; modules that track addresses reset them.
    fn on_unban(&self, ip: IpAddress) {
    }
}

/// The minimal interface through which the engine reaches a rule module: its
/// profile key and one check.
pub trait RuleModule {
    /// The module's key in the profile (`module.<config name>`).
    fn config_name(&self) -> &str;

    /// Checks with the module.
    fn check_stub(&self) -> CheckResult;
}

/// A `Ban` result of a module.
pub fn ban(module: &'static str, duration_ms: i64, rule: String, reason: String) -> (r: CheckResult)
    ensures
        r.module == module,
        r.action == PeerAction::Ban,
        r.duration_ms == duration_ms,
        r.rule@ == rule@,
        r.reason@ == reason@,
{
    CheckResult { module, action: PeerAction::Ban, duration_ms, rule, reason }
}

/// `prefix` followed by `s`, as a string.
fn joined(prefix: &str, s: &str) -> (r: String)
    ensures
        r@ == prefix@ + s@,
{
    let mut v: Vec<char> = Vec::new();
    push_str(&mut v, prefix);
    push_str(&mut v, s);
    string_from_chars(&v)
}

/// The result of a blacklist module that tests one optional peer field
/// against its rules.
pub open spec fn blacklist_result(
    r: CheckResult,
    module: &'static str,
    rules: RuleSet,
    field: Option<String>,
    ban_duration: i64,
    rule: Seq<char>,
    reason_prefix: Seq<char>,
) -> bool {
    &&& r.module == module
    &&& match field {
        Some(v) if match_spec(rules.rules@, v@) == MatchOutcome::True => {
            &&& r.action == PeerAction::Ban
            &&& r.duration_ms == ban_duration
            &&& r.rule@ == rule
            &&& r.reason@ == reason_prefix + v@
        },
        _ => r.action == PeerAction::NoAction && r.duration_ms == 0,
    }
}

/// Bans peers whose BitTorrent peer id matches the rules.
pub struct PeerIdBlacklist {
    pub rules: RuleSet,
    pub ban_duration: i64,
}

impl PeerIdBlacklist {
    /// A module with the given rules and ban duration.
    pub fn new(rules: RuleSet, ban_duration: i64) -> (r: PeerIdBlacklist)
        ensures
            r.rules == rules,
            r.ban_duration == ban_duration,
    {
        PeerIdBlacklist { rules, ban_duration }
    }
}

impl RuleFeatureModule for PeerIdBlacklist {
    fn name(&self) -> (r: &'static str)
        ensures
            r == "PeerIdBlacklist",
    {
        "PeerIdBlacklist"
    }

    fn config_name(&self) -> (r: &'static str)
        ensures
            r == "peer-id-blacklist",
    {
        "peer-id-blacklist"
    }

    /// Bans a peer whose id matches; a peer without an id passes.
    fn should_ban(&self, torrent: &Torrent, peer: &Peer) -> (r: CheckResult)
        ensures
            blacklist_result(r, "PeerIdBlacklist", self.rules, peer.peer_id, self.ban_duration,
                "peer-id-blacklist"@, "PeerID 命中黑名单: "@),
    {
        match &peer.peer_id {
            None => CheckResult::pass("PeerIdBlacklist"),
            Some(pid) => {
                if self.rules.match_input(pid.as_str()) == MatchOutcome::True {
                    ban("PeerIdBlacklist", self.ban_duration, "peer-id-blacklist".to_string(),
                        joined("PeerID 命中黑名单: ", pid.as_str()))
                } else {
                    CheckResult::pass("PeerIdBlacklist")
                }
            },
        }
    }
}

/// Bans peers whose client name matches the rules.
pub struct ClientNameBlacklist {
    pub rules: RuleSet,
    pub ban_duration: i64,
}

impl ClientNameBlacklist {
    /// A module with the given rules and ban duration.
    pub fn new(rules: RuleSet, ban_duration: i64) -> (r: ClientNameBlacklist)
        ensures
            r.rules == rules,
            r.ban_duration == ban_duration,
    {
        ClientNameBlacklist { rules, ban_duration }
    }
}

impl RuleFeatureModule for ClientNameBlacklist {
    fn name(&self) -> (r: &'static str)
        ensures
            r == "ClientNameBlacklist",
    {
        "ClientNameBlacklist"
    }

    fn config_name(&self) -> (r: &'static str)
        ensures
            r == "client-name-blacklist",
    {
        "client-name-blacklist"
    }

    /// Bans a peer whose client name matches; a peer without a name passes.
    fn should_ban(&self, torrent: &Torrent, peer: &Peer) -> (r: CheckResult)
        ensures
            blacklist_result(r, "ClientNameBlacklist", self.rules, peer.client_name,
                self.ban_duration, "client-name-blacklist"@, "客户端名命中黑名单: "@),
    {
        match &peer.client_name {
            None => CheckResult::pass("ClientNameBlacklist"),
            Some(name) => {
                if self.rules.match_input(name.as_str()) == MatchOutcome::True {
                    ban("ClientNameBlacklist", self.ban_duration,
                        "client-name-blacklist".to_string(),
                        joined("客户端名命中黑名单: ", name.as_str()))
                } else {
                    CheckResult::pass("ClientNameBlacklist")
                }
            },
        }
    }
}

/// The text of an optional field, empty when absent.
pub open spec fn text_or_empty(s: Option<String>) -> Seq<char> {
    match s {
        Some(v) => v@,
        None => Seq::<char>::empty(),
    }
}

/// Whether the anti-vampire preset bans a peer: Xunlei (peer id starting
/// with `-xl` or client name starting with `xunlei`, ignoring case) is banned,
/// except that its `0019` variant is banned only while we are seeding.
pub open spec fn vampire_banned(pid: Seq<char>, name: Seq<char>, seeding: bool) -> bool {
    let p = lowercase(pid);
    let n = lowercase(name);
    let xunlei = starts_with_spec(p, "-xl"@) || starts_with_spec(n, "xunlei"@);
    let v0019 = starts_with_spec(p, "-xl0019"@) || contains_spec(n, "0019"@) || contains_spec(n, "0.0.1.9"@);
    xunlei && (!v0019 || seeding)
}

/// Bans Xunlei, the client that downloads without uploading.
pub struct AntiVampire {
    pub ban_duration: i64,
    pub xunlei_enabled: bool,
}

impl AntiVampire {
    /// A module with the given ban duration; it bans only when `xunlei_enabled`.
    pub fn new(ban_duration: i64, xunlei_enabled: bool) -> (r: AntiVampire)
        ensures
            r.ban_duration == ban_duration,
            r.xunlei_enabled == xunlei_enabled,
    {
        AntiVampire { ban_duration, xunlei_enabled }
    }
}

/// Whether `s` starts with the literal `p`.
fn starts_with_lit(s: &Vec<char>, p: &str) -> (b: bool)
    ensures
        b == starts_with_spec(s@, p@),
{
    starts_with_chars(s, &chars_of(p))
}

/// Whether `s` contains the literal `p`.
fn contains_lit(s: &Vec<char>, p: &str) -> (b: bool)
    ensures
        b == contains_spec(s@, p@),
{
    contains_chars(s, &chars_of(p))
}

impl RuleFeatureModule for AntiVampire {
    fn name(&self) -> (r: &'static str)
        ensures
            r == "AntiVampire",
    {
        "AntiVampire"
    }

    fn config_name(&self) -> (r: &'static str)
        ensures
            r == "anti-vampire",
    {
        "anti-vampire"
    }

    /// Bans Xunlei peers (see `vampire_banned`) when the preset is enabled.
    fn should_ban(&self, torrent: &Torrent, peer: &Peer) -> (r: CheckResult)
        ensures
            r.module == "AntiVampire",
            if self.xunlei_enabled && vampire_banned(text_or_empty(peer.peer_id),
                text_or_empty(peer.client_name), torrent.seeding) {
                &&& r.action == PeerAction::Ban
                &&& r.duration_ms == self.ban_duration
                &&& r.rule@ == "anti-vampire:xunlei"@
                &&& r.reason@ == "迅雷吸血客户端"@
            } else {
                r.action == PeerAction::NoAction && r.duration_ms == 0
            },
    {
        if !self.xunlei_enabled {
            return CheckResult::pass("AntiVampire");
        }
        let pid_raw: String = match &peer.peer_id {
            Some(s) => string_from_chars(&chars_of(s.as_str())),
            None => String::new(),
        };
        let name_raw: String = match &peer.client_name {
            Some(s) => string_from_chars(&chars_of(s.as_str())),
            None => String::new(),
        };
        let pid = chars_of(to_lowercase(pid_raw.as_str()).as_str());
        let name = chars_of(to_lowercase(name_raw.as_str()).as_str());
        let is_xunlei = starts_with_lit(&pid, "-xl") || starts_with_lit(&name, "xunlei");
        if !is_xunlei {
            return CheckResult::pass("AntiVampire");
        }
        let is_0019 = starts_with_lit(&pid, "-xl0019") || contains_lit(&name, "0019")
            || contains_lit(&name, "0.0.1.9");
        if is_0019 && !torrent.is_seeding() {
            return CheckResult::pass("AntiVampire");
        }
        ban("AntiVampire", self.ban_duration, "anti-vampire:xunlei".to_string(),
            "迅雷吸血客户端".to_string())
    }
}

} // verus!

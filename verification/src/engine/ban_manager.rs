//! The decisions of a ban wave: the login hold that keeps the engine from
//! hammering a downloader's login, the folding of module results, and the
//! recording of bans (by rule and by hand) in the ban list.

use vstd::prelude::*;
use crate::domain::ban::{BanMetadata, CheckResult, PeerAction, merge_pick, copy_string};
use crate::domain::peer::PeerAddress;
use crate::engine::ban_list::BanList;
use crate::ip::{
    IpAddress, Network, host_network, ip_parse, ip_text, ip_to_string, lemma_ip_text_reads_back, network_or_host, parse_ip,
};
use crate::rules::ip_matcher::{IpMatcher, covered};
use crate::text::{chars_of, push_str, string_from_chars, trim_spec, trim_str};

verus! {

/// The clock, in milliseconds since the Unix epoch (0 if the clock is before it).
#[verifier::external_body]
pub fn now_ms() -> i64 {
    std::time::SystemTime::now()
        .duration_since(std::time::UNIX_EPOCH)
        .map(|d| d.as_millis() as i64)
        .unwrap_or(0)
}

/// The clock, in nanoseconds since the Unix epoch (0 if the clock is before it).
#[verifier::external_body]
fn now_nanos() -> u128 {
    std::time::SystemTime::now()
        .duration_since(std::time::UNIX_EPOCH)
        .map(|d| d.as_nanos())
        .unwrap_or(0)
}

/// A lower-case hexadecimal digit.
pub open spec fn hex_char(d: nat) -> char {
    if d < 10 {
        (('0' as u32) + d) as char
    } else {
        (('a' as u32) + (d - 10)) as char
    }
}

/// Lower-case hexadecimal text of a natural number, without leading zeros.
pub open spec fn hex(n: nat) -> Seq<char>
    decreases n,
{
    if n < 16 {
        seq![hex_char(n)]
    } else {
        hex(n / 16).push(hex_char(n % 16))
    }
}

/// Appends the hexadecimal text of `n` to `out`.
pub(crate) fn push_hex(out: &mut Vec<char>, n: u128)
    ensures
        final(out)@ == old(out)@ + hex(n as nat),
    decreases n,
{
    if n >= 16 {
        push_hex(out, n / 16);
    }
    let d = (n % 16) as u32;
    let c = if d < 10 {
        ('0' as u8 + d as u8) as char
    } else {
        ('a' as u8 + (d - 10) as u8) as char
    };
    assert(c == hex_char((n % 16) as nat));
    out.push(c);
    assert(final(out)@ =~= old(out)@ + hex(n as nat));
}

/// A ban id: the clock in nanoseconds, then the sequence number, both in hex.
pub fn gen_id(seq: u64) -> (r: String)
    ensures
        exists|t: u128| r@ == hex(t as nat) + hex(seq as nat),
{
    let t = now_nanos();
    let mut v: Vec<char> = Vec::new();
    push_hex(&mut v, t);
    push_hex(&mut v, seq as u128);
    assert(v@ =~= hex(t as nat) + hex(seq as nat));
    string_from_chars(&v)
}

/// `a + b`, held at the bounds of `i64`.
pub open spec fn sat_add(a: i64, b: i64) -> i64 {
    if a + b > i64::MAX {
        i64::MAX
    } else if a + b < i64::MIN {
        i64::MIN
    } else {
        (a + b) as i64
    }
}

/// The end of a ban that starts at `now` and lasts `dur` (saturating).
pub fn meta_unban(now: i64, dur: i64) -> (r: i64)
    ensures
        r == sat_add(now, dur),
{
    match now.checked_add(dur) {
        Some(v) => v,
        None => if dur > 0 {
            i64::MAX
        } else {
            i64::MIN
        },
    }
}

/// The login hold of one downloader: consecutive transient failures, and the
/// earliest time of the next attempt (`i64::MAX`: suspended until the
/// configuration changes).
#[derive(Debug, Clone, Copy, PartialEq, Eq, Structural)]
pub struct LoginGate {
    pub fails: u32,
    pub next_ms: i64,
}

/// The back-off after the `fails`-th consecutive transient failure.
pub open spec fn backoff_spec(fails: u32) -> i64 {
    if fails <= 1 {
        30_000
    } else if fails == 2 {
        120_000
    } else if fails == 3 {
        300_000
    } else if fails == 4 {
        600_000
    } else {
        900_000
    }
}

/// The back-off (ms) after a transient login failure: it grows with the
/// number of consecutive failures and stops at 15 minutes.
pub fn login_backoff_ms(fails: u32) -> (r: i64)
    ensures
        r == backoff_spec(fails),
{
    match fails {
        0 | 1 => 30_000,
        2 => 120_000,
        3 => 300_000,
        4 => 600_000,
        _ => 900_000,
    }
}

/// A login may be tried at `now`: always without a hold, else once its time
/// has come.
pub open spec fn ready_at(gate: Option<LoginGate>, now: i64) -> bool {
    match gate {
        Some(g) => now >= g.next_ms,
        None => true,
    }
}

/// Whether a login may be tried at `now`: always without a hold, else once
/// its time has come.
pub fn login_gate_ready(gate: Option<&LoginGate>, now: i64) -> (b: bool)
    ensures
        b == ready_at(match gate { Some(g) => Some(*g), None => None }, now),
{
    match gate {
        Some(g) => now >= g.next_ms,
        None => true,
    }
}

/// How a login attempt ended.
#[derive(Debug, Clone, Copy, PartialEq, Eq, Structural)]
pub enum LoginResult {
    /// Logged in.
    Accepted,
    /// The downloader refused the credentials or the configuration.
    Rejected,
    /// A transient error (network, a ban of this host, ...).
    Failed,
}

/// The login hold after a login attempt at `now`.
pub open spec fn next_gate_spec(gate: Option<LoginGate>, result: LoginResult, now: i64) -> Option<LoginGate> {
    match result {
        LoginResult::Accepted => None,
        LoginResult::Rejected => Some(LoginGate { fails: 0, next_ms: i64::MAX }),
        LoginResult::Failed => {
            let before: u32 = match gate {
                Some(g) => g.fails,
                None => 0,
            };
            let fails: u32 = if before == u32::MAX { u32::MAX } else { (before + 1) as u32 };
            Some(LoginGate { fails, next_ms: (now + backoff_spec(fails)) as i64 })
        },
    }
}

/// The login hold after a login attempt at `now`, and whether the downloader has
/// just now been suspended (a warning is due only then). A success clears
/// the hold; a refusal suspends it; a transient failure counts one more
/// failure and backs off.
pub fn next_login_gate(gate: Option<LoginGate>, result: LoginResult, now: i64) -> (r: (Option<LoginGate>, bool))
    requires
        now <= i64::MAX - 900_000,
    ensures
        r.0 == next_gate_spec(gate, result, now),
        r.1 == (result == LoginResult::Rejected && !(gate matches Some(g) && g.next_ms == i64::MAX)),
{
    match result {
        LoginResult::Accepted => (None, false),
        LoginResult::Rejected => {
            let was = match gate {
                Some(g) => g.next_ms == i64::MAX,
                None => false,
            };
            (Some(LoginGate { fails: 0, next_ms: i64::MAX }), !was)
        },
        LoginResult::Failed => {
            let before: u32 = match gate {
                Some(g) => g.fails,
                None => 0,
            };
            let fails: u32 = if before == u32::MAX { u32::MAX } else { before + 1 };
            let delay = login_backoff_ms(fails);
            (Some(LoginGate { fails, next_ms: now + delay }), false)
        },
    }
}

/// One step of running the modules over a peer: the merged result, and
/// whether to stop (a `Skip` overrides everything after it).
pub fn fold_result(acc: CheckResult, r: CheckResult) -> (out: (CheckResult, bool))
    ensures
        out.0 == merge_pick(acc, r),
        out.1 == (merge_pick(acc, r).action == PeerAction::Skip),
{
    let m = acc.merge(r);
    let stop = m.action == PeerAction::Skip;
    (m, stop)
}

/// Whether the modules look at a peer at `ip`: not when it is on the ignore
/// list or already banned.
pub fn should_check(ignore: &IpMatcher<()>, list: &BanList, ip: IpAddress) -> (b: bool)
    ensures
        b == (!covered(ignore@.dom(), ip) && !covered(list@.dom(), ip)),
{
    !ignore.contains(ip) && !list.contains(ip)
}

/// A ban duration: the one given, or the global default when it is not positive.
pub open spec fn chosen_duration(d: i64, global: i64) -> i64 {
    if d > 0 {
        d
    } else {
        global
    }
}

/// The duration of a ban: the module's own, or the global default when the
/// module gave none.
pub open spec fn ban_duration_of(r: CheckResult, global: i64) -> i64 {
    chosen_duration(r.duration_ms, global)
}

/// `m` is the record of a ban that `r` decided for `peer` at `now`.
pub open spec fn rule_ban_record(m: BanMetadata, r: CheckResult, peer: PeerAddress, now: i64, global: i64) -> bool {
    &&& m.context@ == r.module@
    &&& m.peer.ip == peer.ip
    &&& m.peer.port == peer.port
    &&& m.peer.raw_ip@ == peer.raw_ip@
    &&& m.ban_at == now
    &&& m.unban_at == sat_add(now, ban_duration_of(r, global))
    &&& m.ban_for_disconnect == (r.action == PeerAction::BanForDisconnect)
    &&& !m.exclude_from_report
    &&& !m.exclude_from_display
    &&& m.rule@ == r.rule@
    &&& m.description@ == r.reason@
}

/// Records the ban that `r` decided for `peer` at `now`: the peer's address
/// is banned as a host with a fresh record (id from sequence number `seq`),
/// and its raw key joins `newly`, the bans to push to the downloader. The
/// printed address always reads back as the peer's host, so the ban is
/// always recorded.
pub fn record_ban(
    list: &mut BanList,
    r: &CheckResult,
    peer: &PeerAddress,
    now: i64,
    global_ban_duration: i64,
    seq: u64,
    newly: &mut Vec<String>,
)
    ensures
        network_or_host(ip_text(peer.ip)) == Some(host_network(peer.ip)),
        exists|m: BanMetadata|
            #[trigger] rule_ban_record(m, *r, *peer, now, global_ban_duration)
                && final(list)@ == old(list)@.insert(host_network(peer.ip), m),
        final(newly)@.len() == old(newly)@.len() + 1 && final(newly)@.last()@ == peer.raw_ip@
            && final(newly)@.drop_last() == old(newly)@,
{
    let dur = if r.duration_ms > 0 {
        r.duration_ms
    } else {
        global_ban_duration
    };
    let meta = BanMetadata {
        context: string_from_chars(&chars_of(r.module)),
        random_id: gen_id(seq),
        peer: peer.duplicate(),
        ban_at: now,
        unban_at: meta_unban(now, dur),
        ban_for_disconnect: r.action == PeerAction::BanForDisconnect,
        exclude_from_report: false,
        exclude_from_display: false,
        rule: copy_string(&r.rule),
        description: copy_string(&r.reason),
    };
    assert(rule_ban_record(meta, *r, *peer, now, global_ban_duration));
    let key = ip_to_string(peer.ip);
    proof {
        lemma_ip_text_reads_back(key@, peer.ip);
    }
    let ghost gm = meta;
    let ok = list.ban(key.as_str(), meta);
    assert(ok && rule_ban_record(gm, *r, *peer, now, global_ban_duration)
        && list@ == old(list)@.insert(host_network(peer.ip), gm));
    newly.push(copy_string(&peer.raw_ip));
}

/// `m` is the record of a ban by hand of `addr` from `t` for `dur`.
pub open spec fn manual_ban_record(m: BanMetadata, addr: IpAddress, t: i64, dur: i64) -> bool {
    &&& m.context@ == "manual"@
    &&& m.peer.ip == addr
    &&& m.peer.port == 0
    &&& m.ban_at == t
    &&& m.unban_at == sat_add(t, dur)
    &&& !m.ban_for_disconnect
    &&& !m.exclude_from_report
    &&& !m.exclude_from_display
    &&& m.rule@ == "manual"@
    &&& m.description@ == "手动封禁"@
}

/// Bans an address by hand, for `duration_ms` (or the global default when
/// that is not positive), from now on. The text must read as an address
/// once trimmed; the ban is then keyed by the text as given.
pub fn manual_ban(list: &mut BanList, ip: &str, duration_ms: i64, global_ban_duration: i64, seq: u64) -> (ok: bool)
    ensures
        ok == (ip_parse(trim_spec(ip@)) is Some && network_or_host(ip@) is Some),
        ok ==> exists|m: BanMetadata, t: i64|
            #[trigger] manual_ban_record(m, ip_parse(trim_spec(ip@))->0, t,
                chosen_duration(duration_ms, global_ban_duration))
                && final(list)@ == old(list)@.insert(network_or_host(ip@)->0, m),
        !ok ==> final(list)@ == old(list)@,
{
    let t = trim_str(ip);
    let addr = match parse_ip(t.as_str()) {
        Some(a) => a,
        None => return false,
    };
    let now = now_ms();
    let dur = if duration_ms > 0 {
        duration_ms
    } else {
        global_ban_duration
    };
    let meta = BanMetadata {
        context: "manual".to_string(),
        random_id: gen_id(seq),
        peer: PeerAddress::new(addr, 0),
        ban_at: now,
        unban_at: meta_unban(now, dur),
        ban_for_disconnect: false,
        exclude_from_report: false,
        exclude_from_display: false,
        rule: "manual".to_string(),
        description: "手动封禁".to_string(),
    };
    assert(manual_ban_record(meta, addr, now, dur));
    let ghost gm = meta;
    let ok = list.ban(ip, meta);
    assert(ok ==> manual_ban_record(gm, ip_parse(trim_spec(ip@))->0, now,
        chosen_duration(duration_ms, global_ban_duration))
        && list@ == old(list)@.insert(network_or_host(ip@)->0, gm));
    ok
}

/// Lifts a ban by hand (exact network). Gives back whether one was lifted.
pub fn manual_unban(list: &mut BanList, ip: &str) -> (removed: bool)
    ensures
        removed == (network_or_host(ip@) matches Some(n) && old(list)@.dom().contains(n)),
        match network_or_host(ip@) {
            Some(n) => final(list)@ == old(list)@.remove(n),
            None => final(list)@ == old(list)@,
        },
{
    list.unban(ip).is_some()
}

/// How often the ban list is written to the database.
pub const SNAPSHOT_INTERVAL_MS: u64 = 3_600_000;

/// Whether the ban list must be written to the database again: more than an
/// hour has passed since the last time.
pub fn snapshot_due(last_snapshot_at: u64, now: u64) -> (b: bool)
    requires
        last_snapshot_at <= now,
    ensures
        b == (now - last_snapshot_at > SNAPSHOT_INTERVAL_MS),
{
    now - last_snapshot_at > SNAPSHOT_INTERVAL_MS
}

/// Restores one stored ban at start-up: a ban that still runs at `now` is put
/// back under its stored address text; an expired one is dropped. Gives back
/// whether it was restored.
pub fn restore_ban(list: &mut BanList, addr: &str, meta: BanMetadata, now: i64) -> (ok: bool)
    ensures
        ok == (meta.unban_at > now && network_or_host(addr@) is Some),
        ok ==> final(list)@ == old(list)@.insert(network_or_host(addr@)->0, meta),
        !ok ==> final(list)@ == old(list)@,
{
    if meta.unban_at > now {
        list.ban(addr, meta)
    } else {
        false
    }
}

/// Running totals of the engine.
#[derive(Debug, Clone, Copy, Default, PartialEq, Eq)]
pub struct StatsSnapshot {
    pub checked_peers: u64,
    pub banned_peers: u64,
    pub unbanned_peers: u64,
    pub waves: u64,
    pub last_wave_at: u64,
    pub last_wave_ms: u64,
}

/// The engine's counters, updated as waves run.
#[derive(Debug, Default)]
pub struct Stats {
    pub checked_peers: u64,
    pub banned_peers: u64,
    pub unbanned_peers: u64,
    pub waves: u64,
    pub last_wave_at: u64,
    pub last_wave_ms: u64,
}

impl Stats {
    /// A copy of the counters.
    pub fn snapshot(&self) -> (r: StatsSnapshot)
        ensures
            r.checked_peers == self.checked_peers,
            r.banned_peers == self.banned_peers,
            r.unbanned_peers == self.unbanned_peers,
            r.waves == self.waves,
            r.last_wave_at == self.last_wave_at,
            r.last_wave_ms == self.last_wave_ms,
    {
        StatsSnapshot {
            checked_peers: self.checked_peers,
            banned_peers: self.banned_peers,
            unbanned_peers: self.unbanned_peers,
            waves: self.waves,
            last_wave_at: self.last_wave_at,
            last_wave_ms: self.last_wave_ms,
        }
    }

    /// Counts one peer looked at by the modules (the counter wraps, as an
    /// atomic counter does).
    pub fn note_checked(&mut self)
        ensures
            final(self).checked_peers == (if old(self).checked_peers == u64::MAX { 0 } else { (old(self).checked_peers + 1) as u64 }),
            final(self).banned_peers == old(self).banned_peers,
            final(self).unbanned_peers == old(self).unbanned_peers,
            final(self).waves == old(self).waves,
            final(self).last_wave_at == old(self).last_wave_at,
            final(self).last_wave_ms == old(self).last_wave_ms,
    {
        self.checked_peers = if self.checked_peers == u64::MAX { 0 } else { self.checked_peers + 1 };
    }

    /// Counts one ban recorded (the counter wraps).
    pub fn note_banned(&mut self)
        ensures
            final(self).banned_peers == (if old(self).banned_peers == u64::MAX { 0 } else { (old(self).banned_peers + 1) as u64 }),
            final(self).checked_peers == old(self).checked_peers,
            final(self).unbanned_peers == old(self).unbanned_peers,
            final(self).waves == old(self).waves,
            final(self).last_wave_at == old(self).last_wave_at,
            final(self).last_wave_ms == old(self).last_wave_ms,
    {
        self.banned_peers = if self.banned_peers == u64::MAX { 0 } else { self.banned_peers + 1 };
    }

    /// Counts `n` bans lifted because they ran out (the counter wraps).
    pub fn note_unbanned(&mut self, n: u64)
        ensures
            final(self).unbanned_peers == ((old(self).unbanned_peers + n) % 0x1_0000_0000_0000_0000) as u64,
            final(self).checked_peers == old(self).checked_peers,
            final(self).banned_peers == old(self).banned_peers,
            final(self).waves == old(self).waves,
            final(self).last_wave_at == old(self).last_wave_at,
            final(self).last_wave_ms == old(self).last_wave_ms,
    {
        let sum: u128 = self.unbanned_peers as u128 + n as u128;
        self.unbanned_peers = (sum % 0x1_0000_0000_0000_0000u128) as u64;
    }

    /// Counts the end of a wave that started at `start` and ended at `end`
    /// (the counters wrap, as atomic counters do).
    pub fn finish_wave(&mut self, start: i64, end: i64)
        ensures
            final(self).waves == (if old(self).waves == u64::MAX { 0 } else { (old(self).waves + 1) as u64 }),
            final(self).last_wave_at == start as u64,
            final(self).last_wave_ms == (if end as int - start as int > 0 { (end as int - start as int) as u64 } else { 0u64 }),
            final(self).checked_peers == old(self).checked_peers,
            final(self).banned_peers == old(self).banned_peers,
            final(self).unbanned_peers == old(self).unbanned_peers,
    {
        self.waves = if self.waves == u64::MAX { 0 } else { self.waves + 1 };
        self.last_wave_at = start as u64;
        let elapsed: i128 = end as i128 - start as i128;
        self.last_wave_ms = if elapsed > 0 { elapsed as u64 } else { 0 };
    }
}


/// The back-off grows with the number of consecutive failures, starts at
/// 30 s and stops growing at 15 min (reached at the fifth failure).
pub proof fn lemma_backoff_escalates_and_caps(a: u32, b: u32)
    requires
        a <= b,
    ensures
        backoff_spec(a) <= backoff_spec(b),
        30_000 <= backoff_spec(a) <= 900_000,
        b >= 5 ==> backoff_spec(b) == 900_000,
{
}

/// A successful login clears the hold: the next login may be tried at once.
pub proof fn lemma_accepted_clears_gate(gate: Option<LoginGate>, now: i64, t: i64)
    ensures
        ready_at(next_gate_spec(gate, LoginResult::Accepted, now), t),
{
}

/// A refused login suspends the downloader: no later round may try again
/// until the hold is cleared.
pub proof fn lemma_rejected_suspends(gate: Option<LoginGate>, now: i64, t: i64)
    requires
        t < i64::MAX,
    ensures
        !ready_at(next_gate_spec(gate, LoginResult::Rejected, now), t),
{
}

/// A transient failure backs off: no retry within 30 s, and a retry once the
/// back-off of the new failure count has passed.
pub proof fn lemma_failure_backs_off(gate: Option<LoginGate>, now: i64, t: i64)
    requires
        now <= i64::MAX - 900_000,
    ensures
        now <= t < now + 30_000 ==> !ready_at(next_gate_spec(gate, LoginResult::Failed, now), t),
        next_gate_spec(gate, LoginResult::Failed, now) matches Some(g)
            && (t >= now + backoff_spec(g.fails) ==> ready_at(Some(g), t)),
{
    let before: u32 = match gate {
        Some(g) => g.fails,
        None => 0,
    };
    let fails: u32 = if before == u32::MAX { u32::MAX } else { (before + 1) as u32 };
    lemma_backoff_escalates_and_caps(fails, fails);
}
} // verus!

//! Idle-connection protection: peers that hold a connection without moving
//! data are banned once they have been idle too long. (The tracked state
//! lives in a cache beside this logic; the progress comparison, on
//! fractions, is made there and handed in.)

use vstd::prelude::*;
use crate::domain::ban::{CheckResult, PeerAction};
use crate::domain::peer::Peer;
use crate::engine::modules::IdleParams;
use crate::text::{int_decimal, push_i64, push_str, string_from_chars};

verus! {

/// Which torrents the protection covers.
#[derive(Debug, Clone, Copy, PartialEq, Eq, Structural)]
pub enum ProtectMode {
    /// Seeding always; while downloading, only peers that show no interest.
    ByPeerFlags,
    /// Only seeding torrents.
    SeedingOnly,
    /// Seeding and downloading torrents.
    Always,
}

impl ProtectMode {
    /// The mode of a configuration number: 1 and 2 name the strict modes,
    /// anything else the flag-based one.
    pub fn from_u8(v: u8) -> (r: ProtectMode)
        ensures
            r == (if v == 1 {
                ProtectMode::SeedingOnly
            } else if v == 2 {
                ProtectMode::Always
            } else {
                ProtectMode::ByPeerFlags
            }),
    {
        match v {
            1 => ProtectMode::SeedingOnly,
            2 => ProtectMode::Always,
            _ => ProtectMode::ByPeerFlags,
        }
    }
}

/// A peer on a torrent is protected against idling.
pub open spec fn protected_spec(mode: ProtectMode, seeding: bool, peer: Peer) -> bool {
    match mode {
        ProtectMode::Always => true,
        ProtectMode::SeedingOnly => seeding,
        ProtectMode::ByPeerFlags => seeding || match peer.flags {
            Some(f) => !(f.interesting || f.remote_interested),
            None => true,
        },
    }
}

/// Whether a peer on a torrent is protected against idling.
pub fn protected(mode: ProtectMode, seeding: bool, peer: &Peer) -> (b: bool)
    ensures
        b == protected_spec(mode, seeding, *peer),
        mode == ProtectMode::Always ==> b,
        mode == ProtectMode::SeedingOnly ==> b == seeding,
        mode == ProtectMode::ByPeerFlags && seeding ==> b,
        // while downloading, a peer that shows interest either way is not policed
        mode == ProtectMode::ByPeerFlags && !seeding ==> (b <==> match peer.flags {
            Some(f) => !f.interesting && !f.remote_interested,
            None => true,
        }),
{
    match mode {
        ProtectMode::Always => true,
        ProtectMode::SeedingOnly => seeding,
        ProtectMode::ByPeerFlags => {
            if seeding {
                return true;
            }
            match &peer.flags {
                Some(f) => !(f.interesting || f.remote_interested),
                None => true,
            }
        },
    }
}

/// The bytes moved since the last look; 0 when either count is unknown (-1)
/// or the count went down.
pub fn byte_delta(now: i64, prev: i64) -> (r: i64)
    ensures
        r == (if now < 0 || prev < 0 || now <= prev { 0 } else { now - prev }),
{
    if now < 0 || prev < 0 {
        return 0;
    }
    if now > prev { now - prev } else { 0 }
}

/// What the module does with a peer it watches.
#[derive(Debug, Clone, Copy, PartialEq, Eq, Structural)]
pub enum IdleStep {
    /// Stop watching it (not protected, or moving data fast).
    Forget,
    /// Start watching it idle from now.
    Start,
    /// Keep its idle start, refresh its counters.
    Keep,
    /// Ban it.
    Ban,
}

/// The step for a peer (see `idle_step`).
pub open spec fn idle_step_spec(is_protected: bool, peer: Peer, last: Option<(i64, i64, i64)>, progress_changed: bool,
    idle_speed_threshold: i64, max_allowed_idle_ms: i64, now: i64) -> IdleStep
{
    if !is_protected {
        IdleStep::Forget
    } else if peer.upload_speed > idle_speed_threshold || peer.download_speed > idle_speed_threshold {
        IdleStep::Forget
    } else {
        match last {
            None => IdleStep::Start,
            Some((start, up, down)) => {
                let ud: int = if peer.uploaded < 0 || up < 0 || peer.uploaded <= up { 0 } else { peer.uploaded - up };
                let dd: int = if peer.downloaded < 0 || down < 0 || peer.downloaded <= down { 0 } else { peer.downloaded - down };
                let idle: int = if now - start < i64::MIN { i64::MIN as int } else if now - start > i64::MAX { i64::MAX as int } else { now - start };
                if ud > idle_speed_threshold || dd > idle_speed_threshold || progress_changed {
                    IdleStep::Start
                } else if idle > max_allowed_idle_ms {
                    IdleStep::Ban
                } else {
                    IdleStep::Keep
                }
            },
        }
    }
}

/// The step for a peer: `last` is the watched state (idle start, uploaded,
/// downloaded) if any; `progress_changed` tells whether its progress moved
/// by at least the configured step (only when that resets the watch).
pub fn idle_step(
    is_protected: bool,
    peer: &Peer,
    last: Option<(i64, i64, i64)>,
    progress_changed: bool,
    idle_speed_threshold: i64,
    max_allowed_idle_ms: i64,
    now: i64,
) -> (r: IdleStep)
    ensures
        r == idle_step_spec(is_protected, *peer, last, progress_changed, idle_speed_threshold,
            max_allowed_idle_ms, now),
        // an unprotected peer, or one moving data fast, is not watched
        !is_protected ==> r == IdleStep::Forget,
        peer.upload_speed > idle_speed_threshold || peer.download_speed > idle_speed_threshold ==> r
            == IdleStep::Forget,
        // a peer is banned only after staying idle past the allowed time
        r == IdleStep::Ban ==> is_protected && !progress_changed && last is Some && now - (last->0).0
            > max_allowed_idle_ms && peer.upload_speed <= idle_speed_threshold && peer.download_speed
            <= idle_speed_threshold,
        // a peer seen for the first time starts being watched
        is_protected && last is None && peer.upload_speed <= idle_speed_threshold && peer.download_speed
            <= idle_speed_threshold ==> r == IdleStep::Start,
        progress_changed && is_protected && last is Some ==> r != IdleStep::Ban,
{
    if !is_protected {
        return IdleStep::Forget;
    }
    if peer.upload_speed > idle_speed_threshold || peer.download_speed > idle_speed_threshold {
        return IdleStep::Forget;
    }
    match last {
        None => IdleStep::Start,
        Some((start, up, down)) => {
            let ud = byte_delta(peer.uploaded, up);
            let dd = byte_delta(peer.downloaded, down);
            if ud > idle_speed_threshold || dd > idle_speed_threshold || progress_changed {
                return IdleStep::Start;
            }
            let idle: i64 = match now.checked_sub(start) {
                Some(d) => d,
                None => if start > 0 { i64::MIN } else { i64::MAX },
            };
            if idle > max_allowed_idle_ms {
                IdleStep::Ban
            } else {
                IdleStep::Keep
            }
        },
    }
}

/// The ban of an idle peer.
pub fn idle_ban(ban_duration: i64, max_allowed_idle_ms: i64) -> (r: CheckResult)
    ensures
        r.module == "IdleConnectionDosProtection",
        r.action == PeerAction::Ban,
        r.duration_ms == ban_duration,
        r.rule@ == "idle-connection-dos"@,
        r.reason@ == "空闲连接超过 "@ + int_decimal(max_allowed_idle_ms as int) + "ms 无传输"@,
{
    let mut v: Vec<char> = Vec::new();
    push_str(&mut v, "空闲连接超过 ");
    push_i64(&mut v, max_allowed_idle_ms);
    push_str(&mut v, "ms 无传输");
    CheckResult {
        module: "IdleConnectionDosProtection",
        action: PeerAction::Ban,
        duration_ms: ban_duration,
        rule: "idle-connection-dos".to_string(),
        reason: string_from_chars(&v),
    }
}

/// One check of a watched peer: the step for its state (with the protection
/// of the configured mode), and the module's answer, a ban when the step is
/// to ban and a pass otherwise.
pub fn idle_check(p: &IdleParams, seeding: bool, peer: &Peer, last: Option<(i64, i64, i64)>, progress_changed: bool,
    now: i64) -> (r: (IdleStep, CheckResult))
    ensures
        r.0 == idle_step_spec(protected_spec(p.mode, seeding, *peer), *peer, last, progress_changed,
            p.idle_speed_threshold, p.max_allowed_idle_ms, now),
        r.1.module == "IdleConnectionDosProtection",
        r.0 == IdleStep::Ban ==> r.1.action == PeerAction::Ban && r.1.duration_ms == p.ban_duration
            && r.1.rule@ == "idle-connection-dos"@,
        r.0 != IdleStep::Ban ==> r.1.action == PeerAction::NoAction && r.1.duration_ms == 0,
        p.mode == ProtectMode::SeedingOnly && !seeding ==> r.0 == IdleStep::Forget && r.1.action
            == PeerAction::NoAction,
{
    proof {
        if p.mode == ProtectMode::SeedingOnly {
            lemma_seeding_only_skips_download_task(*p, *peer, last, progress_changed, now);
        }
    }
    let prot = protected(p.mode, seeding, peer);
    let step = idle_step(prot, peer, last, progress_changed, p.idle_speed_threshold, p.max_allowed_idle_ms, now);
    let answer = match step {
        IdleStep::Ban => idle_ban(p.ban_duration, p.max_allowed_idle_ms),
        _ => CheckResult::pass("IdleConnectionDosProtection"),
    };
    (step, answer)
}

/// In the seeding-only mode a torrent that is still downloading is never
/// policed: whatever the peer and whatever was watched before, the step
/// forgets it (so `idle_check` answers with a pass).
pub proof fn lemma_seeding_only_skips_download_task(p: IdleParams, peer: Peer, last: Option<(i64, i64, i64)>,
    progress_changed: bool, now: i64)
    requires
        p.mode == ProtectMode::SeedingOnly,
    ensures
        idle_step_spec(protected_spec(p.mode, false, peer), peer, last, progress_changed, p.idle_speed_threshold,
            p.max_allowed_idle_ms, now) == IdleStep::Forget,
{
}

/// In the flag-based mode, while the torrent downloads, a peer that shows
/// interest either way (it wants our pieces, or we want its) is not
/// protected: the idle check leaves it alone.
pub proof fn lemma_interested_peer_not_policed(peer: Peer)
    requires
        peer.flags is Some,
        peer.flags->0.interesting || peer.flags->0.remote_interested,
    ensures
        !protected_spec(ProtectMode::ByPeerFlags, false, peer),
{
}

/// In the flag-based mode a downloading torrent's peer without any interest
/// is protected, and every peer of a seeding torrent is.
pub proof fn lemma_uninterested_peer_policed(peer: Peer, seeding: bool)
    requires
        seeding || peer.flags is None || (!peer.flags->0.interesting && !peer.flags->0.remote_interested),
    ensures
        protected_spec(ProtectMode::ByPeerFlags, seeding, peer),
{
}

} // verus!

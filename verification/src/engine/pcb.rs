//! The integer core of the progress-cheat blocker: the upload tracking per
//! address and per address block, the ban-delay window shared by the two,
//! and the keys under which the tracks are kept and stored. (The progress
//! comparisons themselves work on fractions and live beside this core.)

use vstd::prelude::*;
use crate::domain::peer::Peer;
use crate::domain::ban::{CheckResult, PeerAction};
use crate::engine::modules::PcbParams;
use crate::ip::{IpAddress, ip_text, ip_to_string, network_text, network_to_string, network_truncate};
use crate::text::{
    chars_of, contains_spec, decimal, find_char_from, find_from, int_decimal, parse_i64, parse_i64_spec,
    push_i64, push_str, string_from_chars, string_from_range, occurs_at,
};

verus! {

/// The tracked state of one address (or one address block) on one torrent.
#[derive(Debug, Clone, Copy, PartialEq, Eq, Structural)]
pub struct PcbTrack {
    pub last_report_uploaded: i64,
    pub tracking_uploaded_increase_total: i64,
    pub rewind_counter: i64,
    pub progress_difference_counter: i64,
    pub first_time_seen: i64,
    pub last_time_seen: i64,
    /// The end of the ban-delay window (`0`: none).
    pub ban_delay_window_end_at: i64,
    /// When the fast test ran (`0`: never).
    pub fast_pcb_test_execute_at: i64,
    pub last_torrent_completed_size: i64,
    /// Changed since it was last stored.
    pub dirty: bool,
}

impl PcbTrack {
    /// A fresh track, first and last seen at `now`.
    pub fn new(now: i64) -> (r: PcbTrack)
        ensures
            r == (PcbTrack {
                last_report_uploaded: 0,
                tracking_uploaded_increase_total: 0,
                rewind_counter: 0,
                progress_difference_counter: 0,
                first_time_seen: now,
                last_time_seen: now,
                ban_delay_window_end_at: 0,
                fast_pcb_test_execute_at: 0,
                last_torrent_completed_size: 0,
                dirty: false,
            }),
    {
        PcbTrack {
            last_report_uploaded: 0,
            tracking_uploaded_increase_total: 0,
            rewind_counter: 0,
            progress_difference_counter: 0,
            first_time_seen: now,
            last_time_seen: now,
            ban_delay_window_end_at: 0,
            fast_pcb_test_execute_at: 0,
            last_torrent_completed_size: 0,
            dirty: false,
        }
    }
}

/// A ban-delay window is open on the address or on its block.
pub fn window_scheduled(addr: &PcbTrack, range: &PcbTrack) -> (b: bool)
    ensures
        b == (addr.ban_delay_window_end_at > 0 || range.ban_delay_window_end_at > 0),
{
    addr.ban_delay_window_end_at > 0 || range.ban_delay_window_end_at > 0
}

/// A ban-delay window of the address or of its block ended before `now`.
pub fn window_expired(addr: &PcbTrack, range: &PcbTrack, now: i64) -> (b: bool)
    ensures
        b == ((addr.ban_delay_window_end_at > 0 && addr.ban_delay_window_end_at < now) || (
        range.ban_delay_window_end_at > 0 && range.ban_delay_window_end_at < now)),
{
    (addr.ban_delay_window_end_at > 0 && addr.ban_delay_window_end_at < now) || (
    range.ban_delay_window_end_at > 0 && range.ban_delay_window_end_at < now)
}

/// The track after opening a window of `dur` at `now`, if it had none.
pub open spec fn scheduled(t: PcbTrack, now: i64, dur: i64) -> PcbTrack {
    if t.ban_delay_window_end_at == 0 {
        PcbTrack { ban_delay_window_end_at: (now + dur) as i64, dirty: true, ..t }
    } else {
        t
    }
}

/// The track after closing its window, if it had one.
pub open spec fn reset(t: PcbTrack) -> PcbTrack {
    if t.ban_delay_window_end_at != 0 {
        PcbTrack { ban_delay_window_end_at: 0, dirty: true, ..t }
    } else {
        t
    }
}

/// Opens a window of `dur` from `now` on each of the two tracks that has none.
pub fn schedule_window(addr: &mut PcbTrack, range: &mut PcbTrack, now: i64, dur: i64)
    requires
        i64::MIN <= now + dur <= i64::MAX,
    ensures
        *final(addr) == scheduled(*old(addr), now, dur),
        *final(range) == scheduled(*old(range), now, dur),
{
    if addr.ban_delay_window_end_at == 0 {
        addr.ban_delay_window_end_at = now + dur;
        addr.dirty = true;
    }
    if range.ban_delay_window_end_at == 0 {
        range.ban_delay_window_end_at = now + dur;
        range.dirty = true;
    }
}

/// Closes the window of each of the two tracks that has one.
pub fn reset_window(addr: &mut PcbTrack, range: &mut PcbTrack)
    ensures
        *final(addr) == reset(*old(addr)),
        *final(range) == reset(*old(range)),
{
    if addr.ban_delay_window_end_at != 0 {
        addr.ban_delay_window_end_at = 0;
        addr.dirty = true;
    }
    if range.ban_delay_window_end_at != 0 {
        range.ban_delay_window_end_at = 0;
        range.dirty = true;
    }
}

/// Torrents below the minimum size are not checked.
pub fn file_too_small(minimum_size: i64, torrent_size: i64) -> (b: bool)
    ensures
        b == (torrent_size < minimum_size),
{
    torrent_size < minimum_size
}

/// We are uploading to the peer (now or before).
pub fn is_uploading(peer: &Peer) -> (b: bool)
    ensures
        b == (peer.upload_speed > 0 || peer.uploaded > 0),
{
    peer.upload_speed > 0 || peer.uploaded > 0
}

/// The upload since the last report: the difference, or the report itself
/// when the counter went down (a reconnect), never negative.
pub open spec fn upload_increment_spec(reported: i64, last: i64) -> int {
    let d: int = if reported < last { reported as int } else { reported - last };
    if d > 0 { d } else { 0 }
}

/// The upload since the last report.
pub fn upload_increment(reported: i64, last: i64) -> (r: i64)
    requires
        reported < last || i64::MIN <= reported - last <= i64::MAX,
    ensures
        r == upload_increment_spec(reported, last),
{
    let d = if reported < last { reported } else { reported - last };
    if d > 0 { d } else { 0 }
}

/// The largest of three values.
pub open spec fn max3(a: i64, b: i64, c: i64) -> i64 {
    let m = if a >= b { a } else { b };
    if m >= c { m } else { c }
}

/// A reconnect does not lower the upload we believe in: whatever the peer
/// reports, the believed upload is at least both running totals, and the
/// totals never go down.
pub proof fn lemma_reconnect_keeps_upload(addr_total: i64, range_total: i64, reported: i64, last: i64)
    requires
        addr_total + upload_increment_spec(reported, last) <= i64::MAX,
        range_total + upload_increment_spec(reported, last) <= i64::MAX,
    ensures
        ({
            let inc = upload_increment_spec(reported, last);
            let a2 = (addr_total + inc) as i64;
            let r2 = (range_total + inc) as i64;
            &&& inc >= 0
            &&& a2 >= addr_total && r2 >= range_total
            &&& max3(reported, a2, r2) >= addr_total
            &&& max3(reported, a2, r2) >= range_total
            &&& max3(reported, a2, r2) >= reported
        }),
{
}

/// Whether the upload of a sample can be added to both tracks without
/// leaving the range of `i64` (what `account_upload` needs).
pub fn upload_fits(addr: &PcbTrack, range: &PcbTrack, reported: i64) -> (b: bool)
    ensures
        b == ((reported < addr.last_report_uploaded || i64::MIN <= reported - addr.last_report_uploaded <= i64::MAX)
            && addr.tracking_uploaded_increase_total + upload_increment_spec(reported, addr.last_report_uploaded) <= i64::MAX
            && range.tracking_uploaded_increase_total + upload_increment_spec(reported, addr.last_report_uploaded) <= i64::MAX),
{
    let last = addr.last_report_uploaded as i128;
    let rep = reported as i128;
    let d: i128 = if rep < last { rep } else { rep - last };
    let inc: i128 = if d > 0 { d } else { 0 };
    let diff_ok = rep < last || (i64::MIN as i128 <= rep - last && rep - last <= i64::MAX as i128);
    diff_ok && addr.tracking_uploaded_increase_total as i128 + inc <= i64::MAX as i128
        && range.tracking_uploaded_increase_total as i128 + inc <= i64::MAX as i128
}

/// Adds the upload since the last report (measured on the address track) to
/// both tracks, and gives the upload we believe in: the largest of the
/// report and the two totals, so that reconnecting does not reset it.
pub fn account_upload(addr: &mut PcbTrack, range: &mut PcbTrack, reported: i64) -> (computed: i64)
    requires
        reported < old(addr).last_report_uploaded || i64::MIN <= reported
            - old(addr).last_report_uploaded <= i64::MAX,
        old(addr).tracking_uploaded_increase_total + upload_increment_spec(reported,
            old(addr).last_report_uploaded) <= i64::MAX,
        old(range).tracking_uploaded_increase_total + upload_increment_spec(reported,
            old(addr).last_report_uploaded) <= i64::MAX,
    ensures
        ({
            let inc = upload_increment_spec(reported, old(addr).last_report_uploaded);
            &&& final(addr).tracking_uploaded_increase_total == old(addr).tracking_uploaded_increase_total + inc
            &&& final(range).tracking_uploaded_increase_total == old(range).tracking_uploaded_increase_total + inc
            &&& final(addr).dirty == (old(addr).dirty || inc > 0)
            &&& final(range).dirty == (old(range).dirty || inc > 0)
            &&& *final(addr) == (PcbTrack {
                tracking_uploaded_increase_total: final(addr).tracking_uploaded_increase_total,
                dirty: final(addr).dirty,
                ..*old(addr)
            })
            &&& *final(range) == (PcbTrack {
                tracking_uploaded_increase_total: final(range).tracking_uploaded_increase_total,
                dirty: final(range).dirty,
                ..*old(range)
            })
            &&& computed == max3(reported, final(addr).tracking_uploaded_increase_total,
                final(range).tracking_uploaded_increase_total)
        }),
{
    let inc = upload_increment(reported, addr.last_report_uploaded);
    addr.tracking_uploaded_increase_total = addr.tracking_uploaded_increase_total + inc;
    range.tracking_uploaded_increase_total = range.tracking_uploaded_increase_total + inc;
    if inc > 0 {
        addr.dirty = true;
        range.dirty = true;
    }
    let m = if reported >= addr.tracking_uploaded_increase_total {
        reported
    } else {
        addr.tracking_uploaded_increase_total
    };
    if m >= range.tracking_uploaded_increase_total {
        m
    } else {
        range.tracking_uploaded_increase_total
    }
}

/// The track after a check: the report, the completed size (never going
/// down) and the time are remembered, and the track is marked changed.
pub open spec fn finalized(t: PcbTrack, reported: i64, completed: i64, now: i64) -> PcbTrack {
    PcbTrack {
        last_report_uploaded: reported,
        last_torrent_completed_size: if completed >= t.last_torrent_completed_size {
            completed
        } else {
            t.last_torrent_completed_size
        },
        last_time_seen: now,
        dirty: true,
        ..t
    }
}

/// Brings both tracks up to date after a check.
pub fn finalize_tracks(addr: &mut PcbTrack, range: &mut PcbTrack, reported: i64, completed: i64, now: i64)
    ensures
        *final(addr) == finalized(*old(addr), reported, completed, now),
        *final(range) == finalized(*old(range), reported, completed, now),
{
    addr.last_report_uploaded = reported;
    range.last_report_uploaded = reported;
    addr.last_torrent_completed_size = if completed >= addr.last_torrent_completed_size {
        completed
    } else {
        addr.last_torrent_completed_size
    };
    range.last_torrent_completed_size = if completed >= range.last_torrent_completed_size {
        completed
    } else {
        range.last_torrent_completed_size
    };
    addr.last_time_seen = now;
    range.last_time_seen = now;
    addr.dirty = true;
    range.dirty = true;
}

/// What the progress comparisons of one sample say. They work on fractions
/// (the peer's reported progress, the configured ratios) and are made beside
/// the library; everything else of the decision is here.
#[derive(Debug, Clone, Copy, PartialEq, Eq, Structural)]
pub struct PcbFacts {
    /// The fast test is on and the upload reached its share of the torrent.
    pub fast_test_reached: bool,
    /// The upload exceeds the larger of the size and the minimum, times the threshold.
    pub over_size: bool,
    /// The upload exceeds the larger of the completed estimate and the minimum, times the threshold.
    pub over_completed: bool,
    /// The progress the upload implies exceeds the reported one by more than allowed.
    pub progress_behind: bool,
    /// The rewind check is on and the reported progress went back by more than allowed.
    pub rewound: bool,
    /// The reported progress is above zero.
    pub reported_positive: bool,
}

/// The verdict on one sample.
#[derive(Debug, Clone, Copy, PartialEq, Eq, Structural)]
pub enum PcbVerdict {
    Pass,
    /// Disconnect the peer briefly to test it again.
    FastTest,
    /// More upload than the torrent's size allows.
    Excessive,
    /// More upload than the completed part allows.
    ExcessiveIncomplete,
    /// The reported progress lags the upload after the ban-delay window.
    Difference,
    /// The reported progress went back.
    Rewind,
}

/// The completed size to measure the upload against: the largest the
/// torrent or either track has seen.
pub fn completed_estimate(completed: i64, addr: &PcbTrack, range: &PcbTrack) -> (r: i64)
    ensures
        r == max3(completed, range.last_torrent_completed_size, addr.last_torrent_completed_size),
{
    let b = range.last_torrent_completed_size;
    let c = addr.last_torrent_completed_size;
    if completed >= b && completed >= c {
        completed
    } else if b >= c {
        b
    } else {
        c
    }
}

/// A counter one up, held at `i64::MAX`.
pub open spec fn bumped(x: i64) -> i64 {
    if x == i64::MAX { x } else { (x + 1) as i64 }
}

/// Both tracks after opening the ban-delay window (when `now + dur` fits).
pub open spec fn opened(t: PcbTrack, now: i64, dur: i64) -> PcbTrack {
    if i64::MIN <= now + dur <= i64::MAX { scheduled(t, now, dur) } else { t }
}

/// The verdict on a sample and the two tracks after it. `size` and
/// `completed` are the torrent's, `uploading` whether we upload to the
/// peer, `cu` the upload we believe in.
pub open spec fn pcb_step(p: PcbParams, a: PcbTrack, r: PcbTrack, size: i64, completed: i64, uploading: bool,
    cu: i64, now: i64, f: PcbFacts) -> (PcbVerdict, PcbTrack, PcbTrack)
{
    let small = size < p.minimum_size;
    let cc = max3(completed, r.last_torrent_completed_size, a.last_torrent_completed_size);
    let scheduled_now = a.ban_delay_window_end_at > 0 || r.ban_delay_window_end_at > 0;
    let expired = (a.ban_delay_window_end_at > 0 && a.ban_delay_window_end_at < now)
        || (r.ban_delay_window_end_at > 0 && r.ban_delay_window_end_at < now);
    if size <= 0 || !uploading {
        (PcbVerdict::Pass, a, r)
    } else if f.fast_test_reached && !small && (a.fast_pcb_test_execute_at == 0 || r.fast_pcb_test_execute_at == 0) {
        (PcbVerdict::FastTest,
            PcbTrack { fast_pcb_test_execute_at: now, dirty: true, ..a },
            PcbTrack { fast_pcb_test_execute_at: now, dirty: true, ..r })
    } else if p.block_excessive && cu > size && f.over_size {
        (PcbVerdict::Excessive, reset(a), reset(r))
    } else if p.block_excessive && cc > 0 && cu > cc && f.over_completed {
        (PcbVerdict::ExcessiveIncomplete, reset(a), reset(r))
    } else if f.progress_behind && !small {
        if !scheduled_now {
            (PcbVerdict::Pass, opened(a, now, p.max_wait_duration), opened(r, now, p.max_wait_duration))
        } else if expired {
            (PcbVerdict::Difference,
                reset(PcbTrack { progress_difference_counter: bumped(a.progress_difference_counter), ..a }),
                reset(PcbTrack { progress_difference_counter: bumped(r.progress_difference_counter), ..r }))
        } else {
            (PcbVerdict::Pass, a, r)
        }
    } else if f.rewound && !small {
        if f.reported_positive || expired {
            (PcbVerdict::Rewind,
                reset(PcbTrack { rewind_counter: bumped(a.rewind_counter), ..a }),
                reset(PcbTrack { rewind_counter: bumped(r.rewind_counter), ..r }))
        } else if !scheduled_now {
            (PcbVerdict::Pass, opened(a, now, p.max_wait_duration), opened(r, now, p.max_wait_duration))
        } else {
            (PcbVerdict::Pass, a, r)
        }
    } else {
        (PcbVerdict::Pass, a, r)
    }
}

fn open_window(addr: &mut PcbTrack, range: &mut PcbTrack, now: i64, dur: i64)
    ensures
        *final(addr) == opened(*old(addr), now, dur),
        *final(range) == opened(*old(range), now, dur),
{
    if now.checked_add(dur).is_some() {
        schedule_window(addr, range, now, dur);
    }
}

/// Decides a sample: the fast test first, then excessive upload, then the
/// progress difference (which waits out a ban-delay window before banning),
/// then a rewind of the reported progress. Updates the tracks as the
/// verdict requires.
pub fn pcb_decide(p: &PcbParams, addr: &mut PcbTrack, range: &mut PcbTrack, size: i64, completed: i64,
    uploading: bool, cu: i64, now: i64, f: PcbFacts) -> (v: PcbVerdict)
    ensures
        (v, *final(addr), *final(range)) == pcb_step(*p, *old(addr), *old(range), size, completed, uploading, cu,
            now, f),
        // nothing to judge: no upload to the peer, or a torrent of unknown size
        size <= 0 || !uploading ==> v == PcbVerdict::Pass && *final(addr) == *old(addr) && *final(range)
            == *old(range),
        // excessive upload is judged only when the setting is on
        !p.block_excessive ==> v != PcbVerdict::Excessive && v != PcbVerdict::ExcessiveIncomplete,
        v == PcbVerdict::Excessive ==> p.block_excessive && cu > size && f.over_size,
        v == PcbVerdict::ExcessiveIncomplete ==> p.block_excessive && cu > completed && f.over_completed || (
            p.block_excessive && f.over_completed && (cu > old(addr).last_torrent_completed_size || cu
                > old(range).last_torrent_completed_size)),
        // the progress tests leave small torrents alone
        size < p.minimum_size ==> v != PcbVerdict::FastTest && v != PcbVerdict::Difference && v
            != PcbVerdict::Rewind,
        v == PcbVerdict::FastTest ==> f.fast_test_reached && uploading && size >= p.minimum_size,
        v == PcbVerdict::Difference ==> f.progress_behind && uploading,
        v == PcbVerdict::Rewind ==> f.rewound && uploading,
        // a ban-delay window is waited out before a difference bans
        v == PcbVerdict::Difference ==> (old(addr).ban_delay_window_end_at > 0
            && old(addr).ban_delay_window_end_at < now) || (old(range).ban_delay_window_end_at > 0
            && old(range).ban_delay_window_end_at < now),
{
    if size <= 0 || !uploading {
        return PcbVerdict::Pass;
    }
    let small = file_too_small(p.minimum_size, size);
    if f.fast_test_reached && !small && (addr.fast_pcb_test_execute_at == 0 || range.fast_pcb_test_execute_at == 0) {
        addr.fast_pcb_test_execute_at = now;
        range.fast_pcb_test_execute_at = now;
        addr.dirty = true;
        range.dirty = true;
        return PcbVerdict::FastTest;
    }
    let cc = completed_estimate(completed, addr, range);
    if p.block_excessive && cu > size && f.over_size {
        reset_window(addr, range);
        return PcbVerdict::Excessive;
    }
    if p.block_excessive && cc > 0 && cu > cc && f.over_completed {
        reset_window(addr, range);
        return PcbVerdict::ExcessiveIncomplete;
    }
    if f.progress_behind && !small {
        if !window_scheduled(addr, range) {
            open_window(addr, range, now, p.max_wait_duration);
            return PcbVerdict::Pass;
        } else if window_expired(addr, range, now) {
            if addr.progress_difference_counter < i64::MAX {
                addr.progress_difference_counter = addr.progress_difference_counter + 1;
            }
            if range.progress_difference_counter < i64::MAX {
                range.progress_difference_counter = range.progress_difference_counter + 1;
            }
            reset_window(addr, range);
            return PcbVerdict::Difference;
        } else {
            return PcbVerdict::Pass;
        }
    }
    if f.rewound && !small {
        if f.reported_positive || window_expired(addr, range, now) {
            if addr.rewind_counter < i64::MAX {
                addr.rewind_counter = addr.rewind_counter + 1;
            }
            if range.rewind_counter < i64::MAX {
                range.rewind_counter = range.rewind_counter + 1;
            }
            reset_window(addr, range);
            return PcbVerdict::Rewind;
        } else if !window_scheduled(addr, range) {
            open_window(addr, range, now, p.max_wait_duration);
        }
    }
    PcbVerdict::Pass
}

/// What the module answers for a decision: a ban (a short disconnect for
/// the fast test) of the configured length under the decision's rule name,
/// with `reason` as its text; nothing for a pass.
pub fn pcb_result(p: &PcbParams, v: PcbVerdict, reason: String) -> (r: CheckResult)
    ensures
        r.module == "ProgressCheatBlocker",
        v == PcbVerdict::Pass ==> r.action == PeerAction::NoAction && r.duration_ms == 0 && r.rule@.len() == 0,
        v == PcbVerdict::FastTest ==> r.action == PeerAction::BanForDisconnect
            && r.duration_ms == p.fast_pcb_test_block_duration && r.rule@ == "pcb:fast-test"@ && r.reason@ == reason@,
        v == PcbVerdict::Excessive ==> r.action == PeerAction::Ban && r.duration_ms == p.ban_duration
            && r.rule@ == "pcb:excessive"@ && r.reason@ == reason@,
        v == PcbVerdict::ExcessiveIncomplete ==> r.action == PeerAction::Ban && r.duration_ms == p.ban_duration
            && r.rule@ == "pcb:excessive-incomplete"@ && r.reason@ == reason@,
        v == PcbVerdict::Difference ==> r.action == PeerAction::Ban && r.duration_ms == p.ban_duration
            && r.rule@ == "pcb:difference"@ && r.reason@ == reason@,
        v == PcbVerdict::Rewind ==> r.action == PeerAction::Ban && r.duration_ms == p.ban_duration
            && r.rule@ == "pcb:rewind"@ && r.reason@ == reason@,
{
    let module = "ProgressCheatBlocker";
    match v {
        PcbVerdict::Pass => CheckResult::pass(module),
        PcbVerdict::FastTest => CheckResult {
            module,
            action: PeerAction::BanForDisconnect,
            duration_ms: p.fast_pcb_test_block_duration,
            rule: "pcb:fast-test".to_string(),
            reason,
        },
        PcbVerdict::Excessive => CheckResult {
            module,
            action: PeerAction::Ban,
            duration_ms: p.ban_duration,
            rule: "pcb:excessive".to_string(),
            reason,
        },
        PcbVerdict::ExcessiveIncomplete => CheckResult {
            module,
            action: PeerAction::Ban,
            duration_ms: p.ban_duration,
            rule: "pcb:excessive-incomplete".to_string(),
            reason,
        },
        PcbVerdict::Difference => CheckResult {
            module,
            action: PeerAction::Ban,
            duration_ms: p.ban_duration,
            rule: "pcb:difference".to_string(),
            reason,
        },
        PcbVerdict::Rewind => CheckResult {
            module,
            action: PeerAction::Ban,
            duration_ms: p.ban_duration,
            rule: "pcb:rewind".to_string(),
            reason,
        },
    }
}

/// Every ban the blocker decides leaves the ban-delay window of both tracks closed.
pub proof fn lemma_pcb_ban_closes_window(p: PcbParams, a: PcbTrack, r: PcbTrack, size: i64, completed: i64,
    uploading: bool, cu: i64, now: i64, f: PcbFacts)
    ensures
        ({
            let (v, a2, r2) = pcb_step(p, a, r, size, completed, uploading, cu, now, f);
            v != PcbVerdict::Pass && v != PcbVerdict::FastTest
                ==> a2.ban_delay_window_end_at == 0 && r2.ban_delay_window_end_at == 0
        }),
{
}

/// A progress-difference ban comes only once a window opened by an earlier
/// sample has run out; the sample that finds no window open only opens one.
pub proof fn lemma_difference_waits_for_window(p: PcbParams, a: PcbTrack, r: PcbTrack, size: i64, completed: i64,
    uploading: bool, cu: i64, now: i64, f: PcbFacts)
    ensures
        ({
            let (v, a2, r2) = pcb_step(p, a, r, size, completed, uploading, cu, now, f);
            &&& v == PcbVerdict::Difference ==> (a.ban_delay_window_end_at > 0 && a.ban_delay_window_end_at < now)
                || (r.ban_delay_window_end_at > 0 && r.ban_delay_window_end_at < now)
            &&& (a.ban_delay_window_end_at <= 0 && r.ban_delay_window_end_at <= 0 && !f.reported_positive)
                ==> v != PcbVerdict::Difference && v != PcbVerdict::Rewind
        }),
{
}

/// The fast test runs once per pair of tracks: it marks both, and a pair
/// that both carry a mark is not tested again.
pub proof fn lemma_fast_test_once(p: PcbParams, a: PcbTrack, r: PcbTrack, size: i64, completed: i64,
    uploading: bool, cu: i64, now: i64, f: PcbFacts)
    ensures
        ({
            let (v, a2, r2) = pcb_step(p, a, r, size, completed, uploading, cu, now, f);
            &&& v == PcbVerdict::FastTest ==> a2.fast_pcb_test_execute_at == now && r2.fast_pcb_test_execute_at == now
            &&& (a.fast_pcb_test_execute_at != 0 && r.fast_pcb_test_execute_at != 0) ==> v != PcbVerdict::FastTest
        }),
{
}

/// The key of a peer's track: `torrent id|ip:port`.
pub open spec fn addr_key_spec(torrent_id: Seq<char>, cache_key: Seq<char>) -> Seq<char> {
    torrent_id + seq!['|'] + cache_key
}

/// The block text of a peer: its `/prefix` block, or the bare address when
/// the prefix does not fit the family.
pub open spec fn block_text(ip: IpAddress, prefix: u8) -> Seq<char> {
    if prefix as nat <= ip.bits() {
        network_text(crate::ip::truncated_network(ip, prefix as nat))
    } else {
        ip_text(ip)
    }
}

/// The keys of the address track and of the block track of a peer on a torrent.
pub fn track_keys(torrent_id: &str, peer: &Peer, ipv4_prefix: u8, ipv6_prefix: u8) -> (r: (String, String))
    ensures
        r.0@ == addr_key_spec(torrent_id@, peer.address.raw_ip@),
        r.1@ == torrent_id@ + seq!['|'] + block_text(peer.address.ip,
            if peer.address.ip is V4 { ipv4_prefix } else { ipv6_prefix }),
{
    let ip = peer.address.ip;
    let (prefix, bits): (u8, u8) = match ip {
        IpAddress::V4(_) => (ipv4_prefix, 32),
        IpAddress::V6(_) => (ipv6_prefix, 128),
    };
    let block = if prefix <= bits {
        let n = network_truncate(ip, prefix);
        network_to_string(&n)
    } else {
        ip_to_string(ip)
    };
    let mut a: Vec<char> = Vec::new();
    push_str(&mut a, torrent_id);
    a.push('|');
    push_str(&mut a, peer.address.raw_ip.as_str());
    let mut b: Vec<char> = Vec::new();
    push_str(&mut b, torrent_id);
    b.push('|');
    push_str(&mut b, block.as_str());
    assert(a@ =~= addr_key_spec(torrent_id@, peer.address.raw_ip@));
    assert(b@ =~= torrent_id@ + seq!['|'] + block_text(ip, prefix));
    (string_from_chars(&a), string_from_chars(&b))
}

/// The part of an address-track key that marks the address (`|ip:` or `|[ip]:`),
/// for forgetting the tracks of an address when its ban is lifted.
pub fn unban_needle(ip: IpAddress) -> (r: String)
    ensures
        r@ == (if ip is V6 {
            seq!['|', '['] + ip_text(ip) + seq![']', ':']
        } else {
            seq!['|'] + ip_text(ip) + seq![':']
        }),
{
    let text = ip_to_string(ip);
    let mut v: Vec<char> = Vec::new();
    v.push('|');
    match ip {
        IpAddress::V6(_) => {
            v.push('[');
            push_str(&mut v, text.as_str());
            v.push(']');
            v.push(':');
        },
        IpAddress::V4(_) => {
            push_str(&mut v, text.as_str());
            v.push(':');
        },
    }
    assert(v@ =~= (if ip is V6 {
        seq!['|', '['] + ip_text(ip) + seq![']', ':']
    } else {
        seq!['|'] + ip_text(ip) + seq![':']
    }));
    string_from_chars(&v)
}

/// The raw `ip:port` key of an address text (`[ip]:port` when the text has
/// a `:`, i.e. is IPv6).
pub open spec fn raw_ip_spec(ip: Seq<char>, port: int) -> Seq<char> {
    if ip.contains(':') {
        seq!['['] + ip + seq![']', ':'] + int_decimal(port)
    } else {
        ip + seq![':'] + int_decimal(port)
    }
}

/// The raw `ip:port` key of a stored address (`[ip]:port` when the address
/// text has a `:`, i.e. is IPv6).
pub fn raw_ip(ip: &str, port: i64) -> (r: String)
    ensures
        r@ == raw_ip_spec(ip@, port as int),
{
    let v = chars_of(ip);
    let mut out: Vec<char> = Vec::new();
    match find_char_from(&v, ':', 0) {
        Some(i) => {
            assert(v@[i as int] == ':');
            out.push('[');
            push_str(&mut out, ip);
            out.push(']');
            out.push(':');
        },
        None => {
            push_str(&mut out, ip);
            out.push(':');
        },
    }
    push_i64(&mut out, port);
    assert(out@ =~= (if ip@.contains(':') {
        seq!['['] + ip@ + seq![']', ':'] + int_decimal(port as int)
    } else {
        ip@ + seq![':'] + int_decimal(port as int)
    }));
    string_from_chars(&out)
}

/// The first index of `c` in `s`, if any.
pub open spec fn first_index(s: Seq<char>, c: char) -> Option<int> {
    if s.contains(c) {
        Some(choose|i: int| 0 <= i < s.len() && s[i] == c && forall|k: int| 0 <= k < i ==> s[k] != c)
    } else {
        None
    }
}

/// The last index of `c` in `s`, if any.
pub open spec fn last_index(s: Seq<char>, c: char) -> Option<int> {
    if s.contains(c) {
        Some(choose|i: int| 0 <= i < s.len() && s[i] == c && forall|k: int| i < k < s.len() ==> s[k] != c)
    } else {
        None
    }
}

/// The first index at which `p` occurs in `s`, if any.
pub open spec fn first_occurrence(s: Seq<char>, p: Seq<char>) -> Option<int> {
    if exists|i: int| occurs_at(s, p, i) {
        Some(choose|i: int| occurs_at(s, p, i) && forall|k: int| 0 <= k < i ==> !occurs_at(s, p, k))
    } else {
        None
    }
}

/// What an address-track key reads as: `(ip, port, torrent id)`. The torrent
/// id ends at the first `|`; an address in brackets ends at the first `]:`,
/// otherwise the port follows the last `:`.
pub open spec fn addr_key_parts(key: Seq<char>) -> Option<(Seq<char>, int, Seq<char>)> {
    match first_index(key, '|') {
        None => None,
        Some(bar) => match raw_parts(key.subrange(bar + 1, key.len() as int)) {
            Some((ip, port)) => Some((ip, port, key.subrange(0, bar))),
            None => None,
        },
    }
}

/// What a raw `ip:port` key reads as: an address in brackets ends at the
/// first `]:`, otherwise the port follows the last `:`.
pub open spec fn raw_parts(raw: Seq<char>) -> Option<(Seq<char>, int)> {
    if raw.len() > 0 && raw[0] == '[' {
        bracketed_parts(raw.drop_first())
    } else {
        plain_parts(raw)
    }
}

/// `ip]:port` read as the address and the port.
#[verifier::opaque]
pub open spec fn bracketed_parts(rest: Seq<char>) -> Option<(Seq<char>, int)> {
    match first_occurrence(rest, seq![']', ':']) {
        None => None,
        Some(idx) => match parse_i64_spec(rest.subrange(idx + 2, rest.len() as int)) {
            Some(port) => Some((rest.subrange(0, idx), port)),
            None => None,
        },
    }
}

/// `ip:port` read as the address and the port, split at the last `:`.
#[verifier::opaque]
pub open spec fn plain_parts(raw: Seq<char>) -> Option<(Seq<char>, int)> {
    match last_index(raw, ':') {
        None => None,
        Some(colon) => match parse_i64_spec(raw.subrange(colon + 1, raw.len() as int)) {
            Some(port) => Some((raw.subrange(0, colon), port)),
            None => None,
        },
    }
}

/// The first `|` of `v`, as `first_index` describes it.
fn find_first(v: &Vec<char>, c: char) -> (r: Option<usize>)
    ensures
        match r {
            Some(i) => first_index(v@, c) == Some(i as int) && i < v@.len(),
            None => first_index(v@, c) is None,
        },
{
    match find_char_from(v, c, 0) {
        Some(i) => {
            assert(v@.contains(c));
            let ghost k = choose|k: int| 0 <= k < v@.len() && v@[k] == c && forall|j: int| 0 <= j < k ==> v@[j] != c;
            assert(k == i as int) by {
                if k < i { assert(v@[k] != c); }
                if k > i { assert(v@[i as int] != c); }
            }
            Some(i)
        },
        None => {
            assert(!v@.contains(c));
            None
        },
    }
}

/// The last occurrence of `c` in `v`.
fn find_last(v: &Vec<char>, c: char) -> (r: Option<usize>)
    ensures
        match r {
            Some(i) => last_index(v@, c) == Some(i as int) && i < v@.len(),
            None => last_index(v@, c) is None,
        },
{
    let mut i = v.len();
    while i > 0
        invariant
            i <= v@.len(),
            forall|k: int| i <= k < v@.len() ==> v@[k] != c,
        decreases i,
    {
        if v[i - 1] == c {
            let j = i - 1;
            assert(v@.contains(c));
            let ghost k = choose|k: int| 0 <= k < v@.len() && v@[k] == c && forall|m: int| k < m < v@.len() ==> v@[m] != c;
            assert(k == j as int) by {
                if k < j { assert(v@[j as int] != c); }
                if k > j { assert(v@[k] != c); }
            }
            return Some(j);
        }
        i -= 1;
    }
    assert(!v@.contains(c));
    None
}

/// Reads an address-track key `torrent id|raw ip` into `(ip, port, torrent id)`.
pub fn parse_addr_key(key: &str) -> (r: Option<(String, i64, String)>)
    ensures
        match (r, addr_key_parts(key@)) {
            (Some((ip, port, tid)), Some((sip, sport, stid))) => ip@ == sip && port == sport && tid@ == stid,
            (None, None) => true,
            _ => false,
        },
{
    let v = chars_of(key);
    let found = find_first(&v, '|');
    let bar = match found {
        Some(b) => b,
        None => return None,
    };
    let n = v.len();
    assert(bar < n);
    let tid = string_from_range(&v, 0, bar);
    let raw = crate::text::copy_range(&v, bar + 1, n);
    let ghost rawg = v@.subrange(bar + 1, v@.len() as int);
    proof {
        reveal(bracketed_parts);
        reveal(plain_parts);
    }
    if raw.len() > 0 && raw[0] == '[' {
        let rest = crate::text::copy_range(&raw, 1, raw.len());
        assert(rest@ =~= raw@.drop_first());
        let pat = chars_of("]:");
        assert(pat@ =~= seq![']', ':']) by { reveal_strlit("]:"); }
        match find_from(&rest, &pat, 0) {
            None => {
                assert(!exists|i: int| occurs_at(rest@, seq![']', ':'], i)) by {
                    if exists|i: int| occurs_at(rest@, seq![']', ':'], i) {
                        let i = choose|i: int| occurs_at(rest@, seq![']', ':'], i);
                        assert(0 <= i);
                    }
                }
                None
            },
            Some(idx) => {
                let ghost c = choose|i: int| occurs_at(rest@, seq![']', ':'], i) && forall|k: int| 0 <= k < i ==> !occurs_at(rest@, seq![']', ':'], k);
                assert(c == idx as int) by {
                    if c < idx { assert(!occurs_at(rest@, seq![']', ':'], c)); }
                    if c > idx { assert(!occurs_at(rest@, seq![']', ':'], idx as int)); }
                }
                match parse_i64(&rest, idx + 2, rest.len()) {
                    Some(port) => Some((string_from_range(&rest, 0, idx), port, tid)),
                    None => None,
                }
            },
        }
    } else {
        match find_last(&raw, ':') {
            None => None,
            Some(colon) => match parse_i64(&raw, colon + 1, raw.len()) {
                Some(port) => Some((string_from_range(&raw, 0, colon), port, tid)),
                None => None,
            },
        }
    }
}

/// Reads a block-track key `torrent id|block` into `(block, torrent id)`.
pub fn parse_range_key(key: &str) -> (r: Option<(String, String)>)
    ensures
        match (r, first_index(key@, '|')) {
            (Some((block, tid)), Some(bar)) => block@ == key@.subrange(bar + 1, key@.len() as int)
                && tid@ == key@.subrange(0, bar),
            (None, None) => true,
            _ => false,
        },
{
    let v = chars_of(key);
    let n = v.len();
    match find_first(&v, '|') {
        Some(bar) => {
            assert(bar < n);
            Some((string_from_range(&v, bar + 1, n), string_from_range(&v, 0, bar)))
        },
        None => None,
    }
}


/// The decimal text of a number holds neither `:` nor `]` nor `|`.
proof fn lemma_decimal_plain(p: int)
    ensures
        forall|i: int| 0 <= i < int_decimal(p).len() ==> {
            let c = #[trigger] int_decimal(p)[i];
            c != ':' && c != ']' && c != '|'
        },
{
    if p < 0 {
        let m: nat = (-p) as nat;
        crate::text::lemma_decimal_digits(m);
        let s = seq!['-'] + decimal(m);
        assert forall|i: int| 0 <= i < s.len() implies s[i] != ':' && s[i] != ']' && s[i] != '|' by {
            if i > 0 {
                assert(s[i] == decimal(m)[i - 1]);
                assert(crate::text::is_digit(decimal(m)[i - 1]));
            }
        }
    } else {
        let s = decimal(p as nat);
        crate::text::lemma_decimal_digits(p as nat);
        assert forall|i: int| 0 <= i < s.len() implies #[trigger] s[i] != ':' && s[i] != ']' && s[i] != '|' by {
            assert(crate::text::is_digit(s[i]));
        }
    }
}

proof fn lemma_first_bar(tid: Seq<char>, raw: Seq<char>)
    requires
        !tid.contains('|'),
    ensures
        first_index(addr_key_spec(tid, raw), '|') == Some(tid.len() as int),
        addr_key_spec(tid, raw).subrange(0, tid.len() as int) == tid,
        addr_key_spec(tid, raw).subrange(tid.len() as int + 1, addr_key_spec(tid, raw).len() as int) == raw,
{
    let key = addr_key_spec(tid, raw);
    let t = tid.len() as int;
    assert(key[t] == '|');
    assert(key.contains('|'));
    let bar = first_index(key, '|')->0;
    assert(bar == t) by {
        if bar < t {
            assert(key[bar] == tid[bar]);
        } else if bar > t {
            assert(key[t] != '|');
        }
    }
    assert(key.subrange(0, t) =~= tid);
    assert(key.subrange(t + 1, key.len() as int) =~= raw);
}

proof fn lemma_first_occurrence_is(s: Seq<char>, p: Seq<char>, n: int)
    requires
        occurs_at(s, p, n),
        forall|k: int| 0 <= k < n ==> !#[trigger] occurs_at(s, p, k),
    ensures
        first_occurrence(s, p) == Some(n),
{
    let idx = first_occurrence(s, p)->0;
    assert(idx == n) by {
        if idx < n {
            assert(!occurs_at(s, p, idx));
        } else if idx > n {
            assert(!occurs_at(s, p, n));
        }
    }
}

#[verifier::spinoff_prover]
#[verifier::rlimit(30)]
proof fn lemma_bracketed_parts(ip: Seq<char>, d: Seq<char>, port: int)
    requires
        !ip.contains(']'),
        parse_i64_spec(d) == Some(port),
    ensures
        bracketed_parts(ip + seq![']', ':'] + d) == Some((ip, port)),
{
    let rest = ip + seq![']', ':'] + d;
    let p = seq![']', ':'];
    let n = ip.len() as int;
    assert(rest.subrange(n, n + 2) =~= p);
    assert forall|k: int| 0 <= k < n implies !#[trigger] occurs_at(rest, p, k) by {
        assert(rest[k] == ip[k]);
        if occurs_at(rest, p, k) {
            assert(rest.subrange(k, k + 2)[0] == rest[k]);
            assert(p[0] == ']');
        }
    }
    lemma_first_occurrence_is(rest, p, n);
    assert(rest.subrange(0, n) =~= ip);
    assert(rest.subrange(n + 2, rest.len() as int) =~= d);
    reveal(bracketed_parts);
}

proof fn lemma_plain_parts(ip: Seq<char>, d: Seq<char>, port: int)
    requires
        forall|i: int| 0 <= i < d.len() ==> #[trigger] d[i] != ':',
        parse_i64_spec(d) == Some(port),
    ensures
        plain_parts(ip + seq![':'] + d) == Some((ip, port)),
{
    let raw = ip + seq![':'] + d;
    let n = ip.len() as int;
    assert(raw[n] == ':');
    assert(raw.contains(':'));
    let colon = last_index(raw, ':')->0;
    assert(colon == n) by {
        if colon < n {
            assert(raw[n] != ':');
        } else if colon > n {
            assert(raw[colon] == d[colon - n - 1]);
        }
    }
    assert(raw.subrange(0, n) =~= ip);
    assert(raw.subrange(n + 1, raw.len() as int) =~= d);
    reveal(plain_parts);
}

proof fn lemma_raw_parts_of_raw_ip(ip: Seq<char>, port: i64)
    requires
        !ip.contains(']'),
        ip.len() > 0 ==> ip[0] != '[',
    ensures
        raw_parts(raw_ip_spec(ip, port as int)) == Some((ip, port as int)),
{
    let raw = raw_ip_spec(ip, port as int);
    let d = int_decimal(port as int);
    crate::text::lemma_parse_i64_of_decimal(port);
    if ip.contains(':') {
        let rest = ip + seq![']', ':'] + d;
        assert(raw == seq!['['] + rest);
        assert(raw.drop_first() =~= rest);
        lemma_bracketed_parts(ip, d, port as int);
    } else {
        assert(raw == ip + seq![':'] + d);
        assert(!(raw.len() > 0 && raw[0] == '[')) by {
            if ip.len() == 0 {
                assert(raw[0] == ':');
            } else {
                assert(raw[0] == ip[0]);
            }
        }
        lemma_decimal_plain(port as int);
        lemma_plain_parts(ip, d, port as int);
    }
}

/// Address-track keys read back: the key written for a torrent id and an
/// address text gives back the address, the port and the torrent id, when
/// the torrent id holds no `|`, and the address no `]` and does not start
/// with `[` (what address texts and torrent hashes satisfy).
pub proof fn lemma_addr_key_roundtrip(tid: Seq<char>, ip: Seq<char>, port: i64)
    requires
        !tid.contains('|'),
        !ip.contains(']'),
        ip.len() > 0 ==> ip[0] != '[',
    ensures
        addr_key_parts(addr_key_spec(tid, raw_ip_spec(ip, port as int))) == Some((ip, port as int, tid)),
{
    let raw = raw_ip_spec(ip, port as int);
    lemma_raw_parts_of_raw_ip(ip, port);
    lemma_first_bar(tid, raw);
}
/// With excessive-upload blocking turned off, no sample is ever judged as
/// excessive upload, whatever the upload, the torrent and the tracks.
pub proof fn lemma_excessive_needs_setting(p: PcbParams, a: PcbTrack, r: PcbTrack, size: i64, completed: i64,
    uploading: bool, cu: i64, now: i64, f: PcbFacts)
    requires
        !p.block_excessive,
    ensures
        pcb_step(p, a, r, size, completed, uploading, cu, now, f).0 != PcbVerdict::Excessive,
        pcb_step(p, a, r, size, completed, uploading, cu, now, f).0 != PcbVerdict::ExcessiveIncomplete,
{
}

/// An excessive-upload verdict means the setting is on and we uploaded more
/// than the whole torrent.
pub proof fn lemma_excessive_means_more_than_torrent(p: PcbParams, a: PcbTrack, r: PcbTrack, size: i64,
    completed: i64, uploading: bool, cu: i64, now: i64, f: PcbFacts)
    requires
        pcb_step(p, a, r, size, completed, uploading, cu, now, f).0 == PcbVerdict::Excessive,
    ensures
        p.block_excessive,
        uploading,
        cu > size,
        f.over_size,
{
}

} // verus!

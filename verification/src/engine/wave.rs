//! The ban wave as a state machine. The program runs a wave on a timer: it
//! lifts the expired bans and tells the modules, then takes the downloaders
//! one by one (skip a paused one or one whose login is held, log in, read the
//! torrents, judge the peers of each, push the ban list). Each of those is
//! outside work; `wave_step` decides, from the state and what the last piece
//! of work reported, what to do next.

use vstd::prelude::*;
use crate::domain::ban::BanMetadata;
use crate::engine::ban_list::{BanList, texts_of, unexpired, expired_keys, values_of};
use crate::text::deep_strings;

verus! {

/// Where a wave stands.
#[derive(Debug, Clone, Copy, PartialEq, Eq, Structural)]
pub enum WavePhase {
    /// No wave runs.
    Idle,
    /// The expired bans were lifted; the modules are being told.
    Notifying,
    /// Asking whether the current downloader is paused or its login held.
    Inspecting,
    /// Logging in to the current downloader.
    LoggingIn,
    /// Reading the current downloader's torrents.
    Listing,
    /// Reading and judging the peers of the current torrent.
    Judging,
    /// Pushing the ban list to the current downloader.
    Pushing,
}

/// A phase that works on the current downloader.
pub open spec fn downloader_phase(p: WavePhase) -> bool {
    !(p is Idle) && !(p is Notifying)
}

/// A phase that comes after a successful login to the current downloader.
pub open spec fn logged_in_phase(p: WavePhase) -> bool {
    p is Listing || p is Judging || p is Pushing
}

/// The state of the wave loop.
#[derive(Debug)]
pub struct WaveState {
    pub phase: WavePhase,
    /// The index of the current downloader.
    pub downloader: usize,
    /// How many downloaders this wave takes.
    pub downloaders: usize,
    /// The index of the current torrent of the current downloader.
    pub torrent: usize,
    /// How many torrents the current downloader has.
    pub torrents: usize,
    /// The raw keys of the peers banned at the current downloader so far.
    pub newly: Vec<String>,
}

impl WaveState {
    /// The state's fields agree with its phase.
    pub open spec fn wf(&self) -> bool {
        &&& self.downloader <= self.downloaders
        &&& downloader_phase(self.phase) ==> self.downloader < self.downloaders
        &&& self.phase is Judging ==> self.torrent < self.torrents
    }

    /// No wave running.
    pub fn new() -> (r: WaveState)
        ensures
            r.wf(),
            r.phase == WavePhase::Idle,
            r.newly@.len() == 0,
    {
        WaveState { phase: WavePhase::Idle, downloader: 0, downloaders: 0, torrent: 0, torrents: 0, newly: Vec::new() }
    }
}

/// What the last piece of outside work reported.
#[derive(Debug)]
pub enum WaveEvent {
    /// The timer fired at `now`, with `downloaders` downloaders configured.
    Tick { now: i64, downloaders: usize },
    /// The modules were told of the lifted bans.
    Notified,
    /// The current downloader is paused or not; its login may be tried now or is held.
    Status { paused: bool, login_ready: bool },
    /// The login to the current downloader was accepted or not.
    LoggedIn { accepted: bool },
    /// The number of torrents of the current downloader, `None` when reading them failed.
    Torrents { count: Option<usize> },
    /// The peers of the current torrent were read (or reading them failed)
    /// and judged; `newly` holds the raw keys of the peers banned.
    Peers { newly: Vec<String> },
    /// The ban list was pushed (or pushing failed).
    Pushed,
}

/// What to do next.
#[derive(Debug)]
pub enum WaveAction {
    /// A wave is still running: this tick does nothing.
    Busy,
    /// The bans in `lifted` ran out and were taken off the list: tell the modules.
    Notify { lifted: Vec<BanMetadata> },
    /// Ask whether downloader `downloader` is paused or its login held.
    Inspect { downloader: usize },
    /// Log in to the downloader.
    Login { downloader: usize },
    /// Read the downloader's torrents.
    FetchTorrents { downloader: usize },
    /// Read and judge the peers of a torrent of the downloader.
    FetchPeers { downloader: usize, torrent: usize },
    /// Send the downloader the whole ban list `full`, with `newly` the peers banned there in this wave.
    Push { downloader: usize, full: Vec<String>, newly: Vec<String> },
    /// The wave is over.
    Done,
    /// The report does not belong to the current phase: nothing changes.
    Ignored,
}

/// An action on a downloader.
pub open spec fn downloader_action(a: WaveAction) -> bool {
    a is Inspect || a is Login || a is FetchTorrents || a is FetchPeers || a is Push
}

/// `s` has moved on to downloader `d` (or ended the wave when there is none),
/// forgetting everything about the previous one; `a` is what follows.
pub open spec fn moved_to(s: WaveState, a: WaveAction, d: int) -> bool {
    &&& s.downloader == d
    &&& s.newly@.len() == 0
    &&& s.torrent == 0
    &&& s.torrents == 0
    &&& d < s.downloaders ==> s.phase == WavePhase::Inspecting && a == (WaveAction::Inspect { downloader: d as usize })
    &&& d >= s.downloaders ==> s.phase == WavePhase::Idle && a == WaveAction::Done
}

/// Moves on to downloader `d`.
fn move_to(state: &mut WaveState, d: usize) -> (a: WaveAction)
    requires
        d <= old(state).downloaders,
    ensures
        final(state).wf(),
        final(state).downloaders == old(state).downloaders,
        moved_to(*final(state), a, d as int),
{
    state.downloader = d;
    state.newly = Vec::new();
    state.torrent = 0;
    state.torrents = 0;
    if d < state.downloaders {
        state.phase = WavePhase::Inspecting;
        WaveAction::Inspect { downloader: d }
    } else {
        state.phase = WavePhase::Idle;
        WaveAction::Done
    }
}

/// Ends the current downloader's round: push the whole list and the bans
/// made there in this wave.
fn push_bans(state: &mut WaveState, list: &BanList) -> (a: WaveAction)
    requires
        old(state).wf(),
        old(state).downloader < old(state).downloaders,
    ensures
        final(state).wf(),
        final(state).phase == WavePhase::Pushing,
        final(state).downloader == old(state).downloader,
        final(state).downloaders == old(state).downloaders,
        final(state).newly@.len() == 0,
        a matches WaveAction::Push { downloader, full, newly } && downloader == old(state).downloader
            && texts_of(deep_strings(full@), list@) && newly@ == old(state).newly@,
{
    let full = list.network_texts();
    let mut newly: Vec<String> = Vec::new();
    std::mem::swap(&mut newly, &mut state.newly);
    state.phase = WavePhase::Pushing;
    WaveAction::Push { downloader: state.downloader, full, newly }
}

/// One step of the wave loop: what `event` changes and what to do next.
///
/// - A tick while a wave runs is refused (`Busy`). A tick otherwise starts
///   a wave: the expired bans are taken off the list at once and the first
///   thing asked for is to tell the modules; no downloader is touched until
///   that is reported done.
/// - A paused downloader, or one whose login is held or was not accepted,
///   is passed over: nothing is read from it and nothing pushed to it.
/// - After the last torrent of a downloader (or at once when it has none),
///   one push carries the whole ban list and exactly the keys banned there
///   in this wave; a downloader whose torrents could not be read is passed
///   over without a push.
pub fn wave_step(state: &mut WaveState, list: &mut BanList, event: WaveEvent) -> (action: WaveAction)
    requires
        old(state).wf(),
    ensures
        final(state).wf(),
        // only a tick that starts a wave touches the list
        !(event is Tick && old(state).phase == WavePhase::Idle) ==> final(list)@ == old(list)@,
        // a running wave refuses a new one
        event is Tick && old(state).phase != WavePhase::Idle ==> action == WaveAction::Busy && *final(state)
            == *old(state),
        // starting a wave: lift the expired bans, then tell the modules
        match event {
            WaveEvent::Tick { now, downloaders } => old(state).phase == WavePhase::Idle ==> {
                &&& final(list)@ == unexpired(old(list)@, now)
                &&& action matches WaveAction::Notify { lifted } && values_of(
                    lifted@,
                    expired_keys(old(list)@, now),
                    old(list)@,
                )
                &&& final(state).phase == WavePhase::Notifying
                &&& final(state).downloaders == downloaders
                &&& final(state).newly@.len() == 0
            },
            _ => true,
        },
        // the modules were told: the downloaders come next, from the first
        event is Notified && old(state).phase == WavePhase::Notifying ==> moved_to(*final(state), action, 0)
            && final(state).downloaders == old(state).downloaders,
        // a paused downloader or a held login is passed over; else log in
        match event {
            WaveEvent::Status { paused, login_ready } => old(state).phase == WavePhase::Inspecting ==> if paused
                || !login_ready {
                moved_to(*final(state), action, old(state).downloader + 1)
                    && final(state).downloaders == old(state).downloaders
            } else {
                action == (WaveAction::Login { downloader: old(state).downloader })
                    && final(state).phase == WavePhase::LoggingIn && final(state).downloader
                    == old(state).downloader && final(state).downloaders == old(state).downloaders
                    && final(state).newly@ == old(state).newly@
            },
            _ => true,
        },
        // a refused or failed login is passed over; else read the torrents
        match event {
            WaveEvent::LoggedIn { accepted } => old(state).phase == WavePhase::LoggingIn ==> if accepted {
                action == (WaveAction::FetchTorrents { downloader: old(state).downloader })
                    && final(state).phase == WavePhase::Listing && final(state).downloader
                    == old(state).downloader && final(state).downloaders == old(state).downloaders
                    && final(state).newly@ == old(state).newly@
            } else {
                moved_to(*final(state), action, old(state).downloader + 1)
                    && final(state).downloaders == old(state).downloaders
            },
            _ => true,
        },
        // the torrents: none readable passes over, none at all pushes, else the first one's peers
        match event {
            WaveEvent::Torrents { count } => old(state).phase == WavePhase::Listing ==> match count {
                None => moved_to(*final(state), action, old(state).downloader + 1)
                    && final(state).downloaders == old(state).downloaders,
                Some(k) => if k == 0 {
                    action matches WaveAction::Push { downloader, full, newly } && downloader
                        == old(state).downloader && texts_of(deep_strings(full@), old(list)@) && newly@
                        == old(state).newly@ && final(state).phase == WavePhase::Pushing
                        && final(state).newly@.len() == 0
                } else {
                    action == (WaveAction::FetchPeers { downloader: old(state).downloader, torrent: 0 })
                        && final(state).phase == WavePhase::Judging && final(state).torrent == 0
                        && final(state).torrents == k && final(state).downloader == old(state).downloader
                        && final(state).newly@ == old(state).newly@
                },
            },
            _ => true,
        },
        // judged peers: their bans are kept for the push; then the next
        // torrent, or after the last one the push of the whole list
        match event {
            WaveEvent::Peers { newly: got } => old(state).phase == WavePhase::Judging ==> if old(state).torrent
                + 1 < old(state).torrents {
                action == (WaveAction::FetchPeers {
                    downloader: old(state).downloader,
                    torrent: (old(state).torrent + 1) as usize,
                }) && final(state).phase == WavePhase::Judging && final(state).torrent == old(state).torrent
                    + 1 && final(state).torrents == old(state).torrents && final(state).downloader
                    == old(state).downloader && final(state).newly@ == old(state).newly@ + got@
            } else {
                action matches WaveAction::Push { downloader, full, newly } && downloader
                    == old(state).downloader && texts_of(deep_strings(full@), old(list)@)
                    && deep_strings(newly@) == deep_strings(old(state).newly@) + deep_strings(got@)
                    && final(state).phase == WavePhase::Pushing && final(state).newly@.len() == 0
            },
            _ => true,
        },
        // pushed: on to the next downloader
        event is Pushed && old(state).phase == WavePhase::Pushing ==> moved_to(
            *final(state),
            action,
            old(state).downloader + 1,
        ) && final(state).downloaders == old(state).downloaders,
        // a report that does not belong to the phase changes nothing
        action is Ignored ==> *final(state) == *old(state),
        // no downloader is touched before the expired bans are lifted and the modules told
        old(state).phase == WavePhase::Idle ==> !downloader_action(action),
        old(state).phase == WavePhase::Notifying && downloader_action(action) ==> event is Notified,
        downloader_phase(final(state).phase) ==> downloader_phase(old(state).phase) || (old(state).phase
            == WavePhase::Notifying && event is Notified),
        // nothing is read from a downloader without a login accepted in this wave
        action is FetchTorrents ==> (event matches WaveEvent::LoggedIn { accepted } && accepted),
        action is FetchPeers ==> logged_in_phase(old(state).phase),
        logged_in_phase(final(state).phase) ==> (logged_in_phase(old(state).phase) || (event matches WaveEvent::LoggedIn {
            accepted,
        } && accepted)),
{
    match event {
        WaveEvent::Tick { now, downloaders } => {
            if state.phase != WavePhase::Idle {
                return WaveAction::Busy;
            }
            let lifted = list.remove_expired(now);
            *state = WaveState {
                phase: WavePhase::Notifying,
                downloader: 0,
                downloaders,
                torrent: 0,
                torrents: 0,
                newly: Vec::new(),
            };
            WaveAction::Notify { lifted }
        },
        WaveEvent::Notified => {
            if state.phase != WavePhase::Notifying {
                return WaveAction::Ignored;
            }
            move_to(state, 0)
        },
        WaveEvent::Status { paused, login_ready } => {
            if state.phase != WavePhase::Inspecting {
                return WaveAction::Ignored;
            }
            if paused || !login_ready {
                let next = state.downloader + 1;
                move_to(state, next)
            } else {
                state.phase = WavePhase::LoggingIn;
                WaveAction::Login { downloader: state.downloader }
            }
        },
        WaveEvent::LoggedIn { accepted } => {
            if state.phase != WavePhase::LoggingIn {
                return WaveAction::Ignored;
            }
            if accepted {
                state.phase = WavePhase::Listing;
                WaveAction::FetchTorrents { downloader: state.downloader }
            } else {
                let next = state.downloader + 1;
                move_to(state, next)
            }
        },
        WaveEvent::Torrents { count } => {
            if state.phase != WavePhase::Listing {
                return WaveAction::Ignored;
            }
            match count {
                None => {
                    let next = state.downloader + 1;
                    move_to(state, next)
                },
                Some(k) => {
                    if k == 0 {
                        push_bans(state, list)
                    } else {
                        state.phase = WavePhase::Judging;
                        state.torrent = 0;
                        state.torrents = k;
                        WaveAction::FetchPeers { downloader: state.downloader, torrent: 0 }
                    }
                },
            }
        },
        WaveEvent::Peers { newly } => {
            if state.phase != WavePhase::Judging {
                return WaveAction::Ignored;
            }
            let mut got = newly;
            let ghost before = state.newly@;
            let ghost got_before = got@;
            state.newly.append(&mut got);
            if state.torrent + 1 < state.torrents {
                state.torrent = state.torrent + 1;
                WaveAction::FetchPeers { downloader: state.downloader, torrent: state.torrent }
            } else {
                let a = push_bans(state, list);
                proof {
                    if let WaveAction::Push { newly: ref n, .. } = a {
                        assert(deep_strings(n@) =~= deep_strings(before) + deep_strings(got_before));
                    }
                }
                a
            }
        },
        WaveEvent::Pushed => {
            if state.phase != WavePhase::Pushing {
                return WaveAction::Ignored;
            }
            let next = state.downloader + 1;
            move_to(state, next)
        },
    }
}

} // verus!

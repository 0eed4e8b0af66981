//! The state and decisions of the mpv controller for one player session:
//! loads and their handoff, the playstate that mpv's property changes
//! update, the resume seek after a load, and segment skipping. Talking to
//! mpv and to the server is the caller's work: each decision hands back
//! what to do, and the caller reports outcomes through the methods here.
//! Times are milliseconds on the controller's monotonic clock.
use vstd::prelude::*;

use crate::context::Identity;
use crate::model::{is_mark_watched_next_message, mark_watched_message_spec, opt_str, str_eq, ReportingState, StopReason};
use crate::properties::{apply_property_spec, PropertyData, PropertyEffect};
use crate::segments::{
    prompt_spec, SegmentSkipAction, SegmentSkipConfig, SegmentSkipState, SkipSegment, AUTO_SKIP_DELAY_MS,
};
use crate::skipper::{begin_skip_spec, lift_spec, reconfigured_spec, SegmentSkipper, SkipperAction};
use crate::startup::{
    after_sent_spec, after_startup_seek_sent, defer_startup_position_update, due_startup_seek, held_spec,
    queue_startup_seek, queued_spec, SeekOutcome, StartupSeek,
};
use crate::text::opt_string_view;
use crate::transition::{
    activate_spec, finish_spec, id_current_spec, mark_watched_spec, positive, reason_view, suppress_spec, PendingPlayback,
    TransitionEvent, Transitions,
};

verus! {

/// The controller's session state.
#[derive(Debug)]
pub struct MpvSession {
    pub transitions: Transitions,
    pub volume: Option<i64>,
    pub mute: Option<bool>,
    /// The resume seek waiting to land.
    pub startup_seek: Option<StartupSeek>,
    pub skipper: SegmentSkipper,
    /// Loads sent to mpv recently, oldest first.
    pub recent_loads: Vec<RecentLoad>,
    /// When progress of the active playback was last reported.
    pub progress: ProgressClock,
}

/// When progress was last reported, in milliseconds, and the pause state it reported.
#[derive(Debug, Clone, Copy, PartialEq, Eq)]
pub struct ProgressClock {
    pub last_sent_ms: u64,
    pub last_pause: bool,
}

/// How often the active playback's progress is reported, in milliseconds.
pub const PROGRESS_INTERVAL_MS: u64 = 10_000;

/// How long the same load is ignored after it was sent, in milliseconds.
pub const DUPLICATE_DEBOUNCE_MS: u64 = 2_000;

/// How long a load may wait for mpv to report it loaded, in milliseconds.
pub const PENDING_FILE_LOADED_TIMEOUT_MS: u64 = 60_000;

/// A load sent to mpv.
#[derive(Debug)]
pub struct RecentLoad {
    pub key: String,
    pub seen_at_ms: u64,
}

/// `now - since`, or zero when the clock reads earlier.
pub open spec fn elapsed(since: u64, now: u64) -> int {
    if now > since {
        now - since
    } else {
        0
    }
}

/// A recent load that no longer counts as recent at `now`.
pub open spec fn stale(l: RecentLoad, now: u64) -> bool {
    elapsed(l.seen_at_ms, now) > DUPLICATE_DEBOUNCE_MS
}

/// The recent loads without the stale ones at their front.
pub open spec fn pruned_loads(s: Seq<RecentLoad>, now: u64) -> Seq<RecentLoad>
    decreases s.len(),
{
    if s.len() > 0 && stale(s[0], now) {
        pruned_loads(s.drop_first(), now)
    } else {
        s
    }
}

/// Whether a load with dedupe key `key` repeats the pending load or a
/// recent one at `now`.
pub open spec fn duplicate_spec(s: MpvSession, key: Seq<char>, now: u64) -> bool {
    ||| (s.transitions.pending matches Some(p) && p.key@ == key)
    ||| exists|i: int| 0 <= i < s.recent_loads@.len() && (#[trigger] s.recent_loads@[i]).key@ == key && !stale(s.recent_loads@[i], now)
}

/// Whether the pending load waited too long for mpv at `now`.
pub open spec fn timed_out_spec(t: Transitions, now: u64) -> bool {
    t.pending matches Some(p) && elapsed(p.requested_at_ms, now) > PENDING_FILE_LOADED_TIMEOUT_MS
}

/// What to do with a load request.
#[derive(Debug, Clone, Copy, PartialEq, Eq)]
pub enum LoadGate {
    /// The same load was just sent, or is pending: ignore it.
    Duplicate,
    /// Another load is still pending: ignore it.
    Busy,
    /// Send it.
    Proceed,
}

/// How a load gets an mpv process.
#[derive(Debug, Clone, Copy, PartialEq, Eq)]
pub enum MpvStart {
    /// Shutdown was asked for: start nothing.
    Refuse,
    /// The running mpv fits and its IPC writer lives: use it.
    Reuse,
    /// The running mpv has another executable or a dead IPC writer: end
    /// playback, stop it and start a new one.
    Restart,
    /// No mpv runs: start one.
    Start,
}

/// How a load gets mpv, from whether shutdown was asked for, whether the
/// mpv process lives, whether it runs the configured executable and whether
/// its IPC writer lives.
pub open spec fn mpv_start_spec(
    shutdown_requested: bool,
    child_alive: bool,
    path_matches: bool,
    writer_alive: bool,
) -> MpvStart {
    if shutdown_requested {
        MpvStart::Refuse
    } else if child_alive && path_matches && writer_alive {
        MpvStart::Reuse
    } else if child_alive {
        MpvStart::Restart
    } else {
        MpvStart::Start
    }
}

/// How a load gets mpv: refused during shutdown, the running process
/// reused when it runs the configured executable with a live IPC writer,
/// restarted when it runs but does not fit, started when none runs.
pub fn mpv_start_decision(shutdown_requested: bool, child_alive: bool, path_matches: bool, writer_alive: bool) -> (r:
    MpvStart)
    ensures
        r == mpv_start_spec(shutdown_requested, child_alive, path_matches, writer_alive),
{
    if shutdown_requested {
        MpvStart::Refuse
    } else if child_alive && path_matches && writer_alive {
        MpvStart::Reuse
    } else if child_alive {
        MpvStart::Restart
    } else {
        MpvStart::Start
    }
}

/// The kind of an mpv event.
#[derive(Debug, Clone, Copy, PartialEq, Eq)]
pub enum MpvEventKind {
    FileLoaded,
    EndFile,
    Shutdown,
    Seek,
    PropertyChange,
    MarkWatchedNext,
    Other,
}

/// An event mpv sent, as read from it.
#[derive(Debug)]
pub struct MpvEvent {
    pub name: String,
    pub reason: Option<String>,
    pub property: Option<String>,
    pub data: PropertyData,
    pub args: Vec<String>,
}

/// The fields of one line from mpv's IPC socket that the controller reads,
/// each a string where the line's JSON value held one there.
#[derive(Debug)]
pub struct IpcLine {
    pub event: Option<String>,
    pub reason: Option<String>,
    pub name: Option<String>,
    pub data: PropertyData,
    /// The `args` array, each element a string where it is one; none when
    /// the line has no `args` array.
    pub args: Option<Vec<Option<String>>>,
}

/// The strings among `args`, in order.
pub open spec fn string_args(args: Seq<Option<String>>) -> Seq<String>
    decreases args.len(),
{
    if args.len() == 0 {
        Seq::empty()
    } else {
        let rest = string_args(args.drop_last());
        match args.last() {
            Some(a) => rest.push(a),
            None => rest,
        }
    }
}

/// The client-message arguments of a line: its string arguments, none
/// without an `args` array.
pub open spec fn line_args(args: Option<Vec<Option<String>>>) -> Seq<String> {
    match args {
        Some(a) => string_args(a@),
        None => Seq::empty(),
    }
}

/// The kind of an event named `name` with client-message arguments `args`.
pub open spec fn event_kind_spec(name: Seq<char>, args: Seq<String>) -> MpvEventKind {
    if name == "file-loaded"@ {
        MpvEventKind::FileLoaded
    } else if name == "end-file"@ {
        MpvEventKind::EndFile
    } else if name == "shutdown"@ {
        MpvEventKind::Shutdown
    } else if name == "seek"@ {
        MpvEventKind::Seek
    } else if name == "property-change"@ {
        MpvEventKind::PropertyChange
    } else if name == "client-message"@ && mark_watched_message_spec(args) {
        MpvEventKind::MarkWatchedNext
    } else {
        MpvEventKind::Other
    }
}

/// What handling an mpv event asks of the caller.
#[derive(Debug)]
pub struct EventOutcome {
    /// Reports and notifications, in order.
    pub events: Vec<TransitionEvent>,
    /// A segment-skip request.
    pub skip: Option<SkipperAction>,
    /// mpv shut down: stop its process and start the configured one again.
    pub restart: bool,
}

/// The session state after a reset of the mpv process: no resume seek, no
/// segments, no end of a replaced file to wait for; with nothing pending or
/// active, no runtime and mpv inactive.
pub open spec fn reset_transitions(t: Transitions) -> Transitions {
    if t.active is None && t.pending is None {
        Transitions {
            playback_runtime_ticks: None,
            mpv_playback_active: false,
            replacement_end_pending: false,
            ..t
        }
    } else {
        Transitions { replacement_end_pending: false, ..t }
    }
}

/// The playstate the controller reports.
pub open spec fn playstate(s: MpvSession) -> ReportingState {
    ReportingState {
        position_ticks: s.transitions.position_ticks,
        pause: s.transitions.pause,
        duration_ticks: s.transitions.duration_ticks,
        volume: s.volume,
        mute: s.mute,
        eof_reached: s.transitions.eof_reached,
    }
}

/// A seek start already recorded, else `position`.
pub open spec fn or_start(start: Option<i64>, position: i64) -> Option<i64> {
    match start {
        Some(s) => Some(s),
        None => Some(position),
    }
}

/// The two skippers agree in everything.
pub open spec fn same_skipper(a: SegmentSkipper, b: SegmentSkipper) -> bool {
    &&& b.segments@ == a.segments@
    &&& b.state == a.state
    &&& b.seek_started_at_ticks == a.seek_started_at_ticks
    &&& b.config == a.config
}

/// The skipper after mpv reported position `t`: a native seek waiting for
/// a position is decided first; when that asks for no seek, the skip state
/// machine takes the position.
pub open spec fn take_position_spec(k: SegmentSkipper, t: i64, now: u64) -> (
    Seq<SkipSegment>,
    SegmentSkipState,
    Option<i64>,
    Option<SkipperAction>,
) {
    let acc = k.accept_spec(t, now);
    if acc.3 is Some {
        acc
    } else {
        let u = acc.1.update_spec(acc.0, k.config, t, now);
        (acc.0, u.0, acc.2, lift_spec(u.1))
    }
}

/// `new` and the result `r` are what a position report `t` at clock reading
/// `now` makes of `old`: while the resume seek is pending and the position
/// lies well before its target, the report is held back and nothing
/// changes; otherwise the resume seek is over, the position is taken and
/// the skipper decides.
pub open spec fn took_position(old: MpvSession, new: MpvSession, t: i64, now: u64, r: Option<SkipperAction>) -> bool {
    if old.startup_seek matches Some(s) && held_spec(s, t) {
        &&& new.startup_seek == old.startup_seek
        &&& new.transitions == old.transitions
        &&& same_skipper(old.skipper, new.skipper)
        &&& r is None
    } else {
        &&& new.startup_seek is None
        &&& new.transitions == (Transitions { position_ticks: t, ..old.transitions })
        &&& (new.skipper.segments@, new.skipper.state, new.skipper.seek_started_at_ticks, r)
            == take_position_spec(old.skipper, t, now)
        &&& new.skipper.config == old.skipper.config
    }
}

/// `new` and the result `r` are what a change of property `name` to
/// `data` at clock reading `now` makes of `old`.
pub open spec fn applied_property(
    old: MpvSession,
    new: MpvSession,
    name: Seq<char>,
    data: PropertyData,
    now: u64,
    r: Option<SkipperAction>,
) -> bool {
    let (st, effect) = apply_property_spec(playstate(old), name, data);
    &&& new.progress == old.progress
    &&& match effect {
        PropertyEffect::PositionSample(t) => took_position(old, new, t, now, r)
            && new.volume == old.volume && new.mute == old.mute,
        PropertyEffect::Seeking(b) => {
            &&& new.transitions == old.transitions
            &&& new.volume == old.volume
            &&& new.mute == old.mute
            &&& new.startup_seek == old.startup_seek
            &&& new.skipper.config == old.skipper.config
            &&& b ==> new.skipper.seek_started_at_ticks == or_start(
                old.skipper.seek_started_at_ticks,
                old.transitions.position_ticks,
            ) && new.skipper.segments@ == old.skipper.segments@
                && new.skipper.state == old.skipper.state && r is None
            &&& !b ==> (
                new.skipper.segments@,
                new.skipper.state,
                new.skipper.seek_started_at_ticks,
                r,
            ) == old.skipper.accept_spec(old.transitions.position_ticks, now)
        },
        _ => {
            &&& new.transitions == (Transitions {
                pause: st.pause,
                duration_ticks: st.duration_ticks,
                eof_reached: st.eof_reached,
                ..old.transitions
            })
            &&& new.volume == st.volume
            &&& new.mute == st.mute
            &&& new.startup_seek == old.startup_seek
            &&& same_skipper(old.skipper, new.skipper)
            &&& r is None
        },
    }
}

/// The two sessions agree in everything.
pub open spec fn same_session(a: MpvSession, b: MpvSession) -> bool {
    &&& b.transitions == a.transitions
    &&& b.volume == a.volume
    &&& b.mute == a.mute
    &&& b.startup_seek == a.startup_seek
    &&& same_skipper(a.skipper, b.skipper)
    &&& b.recent_loads@ == a.recent_loads@
    &&& b.progress == a.progress
}

/// Everything but the transitions, the resume seek and the progress clock agrees.
pub open spec fn same_but_playback(a: MpvSession, b: MpvSession) -> bool {
    &&& b.volume == a.volume
    &&& b.mute == a.mute
    &&& same_skipper(a.skipper, b.skipper)
    &&& b.recent_loads@ == a.recent_loads@
}

/// `new` and `events` are what activating the pending load at `now` makes
/// of `old`: the transition, and the resume seek queued for a pending load.
pub open spec fn activated(old: MpvSession, new: MpvSession, now: u64, events: Seq<TransitionEvent>) -> bool {
    &&& (new.transitions, events) == activate_spec(old.transitions)
    &&& new.startup_seek == (match old.transitions.pending {
        Some(p) => queued_spec(p.start_ticks, now),
        None => old.startup_seek,
    })
    &&& new.progress == (if old.transitions.pending matches Some(p) && p.has_reporter {
        ProgressClock { last_sent_ms: now, last_pause: false }
    } else {
        old.progress
    })
    &&& same_but_playback(old, new)
}

/// `new` and `events` are what finishing for `reason` at `now` makes of
/// `old`: the resume seek is dropped, whether or not the end is ignored.
pub open spec fn finished(
    old: MpvSession,
    new: MpvSession,
    reason: Option<Seq<char>>,
    now: u64,
    events: Seq<TransitionEvent>,
) -> bool {
    &&& (new.transitions, events) == finish_spec(old.transitions, reason, now)
    &&& new.startup_seek is None
    &&& new.progress == old.progress
    &&& same_but_playback(old, new)
}

/// `new` and `events` are what marking watched at `now` makes of `old`;
/// the resume seek is dropped.
pub open spec fn watched(old: MpvSession, new: MpvSession, now: u64, events: Seq<TransitionEvent>) -> bool {
    &&& (new.transitions, events) == mark_watched_spec(old.transitions, now)
    &&& new.startup_seek is None
    &&& new.progress == old.progress
    &&& same_but_playback(old, new)
}

/// `new` is `old` after a reset of the mpv process, its transitions having
/// become `t` before.
pub open spec fn was_reset(t: Transitions, old: MpvSession, new: MpvSession) -> bool {
    &&& new.transitions == reset_transitions(t)
    &&& new.startup_seek is None
    &&& new.skipper.segments@ == Seq::<SkipSegment>::empty()
    &&& new.skipper.state == SegmentSkipState::empty()
    &&& new.skipper.seek_started_at_ticks is None
    &&& new.skipper.config == old.skipper.config
    &&& new.volume == old.volume
    &&& new.mute == old.mute
    &&& new.recent_loads@ == old.recent_loads@
    &&& new.progress == old.progress
}

/// `new` and `events` are what mpv shutting down at `now` makes of `old`:
/// playback finishes as quit, then the session is reset.
pub open spec fn shut_down(old: MpvSession, new: MpvSession, now: u64, events: Seq<TransitionEvent>) -> bool {
    let f = finish_spec(old.transitions, Some("quit"@), now);
    &&& events == f.1
    &&& was_reset(f.0, old, new)
}

/// `new` is `old` after mpv started a seek: inside a prompting segment the
/// seek start is the current position.
pub open spec fn seek_noted(old: MpvSession, new: MpvSession) -> bool {
    &&& new.skipper.seek_started_at_ticks == (if prompt_spec(
        old.skipper.segments@,
        old.skipper.config,
        old.transitions.position_ticks,
    ) is Some {
        Some(old.transitions.position_ticks)
    } else {
        old.skipper.seek_started_at_ticks
    })
    &&& new.skipper.segments@ == old.skipper.segments@
    &&& new.skipper.state == old.skipper.state
    &&& new.skipper.config == old.skipper.config
    &&& new.transitions == old.transitions
    &&& new.startup_seek == old.startup_seek
    &&& new.volume == old.volume
    &&& new.mute == old.mute
    &&& new.recent_loads@ == old.recent_loads@
    &&& new.progress == old.progress
}

/// `new`, `gate` and `events` are what asking whether to send a load with
/// dedupe key `key` at `now` makes of `old`: the recent loads are pruned, a
/// pending load that waited too long fails, and then a repeat is a
/// duplicate and any load while another is pending is busy.
pub open spec fn gated(
    old: MpvSession,
    new: MpvSession,
    key: Seq<char>,
    now: u64,
    gate: LoadGate,
    events: Seq<TransitionEvent>,
) -> bool {
    &&& new.recent_loads@ == pruned_loads(old.recent_loads@, now)
    &&& timed_out_spec(old.transitions, now) ==> (new.transitions, events) == finish_spec(
        old.transitions,
        Some("error"@),
        now,
    )
    &&& !timed_out_spec(old.transitions, now) ==> new.transitions == old.transitions && events
        == Seq::<TransitionEvent>::empty()
    &&& gate == (if duplicate_spec(new, key, now) {
        LoadGate::Duplicate
    } else if new.transitions.pending is Some {
        LoadGate::Busy
    } else {
        LoadGate::Proceed
    })
    &&& new.startup_seek == (if timed_out_spec(old.transitions, now) {
        None
    } else {
        old.startup_seek
    })
    &&& new.volume == old.volume
    &&& new.mute == old.mute
    &&& same_skipper(old.skipper, new.skipper)
}

/// `new` and the outcome (`r_events`, `r_skip`, `r_restart`) are what
/// handling `event` at `now` makes of `old`.
pub open spec fn handled_event(
    old: MpvSession,
    new: MpvSession,
    event: MpvEvent,
    now: u64,
    r_events: Seq<TransitionEvent>,
    r_skip: Option<SkipperAction>,
    r_restart: bool,
) -> bool {
    match event_kind_spec(event.name@, event.args@) {
        MpvEventKind::FileLoaded => activated(old, new, now, r_events) && r_skip is None
            && !r_restart,
        MpvEventKind::EndFile => finished(
            old,
            new,
            opt_string_view(event.reason),
            now,
            r_events,
        ) && r_skip is None && !r_restart,
        MpvEventKind::Shutdown => shut_down(old, new, now, r_events) && r_skip is None
            && r_restart,
        MpvEventKind::Seek => seek_noted(old, new) && r_events.len() == 0 && r_skip is None
            && !r_restart,
        MpvEventKind::PropertyChange => r_events.len() == 0 && !r_restart && match event.property {
            Some(p) => applied_property(old, new, p@, event.data, now, r_skip)
                && new.recent_loads@ == old.recent_loads@,
            None => same_session(old, new) && r_skip is None,
        },
        MpvEventKind::MarkWatchedNext => watched(old, new, now, r_events) && r_skip
            is None && !r_restart,
        MpvEventKind::Other => same_session(old, new) && r_events.len() == 0 && r_skip
            is None && !r_restart,
    }
}

/// `new` and `r` are what a seek to `requested` that the web client asked
/// for at `now` makes of `old`: a forward seek inside a prompting segment
/// starts skipping it; anything else changes nothing.
pub open spec fn prompt_skipped(old: MpvSession, new: MpvSession, requested: i64, now: u64, r: Option<SkipperAction>) -> bool {
    let k = old.skipper;
    let current = old.transitions.position_ticks;
    &&& match prompt_spec(k.segments@, k.config, current) {
        Some(i) if requested > current => (new.skipper.segments@, new.skipper.state, r) == begin_skip_spec(
            k.segments@,
            k.state,
            i,
            current,
            now,
        ),
        _ => new.skipper.segments@ == k.segments@ && new.skipper.state == k.state && r is None,
    }
    &&& new.skipper.seek_started_at_ticks == k.seek_started_at_ticks
    &&& new.skipper.config == k.config
    &&& new.transitions == old.transitions
    &&& new.startup_seek == old.startup_seek
    &&& new.volume == old.volume
    &&& new.mute == old.mute
    &&& new.recent_loads@ == old.recent_loads@
    &&& new.progress == old.progress
}

/// A command from the web client, as the controller tells them apart.
#[derive(Debug, Clone, Copy, PartialEq, Eq)]
pub enum ControlKind {
    Stop,
    /// A seek to a position in ticks.
    Seek(i64),
    Other,
}

/// What to do with a command from the web client.
#[derive(Debug, Clone, Copy, PartialEq, Eq)]
pub enum ControlDecision {
    /// Drop it.
    Ignore,
    /// Skip the segment instead; when that seek fails, send the command.
    Skip(SkipperAction),
    /// Send it to mpv.
    Send,
}

impl MpvSession {
    /// An idle session that skips segments as `config` says.
    pub fn new(config: SegmentSkipConfig) -> (r: Self)
        ensures
            r.transitions.pending is None,
            r.transitions.active is None,
            r.transitions.playback_identity is None,
            !r.transitions.mpv_playback_active,
            r.transitions.position_ticks == 0,
            r.volume is None,
            r.mute is None,
            r.startup_seek is None,
            r.skipper.segments@ == Seq::<SkipSegment>::empty(),
            r.skipper.state == SegmentSkipState::empty(),
            r.skipper.seek_started_at_ticks is None,
            r.skipper.config == config,
            r.recent_loads@ == Seq::<RecentLoad>::empty(),
    {
        MpvSession {
            transitions: Transitions::new(),
            volume: None,
            mute: None,
            startup_seek: None,
            skipper: SegmentSkipper::new(config),
            recent_loads: Vec::new(),
            progress: ProgressClock { last_sent_ms: 0, last_pause: false },
        }
    }

    /// The playstate the controller reports.
    pub fn playstate(&self) -> (r: ReportingState)
        ensures
            r == playstate(*self),
    {
        ReportingState {
            position_ticks: self.transitions.position_ticks,
            pause: self.transitions.pause,
            duration_ticks: self.transitions.duration_ticks,
            volume: self.volume,
            mute: self.mute,
            eof_reached: self.transitions.eof_reached,
        }
    }

    /// Takes a position mpv reported at clock reading `now_ms`.
    fn take_position(&mut self, ticks: i64, now_ms: u64) -> (r: Option<SkipperAction>)
        requires
            now_ms <= u64::MAX - AUTO_SKIP_DELAY_MS,
        ensures
            took_position(*old(self), *final(self), ticks, now_ms, r),
            final(self).volume == old(self).volume,
            final(self).mute == old(self).mute,
            final(self).recent_loads@ == old(self).recent_loads@,
            final(self).progress == old(self).progress,
    {
        let held = defer_startup_position_update(&mut self.startup_seek, ticks);
        if held {
            return None;
        }
        self.transitions.position_ticks = ticks;
        match self.skipper.maybe_accept_pending_native_seek(ticks, now_ms) {
            Some(a) => Some(a),
            None => self.skipper.update_skip_segment_state(ticks, now_ms),
        }
    }

    /// Takes a change of mpv property `name` to `data` at clock reading
    /// `now_ms`: the playstate changes as the property table says; a
    /// position goes through the resume seek and the skipper; a change of
    /// `seeking` goes to the skipper.
    pub fn apply_property(&mut self, name: &str, data: PropertyData, now_ms: u64) -> (r: Option<SkipperAction>)
        requires
            now_ms <= u64::MAX - AUTO_SKIP_DELAY_MS,
        ensures
            applied_property(*old(self), *final(self), name@, data, now_ms, r),
            final(self).recent_loads@ == old(self).recent_loads@,
    {
        let mut st = self.playstate();
        let effect = st.apply_property(name, data);
        match effect {
            PropertyEffect::PositionSample(t) => self.take_position(t, now_ms),
            PropertyEffect::Seeking(b) => {
                let position = self.transitions.position_ticks;
                self.skipper.handle_seeking_property(b, position, now_ms)
            },
            _ => {
                self.transitions.pause = st.pause;
                self.transitions.duration_ticks = st.duration_ticks;
                self.transitions.eof_reached = st.eof_reached;
                self.volume = st.volume;
                self.mute = st.mute;
                None
            },
        }
    }

    /// mpv loaded the pending file at clock reading `now_ms`: the load
    /// becomes the playback, and a resume seek to its start position is
    /// queued when that is positive.
    pub fn activate_pending(&mut self, now_ms: u64) -> (r: Vec<TransitionEvent>)
        ensures
            activated(*old(self), *final(self), now_ms, r@),
    {
        let start = match &self.transitions.pending {
            Some(p) => Some(p.start_ticks),
            None => None,
        };
        let reports = match &self.transitions.pending {
            Some(p) => p.has_reporter,
            None => false,
        };
        let events = self.transitions.activate_pending();
        if let Some(t) = start {
            self.startup_seek = queue_startup_seek(t, now_ms);
        }
        if reports {
            self.progress = ProgressClock { last_sent_ms: now_ms, last_pause: false };
        }
        events
    }

    /// mpv ended the file for `reason` at clock reading `now_ms`.
    pub fn finish_active(&mut self, reason: Option<&str>, now_ms: u64) -> (r: Vec<TransitionEvent>)
        ensures
            finished(*old(self), *final(self), reason_view(reason), now_ms, r@),
    {
        self.startup_seek = None;
        self.transitions.finish_active(reason, now_ms)
    }

    /// Marks the item watched and asks for the next one at clock reading `now_ms`.
    pub fn mark_watched_and_play_next(&mut self, now_ms: u64) -> (r: Vec<TransitionEvent>)
        ensures
            watched(*old(self), *final(self), now_ms, r@),
    {
        self.startup_seek = None;
        self.transitions.mark_watched_and_play_next(now_ms)
    }

    /// Drops the recent loads that no longer count at clock reading
    /// `now_ms`, and fails a pending load that waited too long for mpv.
    pub fn prune_recent_loads(&mut self, now_ms: u64) -> (r: Vec<TransitionEvent>)
        ensures
            final(self).recent_loads@ == pruned_loads(old(self).recent_loads@, now_ms),
            timed_out_spec(old(self).transitions, now_ms) ==> (final(self).transitions, r@) == finish_spec(
                old(self).transitions,
                Some("error"@),
                now_ms,
            ),
            !timed_out_spec(old(self).transitions, now_ms) ==> final(self).transitions == old(self).transitions
                && r@ == Seq::<TransitionEvent>::empty(),
            final(self).startup_seek == (if timed_out_spec(old(self).transitions, now_ms) {
                None
            } else {
                old(self).startup_seek
            }),
            final(self).volume == old(self).volume,
            final(self).mute == old(self).mute,
            same_skipper(old(self).skipper, final(self).skipper),
            final(self).progress == old(self).progress,
    {
        let mut loads: Vec<RecentLoad> = Vec::new();
        std::mem::swap(&mut loads, &mut self.recent_loads);
        let ghost original = loads@;
        while loads.len() > 0 && is_stale(&loads[0], now_ms)
            invariant
                pruned_loads(loads@, now_ms) == pruned_loads(original, now_ms),
            decreases loads.len(),
        {
            let ghost before = loads@;
            loads.remove(0);
            assert(loads@ =~= before.drop_first());
        }
        self.recent_loads = loads;
        let timed_out = match &self.transitions.pending {
            Some(p) => now_ms > p.requested_at_ms && now_ms - p.requested_at_ms > PENDING_FILE_LOADED_TIMEOUT_MS,
            None => false,
        };
        if timed_out {
            proof {
                reveal_strlit("error");
            }
            self.startup_seek = None;
            self.transitions.finish_active(Some("error"), now_ms)
        } else {
            Vec::new()
        }
    }

    /// Whether a load with dedupe key `key` repeats the pending load or one
    /// sent within the debounce before clock reading `now_ms`.
    pub fn is_duplicate(&self, key: &str, now_ms: u64) -> (r: bool)
        ensures
            r == duplicate_spec(*self, key@, now_ms),
    {
        if let Some(p) = &self.transitions.pending {
            if str_eq(p.key.as_str(), key) {
                return true;
            }
        }
        let mut i: usize = 0;
        while i < self.recent_loads.len()
            invariant
                i <= self.recent_loads@.len(),
                forall|j: int|
                    0 <= j < i ==> !((#[trigger] self.recent_loads@[j]).key@ == key@ && !stale(
                        self.recent_loads@[j],
                        now_ms,
                    )),
            decreases self.recent_loads.len() - i,
        {
            let l = &self.recent_loads[i];
            if str_eq(l.key.as_str(), key) && !is_stale(l, now_ms) {
                return true;
            }
            i = i + 1;
        }
        false
    }

    /// Whether to send a load with dedupe key `key` at clock reading
    /// `now_ms`, after pruning the recent loads: a repeat is ignored, and so
    /// is any load while another one is pending.
    pub fn load_gate(&mut self, key: &str, now_ms: u64) -> (r: (LoadGate, Vec<TransitionEvent>))
        ensures
            gated(*old(self), *final(self), key@, now_ms, r.0, r.1@),
    {
        let events = self.prune_recent_loads(now_ms);
        let gate = if self.is_duplicate(key, now_ms) {
            LoadGate::Duplicate
        } else if self.transitions.pending.is_some() {
            LoadGate::Busy
        } else {
            LoadGate::Proceed
        };
        (gate, events)
    }

    /// mpv is up for a new load: the resume seek is dropped and an active
    /// playback is reported stopped where it stands, not failed.
    pub fn begin_load(&mut self) -> (r: Vec<TransitionEvent>)
        ensures
            final(self).startup_seek is None,
            match old(self).transitions.active {
                Some(a) => final(self).transitions == (Transitions { active: None, ..old(self).transitions })
                    && r@ == seq![
                    TransitionEvent::ReportStopped {
                        playback_id: a.identity.playback_id,
                        position_ticks: old(self).transitions.position_ticks,
                        failed: false,
                    },
                ],
                None => final(self).transitions == old(self).transitions && r@ == Seq::<TransitionEvent>::empty(),
            },
            final(self).volume == old(self).volume,
            final(self).mute == old(self).mute,
            same_skipper(old(self).skipper, final(self).skipper),
            final(self).recent_loads@ == old(self).recent_loads@,
            final(self).progress == old(self).progress,
    {
        self.startup_seek = None;
        let mut events: Vec<TransitionEvent> = Vec::new();
        if let Some(a) = self.transitions.active.take() {
            events.push(
                TransitionEvent::ReportStopped {
                    playback_id: a.identity.playback_id,
                    position_ticks: self.transitions.position_ticks,
                    failed: false,
                },
            );
        }
        events
    }

    /// Whether a load now would replace a file mpv is playing for us.
    pub fn replacing_active_file(&self) -> (r: bool)
        ensures
            r == (self.transitions.mpv_playback_active || self.transitions.active is Some),
    {
        self.transitions.mpv_playback_active || self.transitions.active.is_some()
    }

    /// mpv accepted load `pending` at clock reading `now_ms`: it is
    /// remembered as recent, the old segments are forgotten, and it becomes
    /// the pending playback with its start, runtime and identity; when it
    /// `replacing` a playing file, that file's end is still to come.
    pub fn load_accepted(&mut self, pending: PendingPlayback, replacing: bool, now_ms: u64)
        ensures
            final(self).recent_loads@ == old(self).recent_loads@.push(
                RecentLoad { key: pending.key, seen_at_ms: now_ms },
            ),
            final(self).transitions == (Transitions {
                pending: Some(pending),
                playback_identity: Some(pending.identity),
                mpv_playback_active: true,
                position_ticks: pending.start_ticks,
                duration_ticks: positive(pending.runtime_ticks),
                pause: false,
                eof_reached: false,
                replacement_end_pending: replacing,
                ..old(self).transitions
            }),
            final(self).skipper.segments@ == Seq::<SkipSegment>::empty(),
            final(self).skipper.state == SegmentSkipState::empty(),
            final(self).skipper.seek_started_at_ticks is None,
            final(self).skipper.config == old(self).skipper.config,
            final(self).startup_seek == old(self).startup_seek,
            final(self).volume == old(self).volume,
            final(self).mute == old(self).mute,
            final(self).progress == old(self).progress,
    {
        self.recent_loads.push(RecentLoad { key: pending.key.clone(), seen_at_ms: now_ms });
        self.skipper.clear();
        self.transitions.mpv_playback_active = true;
        self.transitions.playback_identity = Some(pending.identity.duplicate());
        self.transitions.pending = Some(pending);
        self.transitions.replacement_end_pending = replacing;
        self.transitions.prepare_pending_playback_state();
    }

    /// mpv rejected the load of the playback with `identity`: mpv plays
    /// nothing for us. When the load was `replacing` a playing file, mpv is
    /// reset and the web client hears that this playback stopped with an
    /// error; then it hears that the load failed.
    pub fn load_rejected(&mut self, replacing: bool, identity: Identity) -> (r: Vec<TransitionEvent>)
        ensures
            replacing ==> was_reset(
                Transitions {
                    mpv_playback_active: false,
                    playback_identity: Some(identity),
                    ..old(self).transitions
                },
                *old(self),
                *final(self),
            ) && r@ == seq![
                TransitionEvent::Stopped {
                    playback_id: Some(identity.playback_id),
                    stop_reason: Some(StopReason::Error),
                },
                TransitionEvent::Failed,
            ],
            !replacing ==> final(self).transitions == (Transitions {
                mpv_playback_active: false,
                ..old(self).transitions
            }) && final(self).startup_seek == old(self).startup_seek && same_skipper(
                old(self).skipper,
                final(self).skipper,
            ) && final(self).volume == old(self).volume && final(self).mute == old(self).mute
                && final(self).recent_loads@ == old(self).recent_loads@ && final(self).progress
                == old(self).progress && r@ == seq![TransitionEvent::Failed],
    {
        self.transitions.mpv_playback_active = false;
        let mut events: Vec<TransitionEvent> = Vec::new();
        if replacing {
            let playback_id = identity.playback_id;
            self.transitions.playback_identity = Some(identity);
            self.reset();
            events.push(TransitionEvent::Stopped { playback_id: Some(playback_id), stop_reason: Some(StopReason::Error) });
        }
        events.push(TransitionEvent::Failed);
        events
    }

    /// Sending the load failed: mpv plays nothing for us.
    pub fn load_failed(&mut self)
        ensures
            final(self).transitions == (Transitions { mpv_playback_active: false, ..old(self).transitions }),
            final(self).startup_seek == old(self).startup_seek,
            final(self).volume == old(self).volume,
            final(self).mute == old(self).mute,
            same_skipper(old(self).skipper, final(self).skipper),
            final(self).recent_loads@ == old(self).recent_loads@,
            final(self).progress == old(self).progress,
    {
        self.transitions.mpv_playback_active = false;
    }

    /// The mpv process goes away: no resume seek and no segments remain;
    /// with nothing pending or active, the runtime is forgotten and mpv is
    /// inactive.
    pub fn reset(&mut self)
        ensures
            was_reset(old(self).transitions, *old(self), *final(self)),
    {
        self.startup_seek = None;
        self.skipper.clear();
        self.transitions.replacement_end_pending = false;
        if self.transitions.active.is_none() && self.transitions.pending.is_none() {
            self.transitions.playback_runtime_ticks = None;
            self.transitions.mpv_playback_active = false;
        }
    }

    /// mpv shut down at clock reading `now_ms`: playback ends as quit and
    /// the session is reset.
    pub fn handle_shutdown(&mut self, now_ms: u64) -> (r: Vec<TransitionEvent>)
        ensures
            shut_down(*old(self), *final(self), now_ms, r@),
    {
        proof {
            reveal_strlit("quit");
        }
        let events = self.transitions.finish_active(Some("quit"), now_ms);
        self.reset();
        events
    }

    /// Readies the session for the way `start` gets mpv, at clock reading
    /// `now_ms`: a restart ends playback as quit and resets the session, a
    /// fresh start resets it, and reusing or refusing changes nothing.
    pub fn prepare_mpv_start(&mut self, start: MpvStart, now_ms: u64) -> (r: Vec<TransitionEvent>)
        ensures
            match start {
                MpvStart::Restart => shut_down(*old(self), *final(self), now_ms, r@),
                MpvStart::Start => was_reset(old(self).transitions, *old(self), *final(self))
                    && r@ == Seq::<TransitionEvent>::empty(),
                _ => same_session(*old(self), *final(self)) && r@ == Seq::<TransitionEvent>::empty(),
            },
    {
        match start {
            MpvStart::Restart => self.handle_shutdown(now_ms),
            MpvStart::Start => {
                self.reset();
                Vec::new()
            },
            _ => Vec::new(),
        }
    }

    /// mpv started a seek: inside a prompting segment, where it started is
    /// remembered.
    pub fn handle_seek_event(&mut self)
        ensures
            seek_noted(*old(self), *final(self)),
    {
        let position = self.transitions.position_ticks;
        self.skipper.handle_seek_event(position);
    }

    /// Advances a pending automatic skip at clock reading `now_ms`.
    pub fn maybe_update_auto_skip_countdown(&mut self, now_ms: u64) -> (r: Option<SkipperAction>)
        requires
            now_ms <= u64::MAX - AUTO_SKIP_DELAY_MS,
        ensures
            ({
                let k = old(self).skipper;
                let (st, a) = k.state.tick_spec(k.segments@, k.config, old(self).transitions.position_ticks, now_ms);
                match a {
                    Some(SegmentSkipAction::Skip(i)) => (final(self).skipper.segments@, final(self).skipper.state, r)
                        == begin_skip_spec(k.segments@, st, i, old(self).transitions.position_ticks, now_ms),
                    _ => final(self).skipper.segments@ == k.segments@ && final(self).skipper.state == st && r
                        == lift_spec(a),
                }
            }),
            final(self).skipper.seek_started_at_ticks == old(self).skipper.seek_started_at_ticks,
            final(self).skipper.config == old(self).skipper.config,
            final(self).transitions == old(self).transitions,
            final(self).startup_seek == old(self).startup_seek,
            final(self).volume == old(self).volume,
            final(self).mute == old(self).mute,
            final(self).recent_loads@ == old(self).recent_loads@,
            final(self).progress == old(self).progress,
    {
        let position = self.transitions.position_ticks;
        self.skipper.maybe_update_auto_skip_countdown(position, now_ms)
    }

    /// The web client asked to seek to `requested_ticks` at clock reading
    /// `now_ms`: a forward seek inside a prompting segment skips it.
    pub fn handle_prompt_skip_control(&mut self, requested_ticks: i64, now_ms: u64) -> (r: Option<SkipperAction>)
        ensures
            prompt_skipped(*old(self), *final(self), requested_ticks, now_ms, r),
    {
        let position = self.transitions.position_ticks;
        self.skipper.handle_prompt_skip_control(position, requested_ticks, now_ms)
    }

    /// The server answered with the segments of playback `playback_id` at
    /// clock reading `now_ms`: an answer about a playback that is no longer
    /// current is ignored; otherwise the skipper takes the segments.
    pub fn media_segments_fetched(&mut self, playback_id: i64, segments: Vec<SkipSegment>, now_ms: u64) -> (r:
        Option<SkipperAction>)
        requires
            now_ms <= u64::MAX - AUTO_SKIP_DELAY_MS,
        ensures
            !id_current_spec(old(self).transitions, playback_id) || old(self).skipper.config.all_disabled_spec()
                ==> same_skipper(old(self).skipper, final(self).skipper) && r is None,
            id_current_spec(old(self).transitions, playback_id) && !old(self).skipper.config.all_disabled_spec()
                ==> ({
                let k = old(self).skipper;
                let fresh = SegmentSkipState { current_segment: None, last_prompt_at: None, ..k.state };
                let u = fresh.update_spec(segments@, k.config, old(self).transitions.position_ticks, now_ms);
                &&& final(self).skipper.segments@ == segments@
                &&& final(self).skipper.state == u.0
                &&& r == lift_spec(u.1)
                &&& final(self).skipper.seek_started_at_ticks == k.seek_started_at_ticks
                &&& final(self).skipper.config == k.config
            }),
            final(self).transitions == old(self).transitions,
            final(self).startup_seek == old(self).startup_seek,
            final(self).volume == old(self).volume,
            final(self).mute == old(self).mute,
            final(self).recent_loads@ == old(self).recent_loads@,
            final(self).progress == old(self).progress,
    {
        if !self.transitions.playback_id_is_current(playback_id) {
            return None;
        }
        let position = self.transitions.position_ticks;
        self.skipper.segments_fetched(segments, position, now_ms)
    }

    /// The skip settings changed to `config` at clock reading `now_ms`: the
    /// skipper takes them with playback where it stands.
    pub fn apply_segment_skip_config(&mut self, config: SegmentSkipConfig, now_ms: u64) -> (r: Option<
        SkipperAction,
    >)
        requires
            now_ms <= u64::MAX - AUTO_SKIP_DELAY_MS,
        ensures
            reconfigured_spec(
                old(self).skipper,
                final(self).skipper,
                config,
                old(self).transitions.position_ticks,
                now_ms,
                r,
            ),
            final(self).transitions == old(self).transitions,
            final(self).startup_seek == old(self).startup_seek,
            final(self).volume == old(self).volume,
            final(self).mute == old(self).mute,
            final(self).recent_loads@ == old(self).recent_loads@,
            final(self).progress == old(self).progress,
    {
        let position = self.transitions.position_ticks;
        self.skipper.apply_segment_skip_config(config, position, now_ms)
    }

    /// An event from mpv connection `session_id` while `active_session` is
    /// the live one, at clock reading `now_ms`: events of a stale
    /// connection are ignored.
    pub fn handle_session_event(
        &mut self,
        active_session: Option<u64>,
        session_id: u64,
        event: &MpvEvent,
        now_ms: u64,
    ) -> (r: EventOutcome)
        requires
            now_ms <= u64::MAX - AUTO_SKIP_DELAY_MS,
        ensures
            active_session == Some(session_id) ==> handled_event(
                *old(self),
                *final(self),
                *event,
                now_ms,
                r.events@,
                r.skip,
                r.restart,
            ),
            active_session != Some(session_id) ==> same_session(*old(self), *final(self)) && r.events@.len() == 0
                && r.skip is None && !r.restart,
    {
        let live = match active_session {
            Some(id) => id == session_id,
            None => false,
        };
        if !live {
            return EventOutcome { events: Vec::new(), skip: None, restart: false };
        }
        self.handle_event(event, now_ms)
    }

    /// The position the resume seek goes to when it is due at clock reading `now_ms`.
    pub fn startup_seek_due(&self, now_ms: u64) -> (r: Option<i64>)
        ensures
            r == (match self.startup_seek {
                Some(s) => if now_ms >= s.due_at_ms {
                    Some(s.target_ticks)
                } else {
                    None
                },
                None => None,
            }),
    {
        due_startup_seek(&self.startup_seek, now_ms)
    }

    /// Records how sending the resume seek went at clock reading `now_ms`;
    /// returns whether the mpv session is lost.
    pub fn startup_seek_sent(&mut self, outcome: SeekOutcome, now_ms: u64) -> (lost: bool)
        ensures
            (final(self).startup_seek, lost) == after_sent_spec(old(self).startup_seek, outcome, now_ms),
            final(self).transitions == old(self).transitions,
            final(self).volume == old(self).volume,
            final(self).mute == old(self).mute,
            same_skipper(old(self).skipper, final(self).skipper),
            final(self).recent_loads@ == old(self).recent_loads@,
            final(self).progress == old(self).progress,
    {
        let (next, lost) = after_startup_seek_sent(self.startup_seek, outcome, now_ms);
        self.startup_seek = next;
        lost
    }

    /// The playback whose progress is to be reported at clock reading
    /// `now_ms`: the active one, once the interval passed since the last
    /// report or its pause state changed since.
    pub fn maybe_report_progress(&mut self, now_ms: u64) -> (r: Option<i64>)
        ensures
            match old(self).transitions.active {
                Some(a) if elapsed(old(self).progress.last_sent_ms, now_ms) >= PROGRESS_INTERVAL_MS
                    || old(self).progress.last_pause != old(self).transitions.pause => {
                    &&& final(self).progress == (ProgressClock {
                        last_sent_ms: now_ms,
                        last_pause: old(self).transitions.pause,
                    })
                    &&& r == Some(a.identity.playback_id)
                    &&& final(self).transitions == old(self).transitions
                    &&& final(self).startup_seek == old(self).startup_seek
                    &&& same_but_playback(*old(self), *final(self))
                },
                _ => same_session(*old(self), *final(self)) && r is None,
            },
    {
        let id = match &self.transitions.active {
            Some(a) => a.identity.playback_id,
            None => return None,
        };
        let last = self.progress.last_sent_ms;
        let due = now_ms > last && now_ms - last >= PROGRESS_INTERVAL_MS;
        if due || self.progress.last_pause != self.transitions.pause {
            self.progress = ProgressClock { last_sent_ms: now_ms, last_pause: self.transitions.pause };
            Some(id)
        } else {
            None
        }
    }

    /// A command from the web client at clock reading `now_ms`: a stop of
    /// the replaced file is dropped while the next one loads in the handoff
    /// window; a forward seek inside a prompting segment skips it; anything
    /// else goes to mpv.
    pub fn control(&mut self, kind: ControlKind, now_ms: u64) -> (r: ControlDecision)
        ensures
            kind == ControlKind::Stop ==> ({
                let (t, suppressed) = suppress_spec(old(self).transitions, now_ms);
                &&& final(self).transitions == t
                &&& r == (if suppressed {
                    ControlDecision::Ignore
                } else {
                    ControlDecision::Send
                })
                &&& final(self).startup_seek == old(self).startup_seek
                &&& final(self).progress == old(self).progress
                &&& same_but_playback(*old(self), *final(self))
            }),
            kind matches ControlKind::Seek(t) ==> exists|a: Option<SkipperAction>|
                #[trigger] prompt_skipped(*old(self), *final(self), t, now_ms, a) && r == (match a {
                    Some(x) => ControlDecision::Skip(x),
                    None => ControlDecision::Send,
                }),
            kind == ControlKind::Other ==> same_session(*old(self), *final(self)) && r == ControlDecision::Send,
    {
        match kind {
            ControlKind::Stop => {
                if self.transitions.should_suppress_stop_during_next_playback_handoff(now_ms) {
                    ControlDecision::Ignore
                } else {
                    ControlDecision::Send
                }
            },
            ControlKind::Seek(t) => {
                let a = self.handle_prompt_skip_control(t, now_ms);
                match a {
                    Some(x) => ControlDecision::Skip(x),
                    None => ControlDecision::Send,
                }
            },
            ControlKind::Other => ControlDecision::Send,
        }
    }

    /// Handles an event mpv sent, at clock reading `now_ms`.
    pub fn handle_event(&mut self, event: &MpvEvent, now_ms: u64) -> (r: EventOutcome)
        requires
            now_ms <= u64::MAX - AUTO_SKIP_DELAY_MS,
        ensures
            handled_event(*old(self), *final(self), *event, now_ms, r.events@, r.skip, r.restart),
    {
        let kind = event_kind(event);
        match kind {
            MpvEventKind::FileLoaded => {
                let events = self.activate_pending(now_ms);
                EventOutcome { events, skip: None, restart: false }
            },
            MpvEventKind::EndFile => {
                let events = self.finish_active(opt_str(&event.reason), now_ms);
                EventOutcome { events, skip: None, restart: false }
            },
            MpvEventKind::Shutdown => {
                let events = self.handle_shutdown(now_ms);
                EventOutcome { events, skip: None, restart: true }
            },
            MpvEventKind::Seek => {
                self.handle_seek_event();
                EventOutcome { events: Vec::new(), skip: None, restart: false }
            },
            MpvEventKind::PropertyChange => {
                let skip = match &event.property {
                    Some(p) => self.apply_property(p.as_str(), event.data, now_ms),
                    None => None,
                };
                EventOutcome { events: Vec::new(), skip, restart: false }
            },
            MpvEventKind::MarkWatchedNext => {
                let events = self.mark_watched_and_play_next(now_ms);
                EventOutcome { events, skip: None, restart: false }
            },
            MpvEventKind::Other => EventOutcome { events: Vec::new(), skip: None, restart: false },
        }
    }
}

/// While the resume seek is pending, mpv reporting a position more than the
/// tolerance before its target changes nothing: the server keeps hearing
/// the resume position.
pub proof fn law_early_position_is_held(
    old: MpvSession,
    new: MpvSession,
    data: PropertyData,
    now: u64,
    r: Option<SkipperAction>,
)
    requires
        old.startup_seek matches Some(s) && data.ticks matches Some(t) && held_spec(s, t),
        applied_property(old, new, "time-pos"@, data, now, r),
    ensures
        playstate(new) == playstate(old),
        new.startup_seek == old.startup_seek,
        same_skipper(old.skipper, new.skipper),
        r is None,
{
}

/// A load that was just sent is a duplicate for the debounce that follows,
/// and pruning keeps it that long.
pub proof fn law_sent_load_is_debounced(s: MpvSession, key: Seq<char>, now: u64, later: u64)
    requires
        s.recent_loads@.len() > 0,
        s.recent_loads@.last().key@ == key,
        s.recent_loads@.last().seen_at_ms == now,
        elapsed(now, later) <= DUPLICATE_DEBOUNCE_MS,
    ensures
        duplicate_spec(s, key, later),
        pruned_loads(s.recent_loads@, later).len() > 0,
        pruned_loads(s.recent_loads@, later).last() == s.recent_loads@.last(),
{
    let n = s.recent_loads@.len() - 1;
    assert(s.recent_loads@[n] == s.recent_loads@.last());
    lemma_pruning_keeps_fresh_tail(s.recent_loads@, later);
}

/// Pruning drops a prefix of stale loads and keeps the last load when it is fresh.
proof fn lemma_pruning_keeps_fresh_tail(loads: Seq<RecentLoad>, now: u64)
    requires
        loads.len() > 0,
        !stale(loads.last(), now),
    ensures
        pruned_loads(loads, now).len() > 0,
        pruned_loads(loads, now).last() == loads.last(),
    decreases loads.len(),
{
    if loads.len() > 0 && stale(loads[0], now) {
        assert(loads.len() > 1);
        assert(loads.drop_first().last() == loads.last());
        lemma_pruning_keeps_fresh_tail(loads.drop_first(), now);
    }
}

/// While a load is pending and has not waited too long, no other load is
/// sent, whether it repeats a load or not.
pub proof fn law_pending_load_blocks_other_loads(
    old: MpvSession,
    new: MpvSession,
    key: Seq<char>,
    now: u64,
    gate: LoadGate,
    events: Seq<TransitionEvent>,
)
    requires
        old.transitions.pending is Some,
        !timed_out_spec(old.transitions, now),
        gated(old, new, key, now, gate, events),
    ensures
        gate != LoadGate::Proceed,
        new.transitions == old.transitions,
{
}

/// Once mpv loaded the pending file, playback stands at the load's start,
/// and a resume seek to that start waits exactly when it is positive.
pub proof fn law_loaded_file_waits_for_its_resume_seek(
    old: MpvSession,
    new: MpvSession,
    now: u64,
    events: Seq<TransitionEvent>,
)
    requires
        old.transitions.pending is Some,
        activated(old, new, now, events),
    ensures
        new.transitions.position_ticks == old.transitions.pending.unwrap().start_ticks,
        new.transitions.pending is None,
        new.startup_seek is Some <==> old.transitions.pending.unwrap().start_ticks > 0,
        new.startup_seek matches Some(s) ==> s.target_ticks == old.transitions.pending.unwrap().start_ticks
            && s.sent_at_ms is None,
{
}

/// Whether a recent load no longer counts at `now_ms`.
fn is_stale(l: &RecentLoad, now_ms: u64) -> (r: bool)
    ensures
        r == stale(*l, now_ms),
{
    now_ms > l.seen_at_ms && now_ms - l.seen_at_ms > DUPLICATE_DEBOUNCE_MS
}

/// The kind of an mpv event.
pub fn event_kind(event: &MpvEvent) -> (r: MpvEventKind)
    ensures
        r == event_kind_spec(event.name@, event.args@),
{
    let name = event.name.as_str();
    if str_eq(name, "file-loaded") {
        MpvEventKind::FileLoaded
    } else if str_eq(name, "end-file") {
        MpvEventKind::EndFile
    } else if str_eq(name, "shutdown") {
        MpvEventKind::Shutdown
    } else if str_eq(name, "seek") {
        MpvEventKind::Seek
    } else if str_eq(name, "property-change") {
        MpvEventKind::PropertyChange
    } else if str_eq(name, "client-message") && is_mark_watched_next_message(event.args.as_slice()) {
        MpvEventKind::MarkWatchedNext
    } else {
        MpvEventKind::Other
    }
}

/// The event a line from mpv carries: a line without an event name is a
/// reply to a command and carries none.
pub fn mpv_event_from_line(line: IpcLine) -> (r: Option<MpvEvent>)
    ensures
        r is None <==> line.event is None,
        r matches Some(e) ==> ({
            &&& e.name == line.event.unwrap()
            &&& e.reason == line.reason
            &&& e.property == line.name
            &&& e.data == line.data
            &&& e.args@ == line_args(line.args)
        }),
{
    let IpcLine { event, reason, name, data, args } = line;
    let name_of_event = match event {
        Some(n) => n,
        None => {
            return None;
        },
    };
    let mut strings: Vec<String> = Vec::new();
    if let Some(raw) = &args {
        let mut i: usize = 0;
        while i < raw.len()
            invariant
                i <= raw@.len(),
                strings@ == string_args(raw@.subrange(0, i as int)),
            decreases raw@.len() - i,
        {
            assert(raw@.subrange(0, i as int + 1).drop_last() =~= raw@.subrange(0, i as int));
            if let Some(a) = &raw[i] {
                strings.push(a.clone());
            }
            i = i + 1;
        }
        assert(raw@.subrange(0, raw@.len() as int) =~= raw@);
    }
    Some(MpvEvent { name: name_of_event, reason, property: name, data, args: strings })
}

/// Whether an event reports a new playback position.
pub fn is_position_property_change(event: &MpvEvent) -> (r: bool)
    ensures
        r == (event.name@ == "property-change"@ && (opt_string_view(event.property) == Some("time-pos"@)
            || opt_string_view(event.property) == Some("playback-time"@))),
{
    str_eq(event.name.as_str(), "property-change") && match &event.property {
        Some(p) => str_eq(p.as_str(), "time-pos") || str_eq(p.as_str(), "playback-time"),
        None => false,
    }
}

} // verus!

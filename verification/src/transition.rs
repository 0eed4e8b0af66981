//! The episode handoff decisions of the mpv controller: a pending load
//! becoming the active playback, a playback finishing (end of file, marked
//! watched, stopped, failed), and the window after an end in which a stale
//! stop of the replaced file is ignored while the next episode loads.
use vstd::prelude::*;

use crate::context::{
    fill_identity_from_context, fill_string_spec, identity_matches_context, matches_spec, Identity,
    PlaybackContext,
};
use crate::text::opt_string_view;
use crate::model::{is_completion_reason, parse_reason, str_eq, StopReason};
use crate::text::eq_ignore_case;

verus! {

/// How long after an end of file or a mark-watched-next the controller
/// waits for the next episode before stops count again, in milliseconds.
pub const NEXT_PLAYBACK_HANDOFF_TIMEOUT_MS: u64 = 60_000;

/// A load that mpv has not reported loaded yet.
#[derive(Debug)]
pub struct PendingPlayback {
    /// The load's dedupe key.
    pub key: String,
    /// When the load was sent to mpv, in milliseconds on the controller's clock.
    pub requested_at_ms: u64,
    pub identity: Identity,
    /// The start position in ticks (zero without one).
    pub start_ticks: i64,
    /// The runtime the launch gave.
    pub runtime_ticks: Option<i64>,
    /// Whether playstate is reported to the server for this load.
    pub has_reporter: bool,
}

/// A loaded playback whose playstate is reported to the server.
#[derive(Debug)]
pub struct ActivePlayback {
    pub identity: Identity,
    pub runtime_ticks: Option<i64>,
}

/// What a transition asks the controller to do outside its state.
#[derive(Debug)]
pub enum TransitionEvent {
    /// Report to the server that the playback started at a position.
    ReportStart { playback_id: i64, position_ticks: i64 },
    /// Report to the server that the playback stopped at a position.
    ReportStopped { playback_id: i64, position_ticks: i64, failed: bool },
    /// Tell the web client that playback stopped.
    Stopped { playback_id: Option<i64>, stop_reason: Option<StopReason> },
    /// Tell the web client that mpv did not take the video.
    Failed,
}

/// The controller's playback state.
#[derive(Debug)]
pub struct Transitions {
    pub pending: Option<PendingPlayback>,
    pub active: Option<ActivePlayback>,
    /// The identity of the playback mpv last loaded.
    pub playback_identity: Option<Identity>,
    /// Whether mpv is playing something for us.
    pub mpv_playback_active: bool,
    /// Until when, in milliseconds on the controller's clock, a stale stop
    /// is ignored while the next episode loads.
    pub handoff_until_ms: Option<u64>,
    pub position_ticks: i64,
    pub duration_ticks: Option<i64>,
    pub pause: bool,
    pub eof_reached: bool,
    pub playback_runtime_ticks: Option<i64>,
    /// The pending load replaced a file mpv was playing, whose end has not
    /// come yet.
    pub replacement_end_pending: bool,
}

/// `t` when it is positive.
pub open spec fn positive(t: Option<i64>) -> Option<i64> {
    match t {
        Some(v) => if v > 0 {
            Some(v)
        } else {
            None
        },
        None => None,
    }
}

/// `a`, else `b`.
pub open spec fn or_else(a: Option<i64>, b: Option<i64>) -> Option<i64> {
    if a is Some {
        a
    } else {
        b
    }
}

/// `now` plus the handoff timeout, saturating.
pub open spec fn handoff_deadline(now: u64) -> u64 {
    if now + NEXT_PLAYBACK_HANDOFF_TIMEOUT_MS > u64::MAX {
        u64::MAX
    } else {
        (now + NEXT_PLAYBACK_HANDOFF_TIMEOUT_MS) as u64
    }
}

/// Whether the web client should see playback as active.
pub open spec fn snapshot_active_spec(s: Transitions) -> bool {
    s.mpv_playback_active || s.active is Some || s.pending is Some
}

/// The duration a completed playback ends at: mpv's duration when positive,
/// else the runtime of the playback, of the active playback, or of the
/// pending load.
pub open spec fn completion_duration_spec(s: Transitions) -> Option<i64> {
    or_else(
        positive(s.duration_ticks),
        or_else(
            s.playback_runtime_ticks,
            or_else(
                match s.active {
                    Some(a) => a.runtime_ticks,
                    None => None,
                },
                match s.pending {
                    Some(p) => positive(p.runtime_ticks),
                    None => None,
                },
            ),
        ),
    )
}

/// Whether a stop is suppressed now because the next episode is loading
/// within the handoff window; a passed window is closed.
pub open spec fn suppress_spec(s: Transitions, now: u64) -> (Transitions, bool) {
    if s.pending is None {
        (s, false)
    } else {
        match s.handoff_until_ms {
            None => (s, false),
            Some(d) => if now <= d {
                (s, true)
            } else {
                (Transitions { handoff_until_ms: None, ..s }, false)
            },
        }
    }
}

/// Whether an end of the replaced file is ignored: a pending load, a
/// `stop` or `redirect` end, and either the replaced file's end still to
/// come, which it then is no more, or the handoff window open.
pub open spec fn ignore_end_spec(s: Transitions, reason: Option<Seq<char>>, now: u64) -> (Transitions, bool) {
    if s.pending is None {
        (s, false)
    } else if !(reason == Some("stop"@) || reason == Some("redirect"@)) {
        (s, false)
    } else if s.replacement_end_pending {
        (Transitions { replacement_end_pending: false, ..s }, true)
    } else {
        suppress_spec(s, now)
    }
}

/// The playback id of an optional identity.
pub open spec fn id_of(identity: Option<Identity>) -> Option<i64> {
    match identity {
        Some(i) => Some(i.playback_id),
        None => None,
    }
}

/// Whether a reason is a completion: `eof` or `watched-next`, ASCII case ignored.
pub open spec fn completion_spec(reason: Option<Seq<char>>) -> bool {
    reason matches Some(r) && (eq_ignore_case(r, "eof"@) || eq_ignore_case(r, "watched-next"@))
}

/// Whether a reason is an end of file, ASCII case ignored.
pub open spec fn eof_spec(reason: Option<Seq<char>>) -> bool {
    reason matches Some(r) && eq_ignore_case(r, "eof"@)
}

/// The stop reason a reason text stands for.
pub open spec fn stop_reason_spec(reason: Option<Seq<char>>) -> Option<StopReason> {
    match reason {
        Some(r) => parse_reason(r),
        None => None,
    }
}

/// The pending part of finishing: the pending load is dropped and the
/// handoff window closed; a load with a reporter that failed, or completed,
/// is reported stopped at the current position.
pub open spec fn finish_pending_spec(s: Transitions, reason: Option<Seq<char>>) -> (Transitions, Seq<TransitionEvent>) {
    match s.pending {
        None => (s, Seq::empty()),
        Some(p) => {
            let failed = reason == Some("error"@);
            let next = Transitions { pending: None, handoff_until_ms: None, replacement_end_pending: false, ..s };
            if p.has_reporter && (failed || completion_spec(reason)) {
                (
                    next,
                    seq![
                        TransitionEvent::ReportStopped {
                            playback_id: p.identity.playback_id,
                            position_ticks: s.position_ticks,
                            failed,
                        },
                    ],
                )
            } else {
                (next, Seq::empty())
            }
        },
    }
}

/// A completed playback ends at its duration, when one is known.
pub open spec fn complete_spec(s: Transitions, reason: Option<Seq<char>>) -> Transitions {
    if completion_spec(reason) && completion_duration_spec(s) is Some {
        let d = completion_duration_spec(s)->0;
        Transitions { duration_ticks: Some(d), position_ticks: d, ..s }
    } else {
        s
    }
}

/// The end of the handoff: the window opens after an end of file.
pub open spec fn after_end_spec(s: Transitions, reason: Option<Seq<char>>, now: u64) -> Transitions {
    if eof_spec(reason) {
        Transitions { handoff_until_ms: Some(handoff_deadline(now)), ..s }
    } else {
        s
    }
}

/// Finishing playback for `reason` at clock reading `now`.
pub open spec fn finish_spec(s: Transitions, reason: Option<Seq<char>>, now: u64) -> (Transitions, Seq<TransitionEvent>) {
    let had = snapshot_active_spec(s);
    let failed = reason == Some("error"@);
    let (s0, ignored) = ignore_end_spec(s, reason, now);
    if ignored {
        (s0, Seq::empty())
    } else {
        let (s1, ev1) = finish_pending_spec(s0, reason);
        let s2 = complete_spec(s1, reason);
        match s2.active {
            None => {
                let s3 = Transitions { mpv_playback_active: false, playback_runtime_ticks: None, ..s2 };
                if had {
                    (
                        after_end_spec(s3, reason, now),
                        ev1.push(
                            TransitionEvent::Stopped {
                                playback_id: id_of(s3.playback_identity),
                                stop_reason: stop_reason_spec(reason),
                            },
                        ),
                    )
                } else {
                    (s3, ev1)
                }
            },
            Some(a) => {
                let s3 = Transitions {
                    active: None,
                    mpv_playback_active: false,
                    playback_runtime_ticks: None,
                    ..s2
                };
                (
                    after_end_spec(s3, reason, now),
                    ev1.push(
                        TransitionEvent::ReportStopped {
                            playback_id: a.identity.playback_id,
                            position_ticks: s2.position_ticks,
                            failed,
                        },
                    ).push(
                        TransitionEvent::Stopped {
                            playback_id: id_of(s3.playback_identity),
                            stop_reason: stop_reason_spec(reason),
                        },
                    ),
                )
            },
        }
    }
}

/// Activating the pending load once mpv reports it loaded.
pub open spec fn activate_spec(s: Transitions) -> (Transitions, Seq<TransitionEvent>) {
    match s.pending {
        None => (s, Seq::empty()),
        Some(p) => {
            let base = Transitions {
                pending: None,
                position_ticks: p.start_ticks,
                duration_ticks: None,
                pause: false,
                eof_reached: false,
                playback_identity: Some(p.identity),
                playback_runtime_ticks: positive(p.runtime_ticks),
                mpv_playback_active: true,
                handoff_until_ms: None,
                replacement_end_pending: false,
                ..s
            };
            if p.has_reporter {
                (
                    Transitions {
                        active: Some(ActivePlayback { identity: p.identity, runtime_ticks: positive(p.runtime_ticks) }),
                        ..base
                    },
                    seq![
                        TransitionEvent::ReportStart {
                            playback_id: p.identity.playback_id,
                            position_ticks: p.start_ticks,
                        },
                    ],
                )
            } else {
                (base, Seq::empty())
            }
        },
    }
}

/// Marking the item watched and asking for the next: nothing while idle;
/// else the position moves to the duration when one is known, the playback
/// finishes as watched-next, and the handoff window opens.
pub open spec fn mark_watched_spec(s: Transitions, now: u64) -> (Transitions, Seq<TransitionEvent>) {
    if s.active is None && s.pending is None && !s.mpv_playback_active {
        (s, Seq::empty())
    } else {
        let s1 = match completion_duration_spec(s) {
            Some(d) => Transitions { duration_ticks: Some(d), position_ticks: d, ..s },
            None => s,
        };
        let (s2, ev) = finish_spec(s1, Some("watched-next"@), now);
        (Transitions { handoff_until_ms: Some(handoff_deadline(now)), ..s2 }, ev)
    }
}


/// Which playbacks a context described.
#[derive(Debug, Clone, Copy, PartialEq, Eq)]
pub struct ContextUpdate {
    pub pending: bool,
    pub active: bool,
    pub current: bool,
}

/// Whether `playback_id` names the pending load, the active playback, or the
/// playback mpv is playing.
pub open spec fn id_current_spec(s: Transitions, playback_id: i64) -> bool {
    ||| (s.pending matches Some(p) && p.identity.playback_id == playback_id)
    ||| (s.active matches Some(a) && a.identity.playback_id == playback_id)
    ||| (s.mpv_playback_active && (s.playback_identity matches Some(i) && i.playback_id == playback_id))
}

/// `after` is `before` with its blank fields filled from the context when
/// `matched`, and `before` unchanged otherwise.
pub open spec fn filled_spec(before: Identity, after: Identity, context: PlaybackContext, matched: bool) -> bool {
    if matched {
        &&& after.playback_id == before.playback_id
        &&& opt_string_view(after.item_id) == fill_string_spec(opt_string_view(before.item_id), opt_string_view(context.item_id))
        &&& opt_string_view(after.media_source_id) == fill_string_spec(
            opt_string_view(before.media_source_id),
            opt_string_view(context.media_source_id),
        )
        &&& opt_string_view(after.play_session_id) == fill_string_spec(
            opt_string_view(before.play_session_id),
            opt_string_view(context.play_session_id),
        )
    } else {
        after == before
    }
}

/// An optional text's characters.
pub open spec fn reason_view(reason: Option<&str>) -> Option<Seq<char>> {
    match reason {
        Some(r) => Some(r@),
        None => None,
    }
}

/// Whether `reason` is exactly `text`.
fn reason_is(reason: Option<&str>, text: &str) -> (r: bool)
    ensures
        r == (reason_view(reason) == Some(text@)),
{
    match reason {
        Some(x) => str_eq(x, text),
        None => false,
    }
}

/// `t` when it is positive.
fn positive_ticks(t: Option<i64>) -> (r: Option<i64>)
    ensures
        r == positive(t),
{
    match t {
        Some(v) => if v > 0 {
            Some(v)
        } else {
            None
        },
        None => None,
    }
}

impl Transitions {
    /// An idle controller.
    pub fn new() -> (r: Self)
        ensures
            r.pending is None,
            r.active is None,
            r.playback_identity is None,
            !r.mpv_playback_active,
            r.handoff_until_ms is None,
            r.position_ticks == 0,
            r.duration_ticks is None,
            !r.pause,
            !r.eof_reached,
            r.playback_runtime_ticks is None,
            !r.replacement_end_pending,
    {
        Transitions {
            pending: None,
            active: None,
            playback_identity: None,
            mpv_playback_active: false,
            handoff_until_ms: None,
            position_ticks: 0,
            duration_ticks: None,
            pause: false,
            eof_reached: false,
            playback_runtime_ticks: None,
            replacement_end_pending: false,
        }
    }

    /// Whether `playback_id` names the pending load, the active playback, or
    /// the playback mpv is playing.
    pub fn playback_id_is_current(&self, playback_id: i64) -> (r: bool)
        ensures
            r == id_current_spec(*self, playback_id),
    {
        let pending = match &self.pending {
            Some(p) => p.identity.playback_id == playback_id,
            None => false,
        };
        let active = match &self.active {
            Some(a) => a.identity.playback_id == playback_id,
            None => false,
        };
        let current = self.mpv_playback_active && match &self.playback_identity {
            Some(i) => i.playback_id == playback_id,
            None => false,
        };
        pending || active || current
    }

    /// Merges late metadata about a playback into every identity it
    /// describes: blank identity fields are filled from it, and an active
    /// playback without a runtime takes the context's positive one, which
    /// also becomes the playback's runtime when that is unknown. Says which
    /// playbacks the context described.
    pub fn update_active_playback_context(&mut self, context: &PlaybackContext) -> (r: ContextUpdate)
        ensures
            r.pending == (old(self).pending matches Some(p) && matches_spec(p.identity.keys(), context.keys())),
            r.active == (old(self).active matches Some(a) && matches_spec(a.identity.keys(), context.keys())),
            r.current == (old(self).playback_identity matches Some(i) && matches_spec(i.keys(), context.keys())),
            match (old(self).pending, final(self).pending) {
                (Some(p), Some(q)) => filled_spec(p.identity, q.identity, *context, r.pending) && q.start_ticks
                    == p.start_ticks && q.runtime_ticks == p.runtime_ticks && q.has_reporter == p.has_reporter,
                (None, None) => true,
                _ => false,
            },
            match (old(self).active, final(self).active) {
                (Some(a), Some(b)) => filled_spec(a.identity, b.identity, *context, r.active) && b.runtime_ticks == (
                if r.active && a.runtime_ticks is None {
                    positive(context.runtime_ticks)
                } else {
                    a.runtime_ticks
                }),
                (None, None) => true,
                _ => false,
            },
            final(self).playback_runtime_ticks == (if r.active && old(self).playback_runtime_ticks is None {
                final(self).active.unwrap().runtime_ticks
            } else {
                old(self).playback_runtime_ticks
            }),
            match (old(self).playback_identity, final(self).playback_identity) {
                (Some(i), Some(j)) => filled_spec(i, j, *context, r.current),
                (None, None) => true,
                _ => false,
            },
            final(self).mpv_playback_active == old(self).mpv_playback_active,
            final(self).handoff_until_ms == old(self).handoff_until_ms,
            final(self).position_ticks == old(self).position_ticks,
            final(self).duration_ticks == old(self).duration_ticks,
            final(self).pause == old(self).pause,
            final(self).eof_reached == old(self).eof_reached,
    {
        let mut update = ContextUpdate { pending: false, active: false, current: false };
        if let Some(p) = &mut self.pending {
            if identity_matches_context(&p.identity, context) {
                fill_identity_from_context(&mut p.identity, context);
                update.pending = true;
            }
        }
        if let Some(a) = &mut self.active {
            if identity_matches_context(&a.identity, context) {
                fill_identity_from_context(&mut a.identity, context);
                if a.runtime_ticks.is_none() {
                    a.runtime_ticks = positive_ticks(context.runtime_ticks);
                }
                if self.playback_runtime_ticks.is_none() {
                    self.playback_runtime_ticks = a.runtime_ticks;
                }
                update.active = true;
            }
        }
        if let Some(i) = &mut self.playback_identity {
            if identity_matches_context(i, context) {
                fill_identity_from_context(i, context);
                update.current = true;
            }
        }
        update
    }

    /// Whether the web client should see playback as active.
    pub fn snapshot_active(&self) -> (r: bool)
        ensures
            r == snapshot_active_spec(*self),
    {
        self.mpv_playback_active || self.active.is_some() || self.pending.is_some()
    }

    /// The identity the web client is told about: the pending load's, else
    /// the active playback's, else the last loaded one's.
    pub fn current_identity(&self) -> (r: Option<&Identity>)
        ensures
            r == (match self.pending {
                Some(p) => Some(&p.identity),
                None => match self.active {
                    Some(a) => Some(&a.identity),
                    None => match self.playback_identity {
                        Some(i) => Some(&i),
                        None => None,
                    },
                },
            }),
    {
        match &self.pending {
            Some(p) => Some(&p.identity),
            None => match &self.active {
                Some(a) => Some(&a.identity),
                None => match &self.playback_identity {
                    Some(i) => Some(i),
                    None => None,
                },
            },
        }
    }

    /// Opens the handoff window at clock reading `now_ms`.
    pub fn arm_next_playback_handoff(&mut self, now_ms: u64)
        ensures
            *final(self) == (Transitions { handoff_until_ms: Some(handoff_deadline(now_ms)), ..*old(self) }),
    {
        let deadline = if now_ms > u64::MAX - NEXT_PLAYBACK_HANDOFF_TIMEOUT_MS {
            u64::MAX
        } else {
            now_ms + NEXT_PLAYBACK_HANDOFF_TIMEOUT_MS
        };
        self.handoff_until_ms = Some(deadline);
    }

    /// Whether a stop is suppressed at clock reading `now_ms` because the
    /// next episode is loading within the handoff window.
    pub fn should_suppress_stop_during_next_playback_handoff(&mut self, now_ms: u64) -> (r: bool)
        ensures
            (*final(self), r) == suppress_spec(*old(self), now_ms),
    {
        if self.pending.is_none() {
            return false;
        }
        match self.handoff_until_ms {
            None => false,
            Some(d) => {
                if now_ms <= d {
                    true
                } else {
                    self.handoff_until_ms = None;
                    false
                }
            },
        }
    }

    /// Resets the playback state for the pending load before mpv loads it:
    /// its start position, its runtime as the duration, not paused, not at
    /// the end.
    pub fn prepare_pending_playback_state(&mut self)
        ensures
            *final(self) == (match old(self).pending {
                Some(p) => Transitions {
                    position_ticks: p.start_ticks,
                    duration_ticks: positive(p.runtime_ticks),
                    pause: false,
                    eof_reached: false,
                    ..*old(self)
                },
                None => *old(self),
            }),
    {
        match &self.pending {
            Some(p) => {
                let start = p.start_ticks;
                let runtime = positive_ticks(p.runtime_ticks);
                self.position_ticks = start;
                self.duration_ticks = runtime;
                self.pause = false;
                self.eof_reached = false;
            },
            None => {},
        }
    }

    /// The duration a completed playback ends at.
    fn completion_duration_ticks(&self) -> (r: Option<i64>)
        ensures
            r == completion_duration_spec(*self),
    {
        if let Some(d) = positive_ticks(self.duration_ticks) {
            return Some(d);
        }
        if self.playback_runtime_ticks.is_some() {
            return self.playback_runtime_ticks;
        }
        if let Some(a) = &self.active {
            if a.runtime_ticks.is_some() {
                return a.runtime_ticks;
            }
        }
        match &self.pending {
            Some(p) => positive_ticks(p.runtime_ticks),
            None => None,
        }
    }

    /// Activates the pending load once mpv reports it loaded.
    pub fn activate_pending(&mut self) -> (r: Vec<TransitionEvent>)
        ensures
            (*final(self), r@) == activate_spec(*old(self)),
    {
        let mut events: Vec<TransitionEvent> = Vec::new();
        let pending = self.pending.take();
        match pending {
            None => events,
            Some(p) => {
                self.position_ticks = p.start_ticks;
                self.duration_ticks = None;
                self.pause = false;
                self.eof_reached = false;
                self.playback_identity = Some(p.identity.duplicate());
                self.playback_runtime_ticks = positive_ticks(p.runtime_ticks);
                if p.has_reporter {
                    events.push(
                        TransitionEvent::ReportStart {
                            playback_id: p.identity.playback_id,
                            position_ticks: p.start_ticks,
                        },
                    );
                    self.active = Some(
                        ActivePlayback { identity: p.identity, runtime_ticks: positive_ticks(p.runtime_ticks) },
                    );
                }
                self.mpv_playback_active = true;
                self.handoff_until_ms = None;
                self.replacement_end_pending = false;
                events
            },
        }
    }

    /// Finishes playback for `reason` at clock reading `now_ms`.
    #[verifier::rlimit(40)]
    pub fn finish_active(&mut self, reason: Option<&str>, now_ms: u64) -> (r: Vec<TransitionEvent>)
        ensures
            (*final(self), r@) == finish_spec(*old(self), reason_view(reason), now_ms),
    {
        let ghost start = *self;
        let ghost rv = reason_view(reason);
        let had = self.snapshot_active();
        let failed = reason_is(reason, "error");
        let completion = is_completion_reason(reason);
        let eof = match reason {
            Some(r) => crate::text::str_eq_ignore_case(r, "eof"),
            None => false,
        };
        let stop_reason = match reason {
            Some(r) => StopReason::parse(r),
            None => None,
        };
        proof {
            assert(completion == completion_spec(rv));
            assert(eof == eof_spec(rv));
            assert(stop_reason == stop_reason_spec(rv));
        }
        if self.pending.is_some() && (reason_is(reason, "stop") || reason_is(reason, "redirect")) {
            if self.replacement_end_pending {
                self.replacement_end_pending = false;
                return Vec::new();
            }
            if self.should_suppress_stop_during_next_playback_handoff(now_ms) {
                return Vec::new();
            }
        }
        let ghost s0 = *self;
        assert(ignore_end_spec(start, rv, now_ms) == (s0, false));
        let mut events: Vec<TransitionEvent> = Vec::new();
        let pending = self.pending.take();
        if let Some(p) = pending {
            self.handoff_until_ms = None;
            self.replacement_end_pending = false;
            if p.has_reporter && (failed || completion) {
                events.push(
                    TransitionEvent::ReportStopped {
                        playback_id: p.identity.playback_id,
                        position_ticks: self.position_ticks,
                        failed,
                    },
                );
            }
        }
        let ghost s1 = *self;
        assert((s1, events@) == finish_pending_spec(s0, rv));
        if completion {
            if let Some(d) = self.completion_duration_ticks() {
                self.duration_ticks = Some(d);
                self.position_ticks = d;
            }
        }
        assert(*self == complete_spec(s1, rv));
        let active = self.active.take();
        self.mpv_playback_active = false;
        self.playback_runtime_ticks = None;
        match active {
            None => {
                if had {
                    let id = match &self.playback_identity {
                        Some(i) => Some(i.playback_id),
                        None => None,
                    };
                    events.push(TransitionEvent::Stopped { playback_id: id, stop_reason });
                    if eof {
                        self.arm_next_playback_handoff(now_ms);
                    }
                }
            },
            Some(a) => {
                events.push(
                    TransitionEvent::ReportStopped {
                        playback_id: a.identity.playback_id,
                        position_ticks: self.position_ticks,
                        failed,
                    },
                );
                let id = match &self.playback_identity {
                    Some(i) => Some(i.playback_id),
                    None => None,
                };
                events.push(TransitionEvent::Stopped { playback_id: id, stop_reason });
                if eof {
                    self.arm_next_playback_handoff(now_ms);
                }
            },
        }
        events
    }

    /// Marks the item watched and asks for the next one at clock reading `now_ms`.
    pub fn mark_watched_and_play_next(&mut self, now_ms: u64) -> (r: Vec<TransitionEvent>)
        ensures
            (*final(self), r@) == mark_watched_spec(*old(self), now_ms),
    {
        if self.active.is_none() && self.pending.is_none() && !self.mpv_playback_active {
            return Vec::new();
        }
        if let Some(d) = self.completion_duration_ticks() {
            self.duration_ticks = Some(d);
            self.position_ticks = d;
        }
        let events = self.finish_active(Some("watched-next"), now_ms);
        self.arm_next_playback_handoff(now_ms);
        events
    }
}

/// A finish that is not ignored leaves nothing playing: no pending load, no
/// active playback, and the web client sees playback as inactive.
pub proof fn law_finish_clears_playback(s: Transitions, reason: Option<Seq<char>>, now: u64)
    requires
        !ignore_end_spec(s, reason, now).1,
    ensures
        finish_spec(s, reason, now).0.pending is None,
        finish_spec(s, reason, now).0.active is None,
        !snapshot_active_spec(finish_spec(s, reason, now).0),
{
}

/// While the next episode loads within the handoff window, a stale `stop`
/// or `redirect` of the replaced file changes nothing and reports nothing.
pub proof fn law_stale_stop_ignored_during_handoff(s: Transitions, reason: Option<Seq<char>>, now: u64)
    requires
        s.pending is Some,
        s.handoff_until_ms matches Some(d) && now <= d,
        reason == Some("stop"@) || reason == Some("redirect"@),
    ensures
        finish_spec(s, reason, now).0 == (Transitions { replacement_end_pending: false, ..s }),
        finish_spec(s, reason, now).1.len() == 0,
{
}

/// While a load that replaced a playing file is pending, that file's
/// `stop` or `redirect` end is ignored once, with or without a handoff
/// window: the load stays pending and nothing is reported.
pub proof fn law_replaced_file_end_ignored(s: Transitions, reason: Option<Seq<char>>, now: u64)
    requires
        s.pending is Some,
        s.replacement_end_pending,
        reason == Some("stop"@) || reason == Some("redirect"@),
    ensures
        finish_spec(s, reason, now).0 == (Transitions { replacement_end_pending: false, ..s }),
        finish_spec(s, reason, now).1.len() == 0,
{
}

/// The end of a file that was playing opens the handoff window for the
/// next episode.
pub proof fn law_eof_arms_handoff(s: Transitions, reason: Option<Seq<char>>, now: u64)
    requires
        eof_spec(reason),
        snapshot_active_spec(s),
    ensures
        finish_spec(s, reason, now).0.handoff_until_ms == Some(handoff_deadline(now)),
{
    assert(!(reason == Some("stop"@) || reason == Some("redirect"@))) by {
        if reason == Some("stop"@) {
            assert(!eq_ignore_case("stop"@, "eof"@)) by {
                reveal_strlit("stop");
                reveal_strlit("eof");
            }
        }
        if reason == Some("redirect"@) {
            assert(!eq_ignore_case("redirect"@, "eof"@)) by {
                reveal_strlit("redirect");
                reveal_strlit("eof");
            }
        }
    }
}

/// A completed playback with no pending load ends at its duration when one
/// is known: the position and the duration both become it.
pub proof fn law_completion_ends_at_duration(s: Transitions, reason: Option<Seq<char>>, now: u64)
    requires
        completion_spec(reason),
        s.pending is None,
        completion_duration_spec(s) is Some,
    ensures
        finish_spec(s, reason, now).0.position_ticks == completion_duration_spec(s)->0,
        finish_spec(s, reason, now).0.duration_ticks == completion_duration_spec(s),
{
}

/// A finish tells the web client once that playback stopped, as its last
/// event, exactly when playback was active and the finish is not ignored;
/// the server hears of at most the pending load and the active playback.
pub proof fn law_finish_stops_once(s: Transitions, reason: Option<Seq<char>>, now: u64)
    ensures
        finish_spec(s, reason, now).1.len() <= 3,
        (snapshot_active_spec(s) && !ignore_end_spec(s, reason, now).1) <==> (finish_spec(s, reason, now).1.len()
            > 0 && finish_spec(s, reason, now).1.last() is Stopped),
        forall|i: int| 0 <= i < finish_spec(s, reason, now).1.len() - 1 ==> !(#[trigger] finish_spec(
            s,
            reason,
            now,
        ).1[i] is Stopped),
{
    let (s0, ignored) = ignore_end_spec(s, reason, now);
    if !ignored {
        let (s1, ev1) = finish_pending_spec(s0, reason);
        assert(ev1.len() <= 1);
        assert(forall|i: int| 0 <= i < ev1.len() ==> !(#[trigger] ev1[i] is Stopped));
    }
}

/// Activating a pending load makes it the playback: nothing pending, mpv
/// playing, the window closed, its start as the position, its identity as
/// the playback's.
pub proof fn law_activation_takes_the_pending_load(s: Transitions)
    requires
        s.pending is Some,
    ensures
        activate_spec(s).0.pending is None,
        activate_spec(s).0.mpv_playback_active,
        snapshot_active_spec(activate_spec(s).0),
        activate_spec(s).0.handoff_until_ms is None,
        activate_spec(s).0.position_ticks == s.pending->0.start_ticks,
        activate_spec(s).0.playback_identity == Some(s.pending->0.identity),
{
}

/// Marking watched while something plays finishes it and opens the handoff
/// window for the next episode.
pub proof fn law_mark_watched_hands_off(s: Transitions, now: u64)
    requires
        snapshot_active_spec(s),
    ensures
        mark_watched_spec(s, now).0.pending is None,
        mark_watched_spec(s, now).0.active is None,
        !mark_watched_spec(s, now).0.mpv_playback_active,
        mark_watched_spec(s, now).0.handoff_until_ms == Some(handoff_deadline(now)),
{
    let s1 = match completion_duration_spec(s) {
        Some(d) => Transitions { duration_ticks: Some(d), position_ticks: d, ..s },
        None => s,
    };
    assert(Some("watched-next"@) != Some("stop"@)) by {
        reveal_strlit("watched-next");
        reveal_strlit("stop");
        assert("watched-next"@.len() != "stop"@.len());
    }
    assert(Some("watched-next"@) != Some("redirect"@)) by {
        reveal_strlit("watched-next");
        reveal_strlit("redirect");
        assert("watched-next"@.len() != "redirect"@.len());
    }
    law_finish_clears_playback(s1, Some("watched-next"@), now);
}

} // verus!

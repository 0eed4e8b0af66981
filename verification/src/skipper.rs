//! The segment-skip side of the mpv controller: the segments of the playing
//! item, the prompt and countdown state, and the native seeks that accept a
//! skip prompt. Seeking mpv is the caller's work; this module decides where
//! to and records the outcome.
use vstd::prelude::*;

use crate::segments::{
    lemma_first_match_is_prompt, lemma_prompt_in_bounds, prompt_segment_at, prompt_spec,
    SegmentSkipAction, SegmentSkipConfig, SegmentSkipState, SkipSegment, AUTO_SKIP_DELAY_MS,
};

verus! {

/// What the caller is asked to do about segments.
#[derive(Debug, Clone, Copy, PartialEq, Eq, Structural)]
pub enum SkipperAction {
    /// Show the skip prompt of segment `0`.
    Prompt(usize),
    /// Show the automatic-skip countdown.
    Countdown { segment_index: usize, remaining_seconds: u64 },
    /// Seek mpv to `target_ticks`, the end of segment `index`; once mpv took
    /// the seek, `skip_done(index)` records the segment as skipped.
    SeekPast { index: usize, target_ticks: i64 },
}

/// The skip state of one mpv session.
#[derive(Debug)]
pub struct SegmentSkipper {
    pub segments: Vec<SkipSegment>,
    pub state: SegmentSkipState,
    /// Where playback was when a native seek started inside a prompting segment.
    pub seek_started_at_ticks: Option<i64>,
    pub config: SegmentSkipConfig,
}

/// The segments with segment `index` marked skipped, when it exists.
pub open spec fn triggered_spec(segments: Seq<SkipSegment>, index: usize) -> Seq<SkipSegment> {
    if index < segments.len() {
        segments.update(index as int, SkipSegment { triggered: true, ..segments[index as int] })
    } else {
        segments
    }
}

/// Starting to skip segment `index` with playback at `current` at clock
/// reading `now`: the new segments, skip state and seek target. A missing or
/// already skipped segment changes nothing. Otherwise the segment is left,
/// nothing stays pending and the prompt debounce restarts; a segment whose
/// end playback already passed is marked skipped without a seek.
pub open spec fn begin_skip_spec(
    segments: Seq<SkipSegment>,
    state: SegmentSkipState,
    index: usize,
    current: i64,
    now: u64,
) -> (Seq<SkipSegment>, SegmentSkipState, Option<SkipperAction>) {
    if index >= segments.len() || segments[index as int].triggered {
        (segments, state, None)
    } else {
        let left = SegmentSkipState { current_segment: None, pending_auto_skip: None, last_prompt_at: Some(now) };
        let end = segments[index as int].end_ticks;
        if end <= current {
            (triggered_spec(segments, index), left, None)
        } else {
            (segments, left, Some(SkipperAction::SeekPast { index, target_ticks: end }))
        }
    }
}

/// The action for what the skip state machine asked.
pub open spec fn lift_spec(a: Option<SegmentSkipAction>) -> Option<SkipperAction> {
    match a {
        Some(SegmentSkipAction::Prompt(i)) => Some(SkipperAction::Prompt(i)),
        Some(SegmentSkipAction::Countdown { segment_index, remaining_seconds }) => Some(
            SkipperAction::Countdown { segment_index, remaining_seconds },
        ),
        _ => None,
    }
}

/// `new` and `r` are what a new skip configuration `config`, with playback
/// at `position` at clock reading `now`, makes of `old`.
pub open spec fn reconfigured_spec(
    old: SegmentSkipper,
    new: SegmentSkipper,
    config: SegmentSkipConfig,
    position: i64,
    now: u64,
    r: Option<SkipperAction>,
) -> bool {
    &&& new.config == config
    &&& if config.all_disabled_spec() {
        &&& new.segments@ == Seq::<SkipSegment>::empty()
        &&& new.state == SegmentSkipState::empty()
        &&& new.seek_started_at_ticks is None
        &&& r is None
    } else {
        let u = (SegmentSkipState { pending_auto_skip: None, ..old.state }).update_spec(
            old.segments@,
            config,
            position,
            now,
        );
        &&& new.segments@ == old.segments@
        &&& new.state == u.0
        &&& r == lift_spec(u.1)
        &&& new.seek_started_at_ticks == old.seek_started_at_ticks
    }
}

/// The action for what the skip state machine asked, a skip left out.
fn lift(a: Option<SegmentSkipAction>) -> (r: Option<SkipperAction>)
    ensures
        r == lift_spec(a),
{
    match a {
        Some(SegmentSkipAction::Prompt(i)) => Some(SkipperAction::Prompt(i)),
        Some(SegmentSkipAction::Countdown { segment_index, remaining_seconds }) => Some(
            SkipperAction::Countdown { segment_index, remaining_seconds },
        ),
        _ => None,
    }
}

impl SegmentSkipper {
    /// No segments, nothing pending, skipping as `config` says.
    pub fn new(config: SegmentSkipConfig) -> (r: Self)
        ensures
            r.segments@ == Seq::<SkipSegment>::empty(),
            r.state == SegmentSkipState::empty(),
            r.seek_started_at_ticks is None,
            r.config == config,
    {
        SegmentSkipper {
            segments: Vec::new(),
            state: SegmentSkipState { current_segment: None, pending_auto_skip: None, last_prompt_at: None },
            seek_started_at_ticks: None,
            config,
        }
    }

    /// Forgets the segments and everything about them; the configuration stays.
    pub fn clear(&mut self)
        ensures
            final(self).segments@ == Seq::<SkipSegment>::empty(),
            final(self).state == SegmentSkipState::empty(),
            final(self).seek_started_at_ticks is None,
            final(self).config == old(self).config,
    {
        self.segments = Vec::new();
        self.state.clear();
        self.seek_started_at_ticks = None;
    }

    /// Starts skipping segment `index` with playback at `current_ticks` at
    /// clock reading `now`; asks for the seek when one is needed.
    pub fn begin_skip(&mut self, index: usize, current_ticks: i64, now: u64) -> (r: Option<SkipperAction>)
        ensures
            (final(self).segments@, final(self).state, r) == begin_skip_spec(
                old(self).segments@,
                old(self).state,
                index,
                current_ticks,
                now,
            ),
            final(self).seek_started_at_ticks == old(self).seek_started_at_ticks,
            final(self).config == old(self).config,
    {
        if index >= self.segments.len() || self.segments[index].triggered {
            return None;
        }
        let end = self.segments[index].end_ticks;
        self.state.finish_skip(now);
        if end <= current_ticks {
            self.segments[index].triggered = true;
            None
        } else {
            Some(SkipperAction::SeekPast { index, target_ticks: end })
        }
    }

    /// Records that mpv took the seek past segment `index`.
    pub fn skip_done(&mut self, index: usize)
        ensures
            final(self).segments@ == triggered_spec(old(self).segments@, index),
            final(self).state == old(self).state,
            final(self).seek_started_at_ticks == old(self).seek_started_at_ticks,
            final(self).config == old(self).config,
    {
        if index < self.segments.len() {
            self.segments[index].triggered = true;
        }
    }

    /// mpv started a seek with playback at `position_ticks`: inside a
    /// prompting segment, the start is remembered.
    pub fn handle_seek_event(&mut self, position_ticks: i64)
        ensures
            final(self).seek_started_at_ticks == (if prompt_spec(
                old(self).segments@,
                old(self).config,
                position_ticks,
            ) is Some {
                Some(position_ticks)
            } else {
                old(self).seek_started_at_ticks
            }),
            final(self).segments@ == old(self).segments@,
            final(self).state == old(self).state,
            final(self).config == old(self).config,
    {
        let found = prompt_segment_at(self.segments.as_slice(), &self.config, position_ticks);
        proof {
            lemma_first_match_is_prompt(self.segments@, self.config, position_ticks, found);
        }
        if found.is_some() {
            self.seek_started_at_ticks = Some(position_ticks);
        }
    }

    /// Whether a native seek that started at `start` and now reports
    /// `current` accepts a skip prompt, and which.
    pub open spec fn accepted_spec(self, current: i64) -> Option<usize> {
        match self.seek_started_at_ticks {
            Some(start) => if current > start {
                prompt_spec(self.segments@, self.config, start)
            } else {
                None
            },
            None => None,
        }
    }

    /// The effect of a reported position on a native seek: the seek start
    /// stays while the position has not moved, and is dropped once it has;
    /// a forward move out of the start of a prompting segment skips it.
    pub open spec fn accept_spec(self, current: i64, now: u64) -> (Seq<SkipSegment>, SegmentSkipState, Option<i64>, Option<SkipperAction>) {
        match self.seek_started_at_ticks {
            None => (self.segments@, self.state, None, None),
            Some(start) => if current == start {
                (self.segments@, self.state, Some(start), None)
            } else {
                match self.accepted_spec(current) {
                    None => (self.segments@, self.state, None, None),
                    Some(i) => {
                        let b = begin_skip_spec(self.segments@, self.state, i, current, now);
                        (b.0, b.1, None, b.2)
                    },
                }
            },
        }
    }

    /// Decides a pending native seek once mpv reports position
    /// `current_ticks` (also the playback position) at clock reading `now`.
    pub fn maybe_accept_pending_native_seek(&mut self, current_ticks: i64, now: u64) -> (r: Option<
        SkipperAction,
    >)
        ensures
            (final(self).segments@, final(self).state, final(self).seek_started_at_ticks, r)
                == old(self).accept_spec(current_ticks, now),
            final(self).config == old(self).config,
    {
        let start = match self.seek_started_at_ticks {
            Some(s) => s,
            None => return None,
        };
        if current_ticks == start {
            return None;
        }
        self.seek_started_at_ticks = None;
        if current_ticks < start {
            return None;
        }
        let found = prompt_segment_at(self.segments.as_slice(), &self.config, start);
        proof {
            lemma_first_match_is_prompt(self.segments@, self.config, start, found);
        }
        match found {
            Some(i) => self.begin_skip(i, current_ticks, now),
            None => None,
        }
    }

    /// mpv's `seeking` property changed with playback at `position_ticks`:
    /// a starting seek remembers where it started (unless a seek event did
    /// already); a finished one is decided at the current position.
    pub fn handle_seeking_property(&mut self, seeking: bool, position_ticks: i64, now: u64) -> (r: Option<
        SkipperAction,
    >)
        ensures
            seeking ==> final(self).seek_started_at_ticks == (match old(self).seek_started_at_ticks {
                Some(s) => Some(s),
                None => Some(position_ticks),
            }) && final(self).segments@ == old(self).segments@ && final(self).state
                == old(self).state && r is None,
            !seeking ==> (final(self).segments@, final(self).state, final(self).seek_started_at_ticks, r)
                == old(self).accept_spec(position_ticks, now),
            final(self).config == old(self).config,
    {
        if seeking {
            if self.seek_started_at_ticks.is_none() {
                self.seek_started_at_ticks = Some(position_ticks);
            }
            return None;
        }
        self.maybe_accept_pending_native_seek(position_ticks, now)
    }

    /// A seek the web client asked for, from `current_ticks` to
    /// `requested_ticks`: a forward seek inside a prompting segment skips it.
    pub fn handle_prompt_skip_control(&mut self, current_ticks: i64, requested_ticks: i64, now: u64) -> (r:
        Option<SkipperAction>)
        ensures
            requested_ticks <= current_ticks || prompt_spec(old(self).segments@, old(self).config, current_ticks)
                is None ==> final(self).segments@ == old(self).segments@ && final(self).state == old(
                self,
            ).state && r is None,
            requested_ticks > current_ticks ==> (prompt_spec(old(self).segments@, old(self).config, current_ticks)
                matches Some(i) ==> (final(self).segments@, final(self).state, r) == begin_skip_spec(
                old(self).segments@,
                old(self).state,
                i,
                current_ticks,
                now,
            )),
            final(self).seek_started_at_ticks == old(self).seek_started_at_ticks,
            final(self).config == old(self).config,
    {
        if requested_ticks <= current_ticks {
            return None;
        }
        let found = prompt_segment_at(self.segments.as_slice(), &self.config, current_ticks);
        proof {
            lemma_first_match_is_prompt(self.segments@, self.config, current_ticks, found);
        }
        match found {
            Some(i) => self.begin_skip(i, current_ticks, now),
            None => None,
        }
    }

    /// Takes playback position `ticks` at clock reading `now`: prompts,
    /// starts a countdown, or leaves the segment, as the skip state machine says.
    pub fn update_skip_segment_state(&mut self, ticks: i64, now: u64) -> (r: Option<SkipperAction>)
        requires
            now <= u64::MAX - AUTO_SKIP_DELAY_MS,
        ensures
            final(self).state == old(self).state.update_spec(old(self).segments@, old(self).config, ticks, now).0,
            r == lift_spec(old(self).state.update_spec(old(self).segments@, old(self).config, ticks, now).1),
            final(self).segments@ == old(self).segments@,
            final(self).seek_started_at_ticks == old(self).seek_started_at_ticks,
            final(self).config == old(self).config,
    {
        let a = self.state.update(self.segments.as_slice(), &self.config, ticks, now);
        lift(a)
    }

    /// Advances a pending automatic skip at playback position `ticks` and
    /// clock reading `now`: shows the countdown, or skips once it is due.
    pub fn maybe_update_auto_skip_countdown(&mut self, ticks: i64, now: u64) -> (r: Option<SkipperAction>)
        requires
            now <= u64::MAX - AUTO_SKIP_DELAY_MS,
        ensures
            ({
                let (st, a) = old(self).state.tick_spec(old(self).segments@, old(self).config, ticks, now);
                match a {
                    Some(SegmentSkipAction::Skip(i)) => (final(self).segments@, final(self).state, r)
                        == begin_skip_spec(old(self).segments@, st, i, ticks, now),
                    _ => final(self).segments@ == old(self).segments@ && final(self).state == st && r
                        == lift_spec(a),
                }
            }),
            final(self).seek_started_at_ticks == old(self).seek_started_at_ticks,
            final(self).config == old(self).config,
    {
        let a = self.state.tick(self.segments.as_slice(), &self.config, ticks, now);
        match a {
            Some(SegmentSkipAction::Skip(i)) => self.begin_skip(i, ticks, now),
            _ => lift(a),
        }
    }

    /// Records that the skip prompt was shown at clock reading `now`.
    pub fn mark_prompt_shown(&mut self, now: u64)
        ensures
            final(self).state == (SegmentSkipState { last_prompt_at: Some(now), ..old(self).state }),
            final(self).segments@ == old(self).segments@,
            final(self).seek_started_at_ticks == old(self).seek_started_at_ticks,
            final(self).config == old(self).config,
    {
        self.state.mark_prompt_shown(now);
    }

    /// A new skip configuration with playback at `position_ticks` at clock
    /// reading `now`: a pending automatic skip is dropped; with every type
    /// disabled the segments and everything about them are forgotten,
    /// otherwise the position is taken again under the new configuration.
    pub fn apply_segment_skip_config(&mut self, config: SegmentSkipConfig, position_ticks: i64, now: u64) -> (r:
        Option<SkipperAction>)
        requires
            now <= u64::MAX - AUTO_SKIP_DELAY_MS,
        ensures
            reconfigured_spec(*old(self), *final(self), config, position_ticks, now, r),
    {
        self.config = config;
        self.state.cancel_pending();
        if config.all_disabled() {
            self.clear();
            None
        } else {
            self.update_skip_segment_state(position_ticks, now)
        }
    }

    /// Takes the segments fetched for the playing item with playback at
    /// `position_ticks`: ignored when skipping is disabled altogether;
    /// otherwise they replace the old ones, the current segment and the
    /// prompt debounce are forgotten, and the position is taken at once.
    pub fn segments_fetched(&mut self, segments: Vec<SkipSegment>, position_ticks: i64, now: u64) -> (r:
        Option<SkipperAction>)
        requires
            now <= u64::MAX - AUTO_SKIP_DELAY_MS,
        ensures
            old(self).config.all_disabled_spec() ==> final(self).segments@ == old(self).segments@
                && final(self).state == old(self).state && r is None,
            !old(self).config.all_disabled_spec() ==> ({
                let fresh = SegmentSkipState { current_segment: None, last_prompt_at: None, ..old(self).state };
                &&& final(self).segments@ == segments@
                &&& final(self).state == fresh.update_spec(segments@, old(self).config, position_ticks, now).0
                &&& r == lift_spec(fresh.update_spec(segments@, old(self).config, position_ticks, now).1)
            }),
            final(self).seek_started_at_ticks == old(self).seek_started_at_ticks,
            final(self).config == old(self).config,
    {
        if self.config.all_disabled() {
            return None;
        }
        self.segments = segments;
        self.state.current_segment = None;
        self.state.last_prompt_at = None;
        self.update_skip_segment_state(position_ticks, now)
    }
}

/// A native seek that moved playback backwards never skips: the seek start
/// is dropped and nothing else changes.
pub proof fn law_rewind_is_not_a_skip(k: SegmentSkipper, current: i64, now: u64)
    requires
        k.seek_started_at_ticks matches Some(start) && current < start,
    ensures
        k.accept_spec(current, now) == (k.segments@, k.state, None::<i64>, None::<SkipperAction>),
{
}

/// A native seek that moved playback forward from inside a prompting
/// segment whose end lies ahead asks for the seek past that segment.
pub proof fn law_forward_seek_skips_the_prompt_segment(k: SegmentSkipper, current: i64, now: u64, index: usize)
    requires
        k.seek_started_at_ticks matches Some(start) && current > start,
        prompt_spec(k.segments@, k.config, k.seek_started_at_ticks.unwrap()) == Some(index),
        index < k.segments@.len(),
        k.segments@[index as int].end_ticks > current,
    ensures
        k.accept_spec(current, now).3 == Some(
            SkipperAction::SeekPast { index, target_ticks: k.segments@[index as int].end_ticks },
        ),
{
    assert(k.segments@.len() <= usize::MAX) by {
        assert(k.segments.len() == k.segments@.len());
    }
    lemma_prompt_in_bounds(k.segments@, k.config, k.seek_started_at_ticks.unwrap());
}

/// A skipped segment stays skipped: it contains no position any more, and
/// skipping it again changes nothing and asks for nothing.
pub proof fn law_skipped_segment_is_done(
    segments: Seq<SkipSegment>,
    state: SegmentSkipState,
    index: usize,
    current: i64,
    now: u64,
    ticks: i64,
)
    requires
        index < segments.len(),
    ensures
        !crate::segments::covers(triggered_spec(segments, index)[index as int], ticks),
        begin_skip_spec(triggered_spec(segments, index), state, index, current, now) == (
            triggered_spec(segments, index),
            state,
            None::<SkipperAction>,
        ),
{
}

} // verus!

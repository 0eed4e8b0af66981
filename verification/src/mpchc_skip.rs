//! Segment skipping as the MPC-HC controller does it: a skip changes the
//! skip state only once MPC-HC took the seek, so a failed send leaves the
//! segment to be skipped later.
use vstd::prelude::*;

use crate::segments::{
    lemma_first_match_is_prompt, prompt_segment_at, prompt_spec, SegmentSkipAction, SegmentSkipConfig,
    SegmentSkipState, SkipSegment, AUTO_SKIP_DELAY_MS,
};
use crate::skipper::triggered_spec;

verus! {

/// The segments of the playing item and the skip state.
#[derive(Debug)]
pub struct MpcSkipper {
    pub segments: Vec<SkipSegment>,
    pub state: SegmentSkipState,
    pub config: SegmentSkipConfig,
}

/// A skip finished at `now`: the segment is left, nothing is pending and
/// the prompt debounce restarts.
pub open spec fn finished_state(now: u64) -> SegmentSkipState {
    SegmentSkipState { current_segment: None, pending_auto_skip: None, last_prompt_at: Some(now) }
}

/// Planning a skip of segment `index` with playback at `current` at `now`:
/// the new segments and state and the position to seek to. A missing or
/// already skipped segment changes nothing; one whose end playback already
/// passed counts as skipped at once; otherwise the seek to its end is asked
/// for and nothing changes until MPC-HC took it.
pub open spec fn plan_spec(
    segments: Seq<SkipSegment>,
    state: SegmentSkipState,
    index: usize,
    current: i64,
    now: u64,
) -> (Seq<SkipSegment>, SegmentSkipState, Option<i64>) {
    if index >= segments.len() || segments[index as int].triggered {
        (segments, state, None)
    } else if segments[index as int].end_ticks <= current {
        (triggered_spec(segments, index), finished_state(now), None)
    } else {
        (segments, state, Some(segments[index as int].end_ticks))
    }
}

impl MpcSkipper {
    /// No segments, nothing pending.
    pub fn new(config: SegmentSkipConfig) -> (r: Self)
        ensures
            r.segments@ == Seq::<SkipSegment>::empty(),
            r.state == SegmentSkipState::empty(),
            r.config == config,
    {
        MpcSkipper {
            segments: Vec::new(),
            state: SegmentSkipState { current_segment: None, pending_auto_skip: None, last_prompt_at: None },
            config,
        }
    }

    /// Takes playback position `ticks` at clock reading `now`.
    pub fn update_skip_state(&mut self, ticks: i64, now: u64) -> (r: Option<SegmentSkipAction>)
        requires
            now <= u64::MAX - AUTO_SKIP_DELAY_MS,
        ensures
            (final(self).state, r) == old(self).state.update_spec(old(self).segments@, old(self).config, ticks, now),
            final(self).segments@ == old(self).segments@,
            final(self).config == old(self).config,
    {
        self.state.update(self.segments.as_slice(), &self.config, ticks, now)
    }

    /// Advances a pending automatic skip at playback position `ticks` and
    /// clock reading `now`.
    pub fn maybe_update_auto_skip(&mut self, ticks: i64, now: u64) -> (r: Option<SegmentSkipAction>)
        requires
            now <= u64::MAX - AUTO_SKIP_DELAY_MS,
        ensures
            (final(self).state, r) == old(self).state.tick_spec(old(self).segments@, old(self).config, ticks, now),
            final(self).segments@ == old(self).segments@,
            final(self).config == old(self).config,
    {
        self.state.tick(self.segments.as_slice(), &self.config, ticks, now)
    }

    /// A new skip configuration, with playback at `position_ticks` at clock
    /// reading `now`: a pending automatic skip is dropped; with every type
    /// disabled the segments and the state are forgotten, otherwise the
    /// position is taken again under the new configuration.
    pub fn apply_segment_skip_config(&mut self, config: SegmentSkipConfig, position_ticks: i64, now: u64) -> (r:
        Option<SegmentSkipAction>)
        requires
            now <= u64::MAX - AUTO_SKIP_DELAY_MS,
        ensures
            final(self).config == config,
            config.all_disabled_spec() ==> final(self).segments@ == Seq::<SkipSegment>::empty() && final(self).state == SegmentSkipState::empty() && r is None,
            !config.all_disabled_spec() ==> final(self).segments@ == old(self).segments@ && (final(self).state, r)
                == (SegmentSkipState { pending_auto_skip: None, ..old(self).state }).update_spec(
                old(self).segments@,
                config,
                position_ticks,
                now,
            ),
    {
        self.config = config;
        self.state.cancel_pending();
        if config.all_disabled() {
            self.segments = Vec::new();
            self.state.clear();
            None
        } else {
            self.update_skip_state(position_ticks, now)
        }
    }

    /// The segments fetched for playback `playback_id`, while the controller
    /// plays `current_id`, with playback at `position_ticks` at clock reading
    /// `now`: ignored for another playback or with skipping disabled;
    /// otherwise they replace the old ones, the state starts afresh and the
    /// position is taken.
    pub fn handle_media_segments(
        &mut self,
        current_id: Option<i64>,
        playback_id: i64,
        segments: Vec<SkipSegment>,
        position_ticks: i64,
        now: u64,
    ) -> (r: Option<SegmentSkipAction>)
        requires
            now <= u64::MAX - AUTO_SKIP_DELAY_MS,
        ensures
            current_id != Some(playback_id) || old(self).config.all_disabled_spec() ==> final(self).segments@ == old(self).segments@ && final(self).state == old(self).state && r is None,
            current_id == Some(playback_id) && !old(self).config.all_disabled_spec() ==> final(self).segments@
                == segments@ && (final(self).state, r) == SegmentSkipState::empty().update_spec(
                segments@,
                old(self).config,
                position_ticks,
                now,
            ),
            final(self).config == old(self).config,
    {
        let current = match current_id {
            Some(id) => id == playback_id,
            None => false,
        };
        if !current || self.config.all_disabled() {
            return None;
        }
        self.segments = segments;
        self.state.clear();
        self.update_skip_state(position_ticks, now)
    }

    /// Plans skipping segment `index` with playback at `current_ticks` at
    /// clock reading `now`; returns the position to seek to.
    pub fn plan_skip(&mut self, index: usize, current_ticks: i64, now: u64) -> (r: Option<i64>)
        ensures
            (final(self).segments@, final(self).state, r) == plan_spec(
                old(self).segments@,
                old(self).state,
                index,
                current_ticks,
                now,
            ),
            final(self).config == old(self).config,
    {
        if index >= self.segments.len() || self.segments[index].triggered {
            return None;
        }
        let end = self.segments[index].end_ticks;
        if end <= current_ticks {
            self.state.finish_skip(now);
            self.segments[index].triggered = true;
            None
        } else {
            Some(end)
        }
    }

    /// MPC-HC took the seek past segment `index` at clock reading `now`.
    pub fn skip_sent(&mut self, index: usize, now: u64)
        ensures
            final(self).segments@ == triggered_spec(old(self).segments@, index),
            final(self).state == finished_state(now),
            final(self).config == old(self).config,
    {
        self.state.finish_skip(now);
        if index < self.segments.len() {
            self.segments[index].triggered = true;
        }
    }

    /// A seek the web client asked for, from `current_ticks` to
    /// `requested_ticks`: a forward seek inside a prompting segment plans
    /// skipping it; returns the segment and the position to seek to.
    pub fn handle_prompt_skip(&mut self, current_ticks: i64, requested_ticks: i64, now: u64) -> (r: Option<
        (usize, i64),
    >)
        ensures
            ({
                match prompt_spec(old(self).segments@, old(self).config, current_ticks) {
                    Some(i) if requested_ticks > current_ticks => {
                        let p = plan_spec(old(self).segments@, old(self).state, i, current_ticks, now);
                        &&& final(self).segments@ == p.0
                        &&& final(self).state == p.1
                        &&& r == (match p.2 {
                            Some(t) => Some((i, t)),
                            None => None,
                        })
                    },
                    _ => final(self).segments@ == old(self).segments@ && final(self).state == old(self).state && r
                        is None,
                }
            }),
            final(self).config == old(self).config,
    {
        if requested_ticks <= current_ticks {
            return None;
        }
        self.skip_prompt_segment_at(current_ticks, current_ticks, now)
    }

    /// MPC-HC's position moved from `previous` to `current`: a forward move
    /// out of a prompting segment plans skipping it.
    pub fn maybe_accept_seek_skip(&mut self, previous: i64, current: i64, now: u64) -> (r: Option<(usize, i64)>)
        ensures
            ({
                match prompt_spec(old(self).segments@, old(self).config, previous) {
                    Some(i) if current > previous => {
                        let p = plan_spec(old(self).segments@, old(self).state, i, current, now);
                        &&& final(self).segments@ == p.0
                        &&& final(self).state == p.1
                        &&& r == (match p.2 {
                            Some(t) => Some((i, t)),
                            None => None,
                        })
                    },
                    _ => final(self).segments@ == old(self).segments@ && final(self).state == old(self).state && r
                        is None,
                }
            }),
            final(self).config == old(self).config,
    {
        if current <= previous {
            return None;
        }
        self.skip_prompt_segment_at(previous, current, now)
    }

    /// Plans skipping the prompting segment at `at`, with playback at `current`.
    fn skip_prompt_segment_at(&mut self, at: i64, current: i64, now: u64) -> (r: Option<(usize, i64)>)
        ensures
            ({
                match prompt_spec(old(self).segments@, old(self).config, at) {
                    Some(i) => {
                        let p = plan_spec(old(self).segments@, old(self).state, i, current, now);
                        &&& final(self).segments@ == p.0
                        &&& final(self).state == p.1
                        &&& r == (match p.2 {
                            Some(t) => Some((i, t)),
                            None => None,
                        })
                    },
                    None => final(self).segments@ == old(self).segments@ && final(self).state == old(self).state
                        && r is None,
                }
            }),
            final(self).config == old(self).config,
    {
        let found = prompt_segment_at(self.segments.as_slice(), &self.config, at);
        proof {
            lemma_first_match_is_prompt(self.segments@, self.config, at, found);
        }
        match found {
            Some(i) => match self.plan_skip(i, current, now) {
                Some(t) => Some((i, t)),
                None => None,
            },
            None => None,
        }
    }
}

} // verus!

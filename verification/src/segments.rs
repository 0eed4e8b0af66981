//! Media segments (intro, credits, recap, commercial) and the skip policy
//! that prompts for, counts down to, or performs a skip.
//!
//! Time is a monotonic clock reading in milliseconds supplied by the caller.
use vstd::prelude::*;

verus! {

/// Delay before an automatic skip fires.
pub const AUTO_SKIP_DELAY_MS: u64 = 3000;

/// Interval between countdown updates.
pub const AUTO_SKIP_COUNTDOWN_INTERVAL_MS: u64 = 1000;

/// Minimum time between two skip prompts for the same segment.
pub const PROMPT_DEBOUNCE_MS: u64 = 3000;

/// The kind of a media segment.
#[derive(Debug, Clone, Copy, PartialEq, Eq, Structural)]
pub enum SegmentType {
    Intro,
    Outro,
    Recap,
    Commercial,
}

impl SegmentType {
    pub open spec fn prompt_text_spec(self) -> Seq<char> {
        match self {
            SegmentType::Intro => "Seek to Skip Intro"@,
            SegmentType::Outro => "Seek to Skip Credits"@,
            SegmentType::Recap => "Seek to Skip Recap"@,
            SegmentType::Commercial => "Seek to Skip Commercial"@,
        }
    }

    pub open spec fn skipped_text_spec(self) -> Seq<char> {
        match self {
            SegmentType::Intro => "Skipped Intro"@,
            SegmentType::Outro => "Skipped Credits"@,
            SegmentType::Recap => "Skipped Recap"@,
            SegmentType::Commercial => "Skipped Commercial"@,
        }
    }

    pub open spec fn countdown_label_spec(self) -> Seq<char> {
        match self {
            SegmentType::Intro => "Intro"@,
            SegmentType::Outro => "Credits"@,
            SegmentType::Recap => "Recap"@,
            SegmentType::Commercial => "Commercial"@,
        }
    }

    pub open spec fn marker_end_label_spec(self) -> Seq<char> {
        match self {
            SegmentType::Intro => "Intro End"@,
            SegmentType::Outro => "Credits End"@,
            SegmentType::Recap => "Recap End"@,
            SegmentType::Commercial => "Commercial End"@,
        }
    }

    /// The on-screen prompt offered while the segment plays.
    pub fn prompt_text(self) -> (r: &'static str)
        ensures
            r@ == self.prompt_text_spec(),
    {
        match self {
            SegmentType::Intro => "Seek to Skip Intro",
            SegmentType::Outro => "Seek to Skip Credits",
            SegmentType::Recap => "Seek to Skip Recap",
            SegmentType::Commercial => "Seek to Skip Commercial",
        }
    }

    /// The message shown after the segment was skipped.
    pub fn skipped_text(self) -> (r: &'static str)
        ensures
            r@ == self.skipped_text_spec(),
    {
        match self {
            SegmentType::Intro => "Skipped Intro",
            SegmentType::Outro => "Skipped Credits",
            SegmentType::Recap => "Skipped Recap",
            SegmentType::Commercial => "Skipped Commercial",
        }
    }

    /// The name used in the automatic-skip countdown.
    pub fn countdown_label(self) -> (r: &'static str)
        ensures
            r@ == self.countdown_label_spec(),
    {
        match self {
            SegmentType::Intro => "Intro",
            SegmentType::Outro => "Credits",
            SegmentType::Recap => "Recap",
            SegmentType::Commercial => "Commercial",
        }
    }

    /// The chapter title marking where the segment starts.
    pub fn marker_start_label(self) -> (r: &'static str)
        ensures
            r@ == self.countdown_label_spec(),
    {
        self.countdown_label()
    }

    /// The chapter title marking where the segment ends.
    pub fn marker_end_label(self) -> (r: &'static str)
        ensures
            r@ == self.marker_end_label_spec(),
    {
        match self {
            SegmentType::Intro => "Intro End",
            SegmentType::Outro => "Credits End",
            SegmentType::Recap => "Recap End",
            SegmentType::Commercial => "Commercial End",
        }
    }
}

/// A segment of the playing item, in Jellyfin ticks.
#[derive(Debug, Clone, Copy, PartialEq, Eq, Structural)]
pub struct SkipSegment {
    pub segment_type: SegmentType,
    pub start_ticks: i64,
    pub end_ticks: i64,
    pub triggered: bool,
}

/// What to do when playback enters a segment of some type.
#[derive(Debug, Clone, Copy, PartialEq, Eq, Structural)]
pub enum SegmentSkipMode {
    Disabled,
    Prompt,
    Always,
}

/// The skip mode chosen for each segment type.
#[derive(Debug, Clone, Copy, PartialEq, Eq, Structural)]
pub struct SegmentSkipConfig {
    pub intro: SegmentSkipMode,
    pub credits: SegmentSkipMode,
    pub recap: SegmentSkipMode,
    pub commercial: SegmentSkipMode,
}

impl SegmentSkipConfig {
    /// Every segment type is disabled.
    pub open spec fn all_disabled_spec(self) -> bool {
        self.intro == SegmentSkipMode::Disabled && self.credits == SegmentSkipMode::Disabled
            && self.recap == SegmentSkipMode::Disabled && self.commercial
            == SegmentSkipMode::Disabled
    }

    /// Whether every segment type is disabled.
    pub fn all_disabled(&self) -> (r: bool)
        ensures
            r == self.all_disabled_spec(),
    {
        self.intro == SegmentSkipMode::Disabled && self.credits == SegmentSkipMode::Disabled
            && self.recap == SegmentSkipMode::Disabled && self.commercial
            == SegmentSkipMode::Disabled
    }
}

impl Default for SegmentSkipConfig {
    /// Every segment type prompts.
    fn default() -> (r: Self)
        ensures
            r == (SegmentSkipConfig {
                intro: SegmentSkipMode::Prompt,
                credits: SegmentSkipMode::Prompt,
                recap: SegmentSkipMode::Prompt,
                commercial: SegmentSkipMode::Prompt,
            }),
    {
        SegmentSkipConfig {
            intro: SegmentSkipMode::Prompt,
            credits: SegmentSkipMode::Prompt,
            recap: SegmentSkipMode::Prompt,
            commercial: SegmentSkipMode::Prompt,
        }
    }
}

/// The mode configured for a segment type.
pub open spec fn mode_spec(config: SegmentSkipConfig, segment_type: SegmentType) -> SegmentSkipMode {
    match segment_type {
        SegmentType::Intro => config.intro,
        SegmentType::Outro => config.credits,
        SegmentType::Recap => config.recap,
        SegmentType::Commercial => config.commercial,
    }
}

/// The mode configured for a segment type.
pub fn mode_for_segment(config: &SegmentSkipConfig, segment_type: SegmentType) -> (r: SegmentSkipMode)
    ensures
        r == mode_spec(*config, segment_type),
{
    match segment_type {
        SegmentType::Intro => config.intro,
        SegmentType::Outro => config.credits,
        SegmentType::Recap => config.recap,
        SegmentType::Commercial => config.commercial,
    }
}

/// Playback at `ticks` lies inside the untriggered segment `s`.
pub open spec fn covers(s: SkipSegment, ticks: i64) -> bool {
    !s.triggered && s.start_ticks <= ticks && ticks < s.end_ticks
}

/// `Some(i)` exactly when `i` is the first index satisfying `p`; `None`
/// exactly when none does.
pub open spec fn is_first_match(r: Option<usize>, len: nat, p: spec_fn(int) -> bool) -> bool {
    match r {
        Some(i) => i < len && p(i as int) && forall|j: int| 0 <= j < i ==> !#[trigger] p(j),
        None => forall|j: int| 0 <= j < len ==> !#[trigger] p(j),
    }
}

/// `i` is the first index of an untriggered segment containing `ticks`.
pub open spec fn first_cover(segments: Seq<SkipSegment>, ticks: i64, i: int) -> bool {
    0 <= i < segments.len() && covers(segments[i], ticks) && forall|j: int|
        0 <= j < i ==> !covers(#[trigger] segments[j], ticks)
}

/// The first untriggered segment that contains `ticks`.
pub open spec fn active_spec(segments: Seq<SkipSegment>, ticks: i64) -> Option<usize> {
    if exists|i: int| #[trigger] first_cover(segments, ticks, i) {
        Some((choose|i: int| #[trigger] first_cover(segments, ticks, i)) as usize)
    } else {
        None
    }
}

/// The index of the first untriggered segment that contains `ticks`.
pub fn active_segment_at(segments: &[SkipSegment], ticks: i64) -> (r: Option<usize>)
    ensures
        is_first_match(r, segments@.len(), |j: int| covers(segments@[j], ticks)),
{
    let mut i: usize = 0;
    while i < segments.len()
        invariant
            i <= segments@.len(),
            forall|j: int| 0 <= j < i ==> !covers(#[trigger] segments@[j], ticks),
        decreases segments.len() - i,
    {
        let s = &segments[i];
        if !s.triggered && ticks >= s.start_ticks && ticks < s.end_ticks {
            return Some(i);
        }
        i = i + 1;
    }
    None
}

/// Playback at `ticks` lies inside the untriggered segment `s` whose type is
/// set to prompt.
pub open spec fn prompts(s: SkipSegment, config: SegmentSkipConfig, ticks: i64) -> bool {
    covers(s, ticks) && mode_spec(config, s.segment_type) == SegmentSkipMode::Prompt
}

/// The index of the first untriggered segment containing `ticks` whose type
/// is set to prompt.
pub fn prompt_segment_at(segments: &[SkipSegment], config: &SegmentSkipConfig, ticks: i64) -> (r:
    Option<usize>)
    ensures
        is_first_match(r, segments@.len(), |j: int| prompts(segments@[j], *config, ticks)),
{
    let mut i: usize = 0;
    while i < segments.len()
        invariant
            i <= segments@.len(),
            forall|j: int| 0 <= j < i ==> !prompts(#[trigger] segments@[j], *config, ticks),
        decreases segments.len() - i,
    {
        let s = &segments[i];
        if !s.triggered && mode_for_segment(config, s.segment_type) == SegmentSkipMode::Prompt
            && ticks >= s.start_ticks && ticks < s.end_ticks {
            return Some(i);
        }
        i = i + 1;
    }
    None
}

/// `i` is the first index of a prompting segment containing `ticks`.
pub open spec fn first_prompt(segments: Seq<SkipSegment>, config: SegmentSkipConfig, ticks: i64, i: int) -> bool {
    0 <= i < segments.len() && prompts(segments[i], config, ticks) && forall|j: int|
        0 <= j < i ==> !prompts(#[trigger] segments[j], config, ticks)
}

/// The first untriggered segment containing `ticks` whose type is set to prompt.
pub open spec fn prompt_spec(segments: Seq<SkipSegment>, config: SegmentSkipConfig, ticks: i64) -> Option<usize> {
    if exists|i: int| #[trigger] first_prompt(segments, config, ticks, i) {
        Some((choose|i: int| #[trigger] first_prompt(segments, config, ticks, i)) as usize)
    } else {
        None
    }
}

/// The first-match result of `prompt_segment_at` is `prompt_spec`.
pub proof fn lemma_first_match_is_prompt(
    segments: Seq<SkipSegment>,
    config: SegmentSkipConfig,
    ticks: i64,
    r: Option<usize>,
)
    requires
        is_first_match(r, segments.len(), |j: int| prompts(segments[j], config, ticks)),
    ensures
        r == prompt_spec(segments, config, ticks),
{
    let p = |j: int| prompts(segments[j], config, ticks);
    match r {
        Some(i) => {
            assert(p(i as int));
            assert forall|j: int| 0 <= j < i implies !prompts(#[trigger] segments[j], config, ticks) by {
                assert(!p(j));
            }
            assert(first_prompt(segments, config, ticks, i as int));
            let c = choose|k: int| #[trigger] first_prompt(segments, config, ticks, k);
            if c < i {
                assert(!p(c));
            }
            if (i as int) < c {
                assert(!prompts(segments[i as int], config, ticks));
            }
        },
        None => {
            if exists|k: int| #[trigger] first_prompt(segments, config, ticks, k) {
                let c = choose|k: int| #[trigger] first_prompt(segments, config, ticks, k);
                assert(!p(c));
            }
        },
    }
}

/// `prompt_spec` names an in-bounds prompting segment that contains the position.
pub proof fn lemma_prompt_in_bounds(segments: Seq<SkipSegment>, config: SegmentSkipConfig, ticks: i64)
    requires
        segments.len() <= usize::MAX,
    ensures
        prompt_spec(segments, config, ticks) matches Some(i) ==> first_prompt(segments, config, ticks, i as int),
{
    if exists|k: int| #[trigger] first_prompt(segments, config, ticks, k) {
        let c = choose|k: int| #[trigger] first_prompt(segments, config, ticks, k);
        assert(c as usize as int == c);
    }
}

/// What the player should do about the current segment.
#[derive(Debug, Clone, Copy, PartialEq, Eq, Structural)]
pub enum SegmentSkipAction {
    /// Offer a skip prompt for the segment.
    Prompt(usize),
    /// Show the automatic-skip countdown.
    Countdown { segment_index: usize, remaining_seconds: u64 },
    /// Skip the segment now.
    Skip(usize),
}

/// An automatic skip waiting for its delay.
#[derive(Debug, Clone, Copy, PartialEq, Eq, Structural)]
pub struct PendingAutoSkip {
    pub segment_index: usize,
    pub due_at: u64,
    pub next_countdown_at: u64,
}

/// Per-playback skip state: the segment playback is in, a pending automatic
/// skip and when a prompt was last shown.
#[derive(Debug, Clone, Copy, PartialEq, Eq, Structural)]
pub struct SegmentSkipState {
    pub current_segment: Option<usize>,
    pub pending_auto_skip: Option<PendingAutoSkip>,
    pub last_prompt_at: Option<u64>,
}

impl Default for SegmentSkipState {
    fn default() -> (r: Self)
        ensures
            r == SegmentSkipState::empty(),
    {
        SegmentSkipState { current_segment: None, pending_auto_skip: None, last_prompt_at: None }
    }
}

/// `remaining_ms` rounded up to whole seconds, at least one.
pub open spec fn countdown_seconds(remaining_ms: u64) -> u64 {
    let s = (remaining_ms + 999) / 1000;
    if s < 1 {
        1
    } else {
        s as u64
    }
}

impl SegmentSkipState {
    /// The state with nothing remembered.
    pub open spec fn empty() -> SegmentSkipState {
        SegmentSkipState { current_segment: None, pending_auto_skip: None, last_prompt_at: None }
    }

    /// The pending skip's index, when one is pending.
    pub open spec fn pending_index(self) -> Option<usize> {
        match self.pending_auto_skip {
            Some(p) => Some(p.segment_index),
            None => None,
        }
    }

    /// Forgets everything.
    pub fn clear(&mut self)
        ensures
            *final(self) == SegmentSkipState::empty(),
    {
        *self = SegmentSkipState { current_segment: None, pending_auto_skip: None, last_prompt_at: None };
    }

    /// Drops a pending automatic skip.
    pub fn cancel_pending(&mut self)
        ensures
            *final(self) == (SegmentSkipState { pending_auto_skip: None, ..*old(self) }),
    {
        self.pending_auto_skip = None;
    }

    /// The segment an automatic skip is pending for.
    pub fn pending_segment(&self) -> (r: Option<usize>)
        ensures
            r == self.pending_index(),
    {
        match self.pending_auto_skip {
            Some(p) => Some(p.segment_index),
            None => None,
        }
    }

    /// Records that a prompt was shown at `now`.
    pub fn mark_prompt_shown(&mut self, now: u64)
        ensures
            *final(self) == (SegmentSkipState { last_prompt_at: Some(now), ..*old(self) }),
    {
        self.last_prompt_at = Some(now);
    }

    /// Records a completed skip at `now`: the segment is left, nothing is
    /// pending and the prompt debounce restarts.
    pub fn finish_skip(&mut self, now: u64)
        ensures
            *final(self) == (SegmentSkipState {
                current_segment: None,
                pending_auto_skip: None,
                last_prompt_at: Some(now),
            }),
    {
        self.current_segment = None;
        self.pending_auto_skip = None;
        self.last_prompt_at = Some(now);
    }

    /// The effect of starting an automatic skip of segment `index` at `now`.
    pub open spec fn start_auto_skip_spec(self, segments: Seq<SkipSegment>, index: usize, now: u64) -> (
        SegmentSkipState,
        Option<SegmentSkipAction>,
    ) {
        if (self.pending_auto_skip matches Some(p) && p.segment_index == index) || index
            >= segments.len() || segments[index as int].triggered {
            (self, None)
        } else {
            (
                SegmentSkipState {
                    pending_auto_skip: Some(
                        PendingAutoSkip {
                            segment_index: index,
                            due_at: (now + AUTO_SKIP_DELAY_MS) as u64,
                            next_countdown_at: (now + AUTO_SKIP_COUNTDOWN_INTERVAL_MS) as u64,
                        },
                    ),
                    ..self
                },
                Some(
                    SegmentSkipAction::Countdown {
                        segment_index: index,
                        remaining_seconds: AUTO_SKIP_DELAY_MS / 1000,
                    },
                ),
            )
        }
    }

    /// Starts the automatic skip of segment `index` unless it is already
    /// pending or the segment was already triggered.
    pub fn start_auto_skip(&mut self, segments: &[SkipSegment], index: usize, now: u64) -> (r: Option<
        SegmentSkipAction,
    >)
        requires
            now <= u64::MAX - AUTO_SKIP_DELAY_MS,
        ensures
            (*final(self), r) == old(self).start_auto_skip_spec(segments@, index, now),
    {
        let already = match self.pending_auto_skip {
            Some(p) => p.segment_index == index,
            None => false,
        };
        if already || index >= segments.len() || segments[index].triggered {
            return None;
        }
        self.pending_auto_skip = Some(
            PendingAutoSkip {
                segment_index: index,
                due_at: now + AUTO_SKIP_DELAY_MS,
                next_countdown_at: now + AUTO_SKIP_COUNTDOWN_INTERVAL_MS,
            },
        );
        Some(
            SegmentSkipAction::Countdown {
                segment_index: index,
                remaining_seconds: AUTO_SKIP_DELAY_MS / 1000,
            },
        )
    }

    /// The effect of `update` at playback position `ticks` and time `now`.
    pub open spec fn update_spec(
        self,
        segments: Seq<SkipSegment>,
        config: SegmentSkipConfig,
        ticks: i64,
        now: u64,
    ) -> (SegmentSkipState, Option<SegmentSkipAction>) {
        let active = active_spec(segments, ticks);
        if active is None || config.all_disabled_spec() {
            (SegmentSkipState { current_segment: None, pending_auto_skip: None, ..self }, None)
        } else {
            let index = active->0;
            let entered = self.current_segment != Some(index);
            let entered_state = SegmentSkipState { current_segment: Some(index), ..self };
            match mode_spec(config, segments[index as int].segment_type) {
                SegmentSkipMode::Disabled => (
                    SegmentSkipState { pending_auto_skip: None, ..entered_state },
                    None,
                ),
                SegmentSkipMode::Prompt => (
                    SegmentSkipState { pending_auto_skip: None, ..entered_state },
                    if entered || (match self.last_prompt_at {
                        None => true,
                        Some(shown) => now >= shown && now - shown >= PROMPT_DEBOUNCE_MS,
                    }) {
                        Some(SegmentSkipAction::Prompt(index))
                    } else {
                        None
                    },
                ),
                SegmentSkipMode::Always => entered_state.start_auto_skip_spec(segments, index, now),
            }
        }
    }

    /// Reacts to a new playback position: leaving every segment clears the
    /// state; entering or staying in a segment prompts (debounced), starts an
    /// automatic skip, or does nothing, as the segment's mode says.
    pub fn update(
        &mut self,
        segments: &[SkipSegment],
        config: &SegmentSkipConfig,
        ticks: i64,
        now: u64,
    ) -> (r: Option<SegmentSkipAction>)
        requires
            now <= u64::MAX - AUTO_SKIP_DELAY_MS,
        ensures
            (*final(self), r) == old(self).update_spec(segments@, *config, ticks, now),
    {
        let found = active_segment_at(segments, ticks);
        proof {
            lemma_first_match_is_active(segments@, ticks, found);
        }
        let index = match found {
            Some(i) if !config.all_disabled() => i,
            _ => {
                self.current_segment = None;
                self.pending_auto_skip = None;
                return None;
            },
        };
        let entered = match self.current_segment {
            Some(c) => c != index,
            None => true,
        };
        let last = self.last_prompt_at;
        self.current_segment = Some(index);
        match mode_for_segment(config, segments[index].segment_type) {
            SegmentSkipMode::Disabled => {
                self.pending_auto_skip = None;
                None
            },
            SegmentSkipMode::Prompt => {
                self.pending_auto_skip = None;
                let debounced = match last {
                    None => true,
                    Some(shown) => now >= shown && now - shown >= PROMPT_DEBOUNCE_MS,
                };
                if entered || debounced {
                    Some(SegmentSkipAction::Prompt(index))
                } else {
                    None
                }
            },
            SegmentSkipMode::Always => self.start_auto_skip(segments, index, now),
        }
    }

    /// The effect of `tick` at playback position `ticks` and time `now`.
    pub open spec fn tick_spec(
        self,
        segments: Seq<SkipSegment>,
        config: SegmentSkipConfig,
        ticks: i64,
        now: u64,
    ) -> (SegmentSkipState, Option<SegmentSkipAction>) {
        match self.pending_auto_skip {
            None => (self, None),
            Some(p) => {
                let valid = p.segment_index < segments.len() && covers(
                    segments[p.segment_index as int],
                    ticks,
                ) && mode_spec(config, segments[p.segment_index as int].segment_type)
                    == SegmentSkipMode::Always;
                if !valid {
                    (SegmentSkipState { pending_auto_skip: None, ..self }, None)
                } else if now >= p.due_at {
                    (
                        SegmentSkipState { pending_auto_skip: None, ..self },
                        Some(SegmentSkipAction::Skip(p.segment_index)),
                    )
                } else if now < p.next_countdown_at {
                    (self, None)
                } else {
                    (
                        SegmentSkipState {
                            pending_auto_skip: Some(
                                PendingAutoSkip {
                                    next_countdown_at: (now + AUTO_SKIP_COUNTDOWN_INTERVAL_MS) as u64,
                                    ..p
                                },
                            ),
                            ..self
                        },
                        Some(
                            SegmentSkipAction::Countdown {
                                segment_index: p.segment_index,
                                remaining_seconds: countdown_seconds((p.due_at - now) as u64),
                            },
                        ),
                    )
                }
            },
        }
    }

    /// Advances a pending automatic skip: it is dropped when playback left the
    /// segment or the mode changed, fires once its delay has passed, and
    /// otherwise reports the countdown once per interval.
    pub fn tick(&mut self, segments: &[SkipSegment], config: &SegmentSkipConfig, ticks: i64, now: u64) -> (r:
        Option<SegmentSkipAction>)
        requires
            now <= u64::MAX - AUTO_SKIP_DELAY_MS,
        ensures
            (*final(self), r) == old(self).tick_spec(segments@, *config, ticks, now),
    {
        let pending = match self.pending_auto_skip {
            Some(p) => p,
            None => return None,
        };
        let valid = pending.segment_index < segments.len() && {
            let s = &segments[pending.segment_index];
            !s.triggered && mode_for_segment(config, s.segment_type) == SegmentSkipMode::Always
                && ticks >= s.start_ticks && ticks < s.end_ticks
        };
        if !valid {
            self.pending_auto_skip = None;
            return None;
        }
        if now >= pending.due_at {
            self.pending_auto_skip = None;
            return Some(SegmentSkipAction::Skip(pending.segment_index));
        }
        if now < pending.next_countdown_at {
            return None;
        }
        let remaining_ms = pending.due_at - now;
        let mut remaining_seconds = remaining_ms / 1000 + if remaining_ms % 1000 == 0 {
            0
        } else {
            1
        };
        if remaining_seconds < 1 {
            remaining_seconds = 1;
        }
        proof {
            assert(remaining_seconds == countdown_seconds(remaining_ms)) by (nonlinear_arith)
                requires
                    remaining_ms > 0,
                    remaining_seconds == (if remaining_ms / 1000 + (if remaining_ms % 1000 == 0 { 0int } else { 1int }) < 1 { 1int } else { remaining_ms / 1000 + (if remaining_ms % 1000 == 0 { 0int } else { 1int }) }),
            ;
        }
        self.pending_auto_skip = Some(
            PendingAutoSkip { next_countdown_at: now + AUTO_SKIP_COUNTDOWN_INTERVAL_MS, ..pending },
        );
        Some(
            SegmentSkipAction::Countdown {
                segment_index: pending.segment_index,
                remaining_seconds,
            },
        )
    }
}

/// The first-match result of `active_segment_at` is `active_spec`.
pub proof fn lemma_first_match_is_active(segments: Seq<SkipSegment>, ticks: i64, r: Option<usize>)
    requires
        is_first_match(r, segments.len(), |j: int| covers(segments[j], ticks)),
    ensures
        r == active_spec(segments, ticks),
{
    let p = |j: int| covers(segments[j], ticks);
    match r {
        Some(i) => {
            assert(p(i as int));
            assert forall|j: int| 0 <= j < i implies !covers(#[trigger] segments[j], ticks) by {
                assert(!p(j));
            }
            assert(first_cover(segments, ticks, i as int));
            let c = choose|k: int| #[trigger] first_cover(segments, ticks, k);
            lemma_first_cover_unique(segments, ticks, c, i as int);
        },
        None => {
            if exists|k: int| #[trigger] first_cover(segments, ticks, k) {
                let c = choose|k: int| #[trigger] first_cover(segments, ticks, k);
                assert(!p(c));
            }
        },
    }
}

/// There is only one first covering index.
pub proof fn lemma_first_cover_unique(segments: Seq<SkipSegment>, ticks: i64, a: int, b: int)
    requires
        first_cover(segments, ticks, a),
        first_cover(segments, ticks, b),
    ensures
        a == b,
{
    if a < b {
        assert(!covers(segments[a], ticks));
    }
    if b < a {
        assert(!covers(segments[b], ticks));
    }
}

/// `active_spec` names an in-bounds segment that contains the position, and
/// finds one whenever one exists.
pub proof fn lemma_active_is_first(segments: Seq<SkipSegment>, ticks: i64)
    requires
        segments.len() <= usize::MAX,
    ensures
        active_spec(segments, ticks) matches Some(i) ==> first_cover(segments, ticks, i as int),
        (exists|k: int| 0 <= k < segments.len() && covers(#[trigger] segments[k], ticks))
            ==> active_spec(segments, ticks) is Some,
{
    if exists|k: int| 0 <= k < segments.len() && covers(#[trigger] segments[k], ticks) {
        let w = choose|k: int| 0 <= k < segments.len() && covers(#[trigger] segments[k], ticks);
        lemma_least_cover(segments, ticks, w);
    }
    if exists|k: int| #[trigger] first_cover(segments, ticks, k) {
        let c = choose|k: int| #[trigger] first_cover(segments, ticks, k);
        assert(c as usize as int == c);
    }
}

/// Below any covering index there is a least covering one.
pub proof fn lemma_least_cover(segments: Seq<SkipSegment>, ticks: i64, w: int)
    requires
        0 <= w < segments.len(),
        covers(segments[w], ticks),
    ensures
        exists|i: int| #[trigger] first_cover(segments, ticks, i),
    decreases w,
{
    if exists|j: int| 0 <= j < w && covers(#[trigger] segments[j], ticks) {
        let j = choose|j: int| 0 <= j < w && covers(#[trigger] segments[j], ticks);
        lemma_least_cover(segments, ticks, j);
    } else {
        assert(first_cover(segments, ticks, w));
    }
}

/// An automatic skip announced by `update` fires at the first `tick` once its
/// delay has passed, while playback stays in the segment under the same
/// configuration; the pending skip is then gone.
pub proof fn law_countdown_then_skip(
    state: SegmentSkipState,
    segments: Seq<SkipSegment>,
    config: SegmentSkipConfig,
    ticks: i64,
    now: u64,
    later: u64,
    index: usize,
    remaining: u64,
)
    requires
        segments.len() <= usize::MAX,
        now <= u64::MAX - AUTO_SKIP_DELAY_MS,
        later >= now + AUTO_SKIP_DELAY_MS,
        state.update_spec(segments, config, ticks, now).1 == Some(
            SegmentSkipAction::Countdown { segment_index: index, remaining_seconds: remaining },
        ),
    ensures
        ({
            let after = state.update_spec(segments, config, ticks, now).0;
            after.tick_spec(segments, config, ticks, later) == (
                SegmentSkipState { pending_auto_skip: None, ..after },
                Some(SegmentSkipAction::Skip(index)),
            )
        }),
{
    lemma_active_is_first(segments, ticks);
}

/// Leaving every segment clears the current segment and any pending skip and
/// asks for nothing.
pub proof fn law_leaving_segments_clears(
    state: SegmentSkipState,
    segments: Seq<SkipSegment>,
    config: SegmentSkipConfig,
    ticks: i64,
    now: u64,
)
    requires
        forall|j: int| 0 <= j < segments.len() ==> !covers(#[trigger] segments[j], ticks),
    ensures
        state.update_spec(segments, config, ticks, now) == (
            SegmentSkipState { current_segment: None, pending_auto_skip: None, ..state },
            None::<SegmentSkipAction>,
        ),
{
    if exists|k: int| #[trigger] first_cover(segments, ticks, k) {
        let c = choose|k: int| #[trigger] first_cover(segments, ticks, k);
        assert(!covers(segments[c], ticks));
    }
}

/// A pending automatic skip whose segment playback left, that was skipped,
/// whose type no longer skips automatically, or that no longer exists is
/// cancelled at the next tick and never fires.
pub proof fn law_left_countdown_is_cancelled(
    state: SegmentSkipState,
    segments: Seq<SkipSegment>,
    config: SegmentSkipConfig,
    ticks: i64,
    now: u64,
)
    requires
        state.pending_index() matches Some(i) ==> !(i < segments.len() && covers(segments[i as int], ticks)
            && mode_spec(config, segments[i as int].segment_type) == SegmentSkipMode::Always),
    ensures
        state.tick_spec(segments, config, ticks, now).1 is None,
        state.tick_spec(segments, config, ticks, now).0.pending_index() is None,
{
}

/// What a new playback position asks for: nothing and no pending skip
/// outside every segment or with skipping disabled; a prompt only for the
/// segment playback is in when its type prompts; a countdown only for that
/// segment when its type skips automatically, of the full delay, with the
/// skip then pending; nothing for a disabled type; and never a skip.
pub proof fn law_update_asks_by_mode(
    state: SegmentSkipState,
    segments: Seq<SkipSegment>,
    config: SegmentSkipConfig,
    ticks: i64,
    now: u64,
)
    requires
        segments.len() <= usize::MAX,
    ensures
        ({
            let a = active_spec(segments, ticks);
            let (next, r) = state.update_spec(segments, config, ticks, now);
            &&& (a is None || config.all_disabled_spec()) ==> r is None && next.pending_index() is None
            &&& forall|i: usize| r == Some(SegmentSkipAction::Prompt(i)) ==> a == Some(i) && mode_spec(
                config,
                segments[i as int].segment_type,
            ) == SegmentSkipMode::Prompt
            &&& forall|i: usize, k: u64|
                r == Some(SegmentSkipAction::Countdown { segment_index: i, remaining_seconds: k }) ==> a
                    == Some(i) && mode_spec(config, segments[i as int].segment_type) == SegmentSkipMode::Always
                    && k == AUTO_SKIP_DELAY_MS / 1000 && next.pending_index() == Some(i)
            &&& forall|i: usize| a == Some(i) && mode_spec(config, segments[i as int].segment_type)
                == SegmentSkipMode::Disabled ==> r is None
            &&& !(r matches Some(SegmentSkipAction::Skip(_)))
        }),
{
}

/// Before its due time a pending automatic skip never fires: a tick then
/// asks for nothing or for a countdown of the pending segment showing the
/// whole seconds left, rounded up; a skip that stays pending keeps its
/// segment and its due time.
pub proof fn law_pending_skip_waits_for_its_due_time(
    state: SegmentSkipState,
    segments: Seq<SkipSegment>,
    config: SegmentSkipConfig,
    ticks: i64,
    now: u64,
)
    requires
        state.pending_auto_skip matches Some(p) && now < p.due_at,
    ensures
        ({
            let p = state.pending_auto_skip->0;
            let (next, r) = state.tick_spec(segments, config, ticks, now);
            &&& !(r matches Some(SegmentSkipAction::Skip(_)))
            &&& forall|i: usize, k: u64|
                r == Some(SegmentSkipAction::Countdown { segment_index: i, remaining_seconds: k }) ==> i
                    == p.segment_index && k * 1000 >= p.due_at - now && (k - 1) * 1000 < p.due_at - now
            &&& next.pending_auto_skip matches Some(q) ==> q.segment_index == p.segment_index && q.due_at
                == p.due_at
        }),
{
    let p = state.pending_auto_skip->0;
    let d = (p.due_at - now) as u64;
    let k = countdown_seconds(d);
    assert(k * 1000 >= d && (k - 1) * 1000 < d) by (nonlinear_arith)
        requires
            d > 0,
            k == (if (d + 999) / 1000 < 1 { 1 } else { (d + 999) / 1000 }),
    ;
}

/// A countdown that `update` starts at `now` makes the skip due exactly
/// the delay later, so no tick before then skips.
pub proof fn law_announced_skip_fires_no_earlier_than_the_delay(
    state: SegmentSkipState,
    segments: Seq<SkipSegment>,
    config: SegmentSkipConfig,
    ticks: i64,
    now: u64,
    later_ticks: i64,
    later: u64,
    index: usize,
    remaining: u64,
)
    requires
        now <= u64::MAX - AUTO_SKIP_DELAY_MS,
        state.update_spec(segments, config, ticks, now).1 == Some(
            SegmentSkipAction::Countdown { segment_index: index, remaining_seconds: remaining },
        ),
        later < now + AUTO_SKIP_DELAY_MS,
    ensures
        ({
            let announced = state.update_spec(segments, config, ticks, now).0;
            &&& announced.pending_auto_skip matches Some(p) && p.segment_index == index && p.due_at == now
                + AUTO_SKIP_DELAY_MS
            &&& !(announced.tick_spec(segments, config, later_ticks, later).1 matches Some(
                SegmentSkipAction::Skip(_),
            ))
        }),
{
    let announced = state.update_spec(segments, config, ticks, now).0;
    law_pending_skip_waits_for_its_due_time(announced, segments, config, later_ticks, later);
}

} // verus!

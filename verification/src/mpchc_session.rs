//! The decisions of the MPC-HC controller: loading a request, opening it
//! once MPC-HC is connected, taking it as the active playback once MPC-HC
//! has loaded it, following play mode and position messages, and finishing.
use vstd::prelude::*;

use crate::context::{
    fill_spec, identity_matches_context, matches_spec, update_identity_from_context, Identity, PlaybackContext,
};
use crate::text::opt_string_view;
use crate::model::{PlaybackRequest, ReportingState};
use crate::mpchc::{
    has_external_subtitle, media_url, media_url_spec, track_selection, TrackSelection, MLS_FAILING, MLS_LOADED,
    PS_PAUSE, PS_PLAY,
};
use crate::text::chars_of;

verus! {

/// How long a second load of the same request is ignored, in milliseconds.
pub const DUPLICATE_DEBOUNCE_MS: u64 = 2_000;

/// How often MPC-HC is asked for its position while playing, in milliseconds.
pub const POSITION_POLL_INTERVAL_MS: u64 = 1_000;

/// How often the active playback's progress is reported, in milliseconds.
pub const PROGRESS_INTERVAL_MS: u64 = 10_000;

/// `now - since`, or zero when the clock reads earlier.
pub open spec fn elapsed_ms(since: u64, now: u64) -> int {
    if now > since {
        now - since
    } else {
        0
    }
}

/// A message from MPC-HC, positions and durations already in ticks.
#[derive(Debug, Clone, Copy, PartialEq, Eq)]
pub enum MpcInbound {
    Connect { hwnd: i64 },
    State(i64),
    PlayMode(i64),
    NowPlaying { duration_ticks: Option<i64> },
    CurrentPosition(Option<i64>),
    NotifySeek(Option<i64>),
    EndOfStream,
    Disconnect,
    Ignored(u32),
}

/// Why the controller finished a playback.
#[derive(Debug, Clone, Copy, PartialEq, Eq)]
pub enum MpcStopReason {
    Replaced,
    Error,
    Eof,
    Quit,
    Stop,
}

impl MpcStopReason {
    /// The reason as the web client reads it.
    pub fn as_str(self) -> (r: &'static str)
        ensures
            r@ == (match self {
                MpcStopReason::Replaced => "replaced"@,
                MpcStopReason::Error => "error"@,
                MpcStopReason::Eof => "eof"@,
                MpcStopReason::Quit => "quit"@,
                MpcStopReason::Stop => "stop"@,
            }),
    {
        match self {
            MpcStopReason::Replaced => "replaced",
            MpcStopReason::Error => "error",
            MpcStopReason::Eof => "eof",
            MpcStopReason::Quit => "quit",
            MpcStopReason::Stop => "stop",
        }
    }
}

/// What the controller does outside its state.
#[derive(Debug, Clone, Copy, PartialEq, Eq)]
pub enum MpcAction {
    /// Open the pending request's URL in MPC-HC.
    Open,
    /// Report the start of playback `playback_id`.
    ReportStart(i64),
    /// Report progress of playback `playback_id`.
    ReportProgress(i64),
    /// Report that playback `playback_id` stopped, and whether it failed.
    ReportStopped(i64, bool),
    /// Tell the web client that playback stopped, and why.
    Stopped(MpcStopReason),
    /// Tell the web client that MPC-HC could not be started.
    StartFailed,
    /// Address MPC-HC's window from now on.
    SetTarget(i64),
    /// Stop addressing MPC-HC's window.
    ClearTarget,
    /// Ask MPC-HC what is playing.
    GetNowPlaying,
    /// Select an audio track by zero-based index.
    SetAudioTrack(i64),
    /// Select a subtitle track by zero-based index, -1 for none.
    SetSubtitleTrack(i64),
    /// Toggle MPC-HC's fullscreen.
    ToggleFullscreen,
    /// Show the seeking message and seek to a position in ticks.
    Seek(i64),
    /// Hide the seeking message.
    ClearSeekingOsd,
    /// Fetch the media segments of playback `playback_id`.
    FetchSegments(i64),
    /// The position moved; a user seek when the flag is set.
    PositionChanged { previous: i64, current: i64, user_seek: bool },
    /// Tell MPC-HC to stop.
    StopPlayer,
}

/// A load MPC-HC has not reported loaded yet.
#[derive(Debug)]
pub struct MpcPending {
    pub identity: Identity,
    pub launch: PlaybackRequest,
    pub has_reporter: bool,
}

/// The playback MPC-HC has loaded.
#[derive(Debug)]
pub struct MpcActive {
    pub identity: Identity,
    pub has_reporter: bool,
}

/// The MPC-HC controller's state.
#[derive(Debug)]
pub struct MpcSession {
    pub connected: bool,
    pub awaiting_open: bool,
    pub pending: Option<MpcPending>,
    pub active: Option<MpcActive>,
    pub identity: Option<Identity>,
    pub playback_active: bool,
    pub state: ReportingState,
    pub resume_ticks: Option<i64>,
    pub seeking_osd: bool,
    pub want_fullscreen: bool,
    pub fullscreen: bool,
    /// The volume the user set, as reported.
    pub volume_level: i64,
    pub muted: bool,
    /// The keys of recent loads and when they came, in milliseconds.
    pub recent_loads: Vec<(String, u64)>,
}

/// The playstate of an idle controller: the user's volume and mute, nothing else.
pub open spec fn idle_state(volume_level: i64, muted: bool) -> ReportingState {
    ReportingState {
        position_ticks: 0,
        pause: false,
        duration_ticks: None,
        volume: Some(volume_level),
        mute: Some(muted),
        eof_reached: false,
    }
}

/// The stop report of an active playback with a reporter.
pub open spec fn report_stopped_seq(active: Option<MpcActive>, failed: bool) -> Seq<MpcAction> {
    match active {
        Some(a) => if a.has_reporter {
            seq![MpcAction::ReportStopped(a.identity.playback_id, failed)]
        } else {
            Seq::empty()
        },
        None => Seq::empty(),
    }
}

/// Finishing for `reason`: the active playback's stop is reported; the
/// pending load, the open request, the resume position and the seeking
/// message go; when anything was loading or playing, playback ends, the web
/// client hears why, and the playstate returns to idle.
pub open spec fn finish_spec(s: MpcSession, reason: MpcStopReason, failed: bool) -> (MpcSession, Seq<MpcAction>) {
    let had = s.active is Some || s.pending is Some;
    let reports = report_stopped_seq(s.active, failed);
    let cleared = MpcSession { active: None, pending: None, awaiting_open: false, resume_ticks: None, seeking_osd: false, ..s };
    if !had {
        (cleared, reports)
    } else {
        (
            MpcSession { playback_active: false, identity: None, state: idle_state(s.volume_level, s.muted), ..cleared },
            reports.push(MpcAction::Stopped(reason)),
        )
    }
}

/// MPC-HC connected from window `hwnd`: address it, and open the pending
/// request when one waits for the connection.
pub open spec fn connected_spec(s: MpcSession, hwnd: i64) -> (MpcSession, Seq<MpcAction>) {
    let c = MpcSession { connected: true, ..s };
    if s.awaiting_open && s.pending is Some {
        (MpcSession { awaiting_open: false, ..c }, seq![MpcAction::SetTarget(hwnd), MpcAction::Open])
    } else {
        (c, seq![MpcAction::SetTarget(hwnd)])
    }
}

/// The track commands of a selection.
pub open spec fn track_actions(sel: TrackSelection) -> Seq<MpcAction> {
    (match sel.audio_index {
        Some(i) => seq![MpcAction::SetAudioTrack(i)],
        None => Seq::empty(),
    }) + (match sel.subtitle_index {
        Some(i) => seq![MpcAction::SetSubtitleTrack(i)],
        None => Seq::empty(),
    })
}

/// The track selection MPC-HC is given for a launch: the audio ordinal
/// made zero-based when it names a track; subtitles off for an external
/// subtitle, else the subtitle ordinal made zero-based (-1 when it names no
/// track).
pub open spec fn selection_of(launch: PlaybackRequest) -> TrackSelection {
    TrackSelection {
        audio_index: match launch.audio_mpv_id {
            Some(id) => if id > 0 {
                Some((id - 1) as i64)
            } else {
                None
            },
            None => None,
        },
        subtitle_index: if has_external_subtitle(launch) {
            Some(-1i64)
        } else {
            match launch.subtitle_mpv_id {
                Some(id) => Some(
                    if id > 0 {
                        (id - 1) as i64
                    } else {
                        -1i64
                    },
                ),
                None => None,
            }
        },
    }
}

/// MPC-HC loaded the file: the pending load becomes the active playback
/// (its start reported, its tracks selected), MPC-HC is asked what plays,
/// fullscreen follows the preference when connected, and a resume position
/// is sought once.
pub open spec fn loaded_spec(s: MpcSession, sel: TrackSelection) -> (MpcSession, Seq<MpcAction>) {
    let (s1, a1) = match s.pending {
        Some(p) => (
            MpcSession {
                pending: None,
                active: Some(MpcActive { identity: p.identity, has_reporter: p.has_reporter }),
                ..s
            },
            if p.has_reporter {
                seq![MpcAction::ReportStart(p.identity.playback_id)]
            } else {
                Seq::empty()
            },
        ),
        None => (s, Seq::empty()),
    };
    let a2 = a1.push(MpcAction::GetNowPlaying) + (if s.pending is Some { track_actions(sel) } else { Seq::empty() });
    let (s3, a3) = if s1.connected && s1.fullscreen != s1.want_fullscreen {
        (MpcSession { fullscreen: s1.want_fullscreen, ..s1 }, a2.push(MpcAction::ToggleFullscreen))
    } else {
        (s1, a2)
    };
    match s3.resume_ticks {
        Some(t) => if t > 0 {
            (MpcSession { resume_ticks: None, seeking_osd: true, ..s3 }, a3.push(MpcAction::Seek(t)))
        } else {
            (MpcSession { resume_ticks: None, ..s3 }, a3)
        },
        None => (s3, a3),
    }
}

/// A play mode message: play and pause set the pause state, reporting
/// progress of a reported playback when it changed.
pub open spec fn play_mode_spec(s: MpcSession, mode: i64) -> (MpcSession, Seq<MpcAction>) {
    if mode == PS_PLAY || mode == PS_PAUSE {
        let paused = mode == PS_PAUSE;
        if s.state.pause != paused {
            let n = MpcSession { state: ReportingState { pause: paused, ..s.state }, ..s };
            match s.active {
                Some(a) => if a.has_reporter {
                    (n, seq![MpcAction::ReportProgress(a.identity.playback_id)])
                } else {
                    (n, Seq::empty())
                },
                None => (n, Seq::empty()),
            }
        } else {
            (s, Seq::empty())
        }
    } else {
        (s, Seq::empty())
    }
}

/// A position message: a user seek hides the seeking message; a known
/// position becomes the playstate's.
pub open spec fn position_spec(s: MpcSession, ticks: Option<i64>, user_seek: bool) -> (MpcSession, Seq<MpcAction>) {
    let (s1, a1) = if user_seek && s.seeking_osd {
        (MpcSession { seeking_osd: false, ..s }, seq![MpcAction::ClearSeekingOsd])
    } else {
        (s, Seq::empty())
    };
    match ticks {
        None => (s1, a1),
        Some(t) => (
            MpcSession { state: ReportingState { position_ticks: t, ..s1.state }, ..s1 },
            a1.push(MpcAction::PositionChanged { previous: s1.state.position_ticks, current: t, user_seek }),
        ),
    }
}

/// MPC-HC went away: it is no longer addressed and the playback ends.
pub open spec fn gone_spec(s: MpcSession) -> (MpcSession, Seq<MpcAction>) {
    let (n, a) = finish_spec(MpcSession { connected: false, ..s }, MpcStopReason::Quit, false);
    (n, seq![MpcAction::ClearTarget] + a)
}

/// A message from MPC-HC.
pub open spec fn inbound_spec(s: MpcSession, message: MpcInbound, sel: TrackSelection) -> (MpcSession, Seq<MpcAction>) {
    match message {
        MpcInbound::Connect { hwnd } => connected_spec(s, hwnd),
        MpcInbound::State(state) => if state == MLS_LOADED {
            loaded_spec(s, sel)
        } else if state == MLS_FAILING {
            finish_spec(s, MpcStopReason::Error, true)
        } else {
            (s, Seq::empty())
        },
        MpcInbound::PlayMode(mode) => play_mode_spec(s, mode),
        MpcInbound::NowPlaying { duration_ticks } => (
            MpcSession { state: ReportingState { duration_ticks, ..s.state }, ..s },
            Seq::empty(),
        ),
        MpcInbound::CurrentPosition(t) => position_spec(s, t, false),
        MpcInbound::NotifySeek(t) => position_spec(s, t, true),
        MpcInbound::EndOfStream => finish_spec(s, MpcStopReason::Eof, false),
        MpcInbound::Disconnect => gone_spec(s),
        MpcInbound::Ignored(_) => (s, Seq::empty()),
    }
}

/// The track selection of the pending load, if any.
pub open spec fn pending_selection(s: MpcSession) -> TrackSelection {
    match s.pending {
        Some(p) => selection_of(p.launch),
        None => TrackSelection { audio_index: None, subtitle_index: None },
    }
}

/// The track selection for a launch, as `track_selection` computes it.
fn selection_for(launch: &PlaybackRequest) -> (r: TrackSelection)
    ensures
        r == selection_of(*launch),
{
    track_selection(launch)
}

impl MpcSession {
    /// An idle controller at full volume, not muted, not connected.
    pub fn new() -> (r: Self)
        ensures
            !r.connected,
            !r.awaiting_open,
            r.pending is None,
            r.active is None,
            r.identity is None,
            !r.playback_active,
            r.state == idle_state(100, false),
            r.resume_ticks is None,
            !r.seeking_osd,
            r.volume_level == 100,
            !r.muted,
            r.recent_loads@.len() == 0,
    {
        MpcSession {
            connected: false,
            awaiting_open: false,
            pending: None,
            active: None,
            identity: None,
            playback_active: false,
            state: ReportingState {
                position_ticks: 0,
                pause: false,
                duration_ticks: None,
                volume: Some(100),
                mute: Some(false),
                eof_reached: false,
            },
            resume_ticks: None,
            seeking_osd: false,
            want_fullscreen: false,
            fullscreen: false,
            volume_level: 100,
            muted: false,
            recent_loads: Vec::new(),
        }
    }

    /// The URL to open for the pending load.
    pub fn open_url(&self) -> (r: Option<String>)
        ensures
            match self.pending {
                Some(p) => r matches Some(u) && u@ == media_url_spec(p.launch),
                None => r is None,
            },
    {
        match &self.pending {
            Some(p) => Some(media_url(&p.launch)),
            None => None,
        }
    }

    /// Finishes playback for `reason`.
    pub fn finish_active(&mut self, reason: MpcStopReason, failed: bool) -> (r: Vec<MpcAction>)
        ensures
            (*final(self), r@) == finish_spec(*old(self), reason, failed),
    {
        let had = self.active.is_some() || self.pending.is_some();
        let mut actions: Vec<MpcAction> = Vec::new();
        let active = self.active.take();
        if let Some(a) = active {
            if a.has_reporter {
                actions.push(MpcAction::ReportStopped(a.identity.playback_id, failed));
            }
        }
        self.pending = None;
        self.awaiting_open = false;
        self.resume_ticks = None;
        self.seeking_osd = false;
        if !had {
            return actions;
        }
        self.playback_active = false;
        actions.push(MpcAction::Stopped(reason));
        self.identity = None;
        self.state = ReportingState {
            position_ticks: 0,
            pause: false,
            duration_ticks: None,
            volume: Some(self.volume_level),
            mute: Some(self.muted),
            eof_reached: false,
        };
        actions
    }

    /// Whether a load with `key` came less than the debounce before `now_ms`.
    pub fn is_duplicate(&self, key: &str, now_ms: u64) -> (r: bool)
        ensures
            r == exists|i: int|
                0 <= i < self.recent_loads@.len() && (#[trigger] self.recent_loads@[i]).0@ == key@ && (if now_ms
                    >= self.recent_loads@[i].1 {
                    now_ms - self.recent_loads@[i].1
                } else {
                    0
                }) < DUPLICATE_DEBOUNCE_MS,
    {
        let k = chars_of(key);
        let mut i: usize = 0;
        while i < self.recent_loads.len()
            invariant
                i <= self.recent_loads@.len(),
                k@ == key@,
                forall|j: int|
                    0 <= j < i ==> !((#[trigger] self.recent_loads@[j]).0@ == key@ && (if now_ms >= self.recent_loads@[j].1 {
                        now_ms - self.recent_loads@[j].1
                    } else {
                        0
                    }) < DUPLICATE_DEBOUNCE_MS),
            decreases self.recent_loads@.len() - i,
        {
            let seen = self.recent_loads[i].1;
            let age = if now_ms >= seen {
                now_ms - seen
            } else {
                0
            };
            let same = crate::text::chars_equal(&chars_of(self.recent_loads[i].0.as_str()), &k);
            if same && age < DUPLICATE_DEBOUNCE_MS {
                return true;
            }
            i = i + 1;
        }
        false
    }

    /// Loads `launch` as playback `playback_id` at `now_ms`; `key` is its
    /// duplicate key, `resume_ticks` its positive start, `process_ready`
    /// whether MPC-HC runs. A duplicate is ignored; without MPC-HC the load
    /// fails; otherwise the playback before is replaced, the playstate starts
    /// at the resume position, and the request is opened now or once MPC-HC
    /// connects.
    pub fn load(
        &mut self,
        launch: PlaybackRequest,
        key: &str,
        playback_id: i64,
        has_reporter: bool,
        resume_ticks: Option<i64>,
        want_fullscreen: bool,
        process_ready: bool,
        now_ms: u64,
    ) -> (r: Vec<MpcAction>)
        ensures
            old(self).is_duplicate_spec(key@, now_ms) ==> *final(self) == *old(self) && r@.len() == 0,
            !old(self).is_duplicate_spec(key@, now_ms) && !process_ready ==> r@ == seq![MpcAction::StartFailed]
                && *final(self) == (MpcSession { want_fullscreen, ..*old(self) }),
            !old(self).is_duplicate_spec(key@, now_ms) && process_ready ==> ({
                let (f, fa) = finish_spec(MpcSession { want_fullscreen, ..*old(self) }, MpcStopReason::Replaced, false);
                &&& final(self).pending == Some(
                    MpcPending { identity: final(self).identity->0, launch, has_reporter },
                )
                &&& final(self).identity matches Some(i) && i.playback_id == playback_id && i.item_id == launch.item_id
                    && i.media_source_id == launch.media_source_id && i.play_session_id == launch.play_session_id
                &&& final(self).active is None
                &&& final(self).playback_active
                &&& final(self).resume_ticks == resume_ticks
                &&& final(self).state == ReportingState {
                    position_ticks: match resume_ticks {
                        Some(t) => t,
                        None => 0,
                    },
                    ..idle_state(old(self).volume_level, old(self).muted)
                }
                &&& !final(self).seeking_osd
                &&& final(self).connected == old(self).connected
                &&& final(self).awaiting_open == !old(self).connected
                &&& final(self).want_fullscreen == want_fullscreen
                &&& final(self).fullscreen == old(self).fullscreen
                &&& final(self).volume_level == old(self).volume_level
                &&& final(self).muted == old(self).muted
                &&& final(self).recent_loads@.drop_last() == old(self).recent_loads@
                &&& final(self).recent_loads@.len() == old(self).recent_loads@.len() + 1
                &&& final(self).recent_loads@.last().0@ == key@
                &&& final(self).recent_loads@.last().1 == now_ms
                &&& r@ == fa + (if old(self).connected { seq![MpcAction::Open] } else { Seq::empty() }).push(
                    MpcAction::FetchSegments(playback_id),
                )
            }),
    {
        if self.is_duplicate(key, now_ms) {
            return Vec::new();
        }
        self.want_fullscreen = want_fullscreen;
        if !process_ready {
            let mut actions: Vec<MpcAction> = Vec::new();
            actions.push(MpcAction::StartFailed);
            return actions;
        }
        let mut actions = self.finish_active(MpcStopReason::Replaced, false);
        let identity = Identity::from_launch(playback_id, &launch);
        self.resume_ticks = resume_ticks;
        self.state = ReportingState {
            position_ticks: match resume_ticks {
                Some(t) => t,
                None => 0,
            },
            pause: false,
            duration_ticks: None,
            volume: Some(self.volume_level),
            mute: Some(self.muted),
            eof_reached: false,
        };
        self.seeking_osd = false;
        self.identity = Some(identity.duplicate());
        self.playback_active = true;
        self.pending = Some(MpcPending { identity, launch, has_reporter });
        self.recent_loads.push((crate::text::to_owned(key), now_ms));
        if self.connected {
            self.awaiting_open = false;
            actions.push(MpcAction::Open);
        } else {
            self.awaiting_open = true;
        }
        actions.push(MpcAction::FetchSegments(playback_id));
        actions
    }

    /// Handles a message from MPC-HC.
    pub fn handle_inbound(&mut self, message: MpcInbound) -> (r: Vec<MpcAction>)
        ensures
            (*final(self), r@) == inbound_spec(*old(self), message, pending_selection(*old(self))),
    {
        match message {
            MpcInbound::Connect { hwnd } => self.on_connected(hwnd),
            MpcInbound::State(state) => {
                if state == MLS_LOADED {
                    self.on_loaded()
                } else if state == MLS_FAILING {
                    self.finish_active(MpcStopReason::Error, true)
                } else {
                    Vec::new()
                }
            },
            MpcInbound::PlayMode(mode) => self.handle_play_mode(mode),
            MpcInbound::NowPlaying { duration_ticks } => {
                self.state.duration_ticks = duration_ticks;
                Vec::new()
            },
            MpcInbound::CurrentPosition(t) => self.handle_position(t, false),
            MpcInbound::NotifySeek(t) => self.handle_position(t, true),
            MpcInbound::EndOfStream => self.finish_active(MpcStopReason::Eof, false),
            MpcInbound::Disconnect => self.process_gone(),
            MpcInbound::Ignored(_) => Vec::new(),
        }
    }

    /// MPC-HC connected from window `hwnd`.
    pub fn on_connected(&mut self, hwnd: i64) -> (r: Vec<MpcAction>)
        ensures
            (*final(self), r@) == connected_spec(*old(self), hwnd),
    {
        let mut actions: Vec<MpcAction> = Vec::new();
        actions.push(MpcAction::SetTarget(hwnd));
        self.connected = true;
        if self.awaiting_open && self.pending.is_some() {
            self.awaiting_open = false;
            actions.push(MpcAction::Open);
        }
        actions
    }

    /// MPC-HC reported the file loaded.
    pub fn on_loaded(&mut self) -> (r: Vec<MpcAction>)
        ensures
            (*final(self), r@) == loaded_spec(*old(self), pending_selection(*old(self))),
    {
        let mut actions: Vec<MpcAction> = Vec::new();
        let pending = self.pending.take();
        let mut selection: Option<TrackSelection> = None;
        if let Some(p) = pending {
            selection = Some(selection_for(&p.launch));
            if p.has_reporter {
                actions.push(MpcAction::ReportStart(p.identity.playback_id));
            }
            self.active = Some(MpcActive { identity: p.identity, has_reporter: p.has_reporter });
        }
        actions.push(MpcAction::GetNowPlaying);
        let ghost before_tracks = actions@;
        if let Some(sel) = selection {
            if let Some(i) = sel.audio_index {
                actions.push(MpcAction::SetAudioTrack(i));
            }
            if let Some(i) = sel.subtitle_index {
                actions.push(MpcAction::SetSubtitleTrack(i));
            }
            assert(actions@ =~= before_tracks + track_actions(sel));
        } else {
            assert(actions@ =~= before_tracks + Seq::<MpcAction>::empty());
        }
        if self.connected && self.fullscreen != self.want_fullscreen {
            self.fullscreen = self.want_fullscreen;
            actions.push(MpcAction::ToggleFullscreen);
        }
        let resume = self.resume_ticks;
        match resume {
            Some(t) => {
                self.resume_ticks = None;
                if t > 0 {
                    self.seeking_osd = true;
                    actions.push(MpcAction::Seek(t));
                }
            },
            None => {},
        }
        actions
    }

    /// A play mode message.
    pub fn handle_play_mode(&mut self, mode: i64) -> (r: Vec<MpcAction>)
        ensures
            (*final(self), r@) == play_mode_spec(*old(self), mode),
    {
        let mut actions: Vec<MpcAction> = Vec::new();
        if mode == PS_PLAY || mode == PS_PAUSE {
            let paused = mode == PS_PAUSE;
            if self.state.pause != paused {
                self.state.pause = paused;
                if let Some(a) = &self.active {
                    if a.has_reporter {
                        actions.push(MpcAction::ReportProgress(a.identity.playback_id));
                    }
                }
            }
        }
        actions
    }

    /// A position message; `user_seek` when the user moved the position.
    pub fn handle_position(&mut self, ticks: Option<i64>, user_seek: bool) -> (r: Vec<MpcAction>)
        ensures
            (*final(self), r@) == position_spec(*old(self), ticks, user_seek),
    {
        let mut actions: Vec<MpcAction> = Vec::new();
        if user_seek && self.seeking_osd {
            self.seeking_osd = false;
            actions.push(MpcAction::ClearSeekingOsd);
        }
        if let Some(t) = ticks {
            let previous = self.state.position_ticks;
            self.state.position_ticks = t;
            actions.push(MpcAction::PositionChanged { previous, current: t, user_seek });
        }
        actions
    }

    /// MPC-HC exited or disconnected.
    pub fn process_gone(&mut self) -> (r: Vec<MpcAction>)
        ensures
            (*final(self), r@) == gone_spec(*old(self)),
    {
        self.connected = false;
        let mut actions: Vec<MpcAction> = Vec::new();
        actions.push(MpcAction::ClearTarget);
        let mut rest = self.finish_active(MpcStopReason::Quit, false);
        actions.append(&mut rest);
        actions
    }

    /// The user stopped playback: it finishes and MPC-HC is told to stop.
    pub fn stop(&mut self) -> (r: Vec<MpcAction>)
        ensures
            final(self).pending is None,
            final(self).active is None,
            r@ == finish_spec(*old(self), MpcStopReason::Stop, false).1.push(MpcAction::StopPlayer),
            *final(self) == finish_spec(*old(self), MpcStopReason::Stop, false).0,
    {
        let mut actions = self.finish_active(MpcStopReason::Stop, false);
        actions.push(MpcAction::StopPlayer);
        actions
    }
}

impl MpcSession {
    /// Whether a load with `key` came less than the debounce before `now`.
    pub open spec fn is_duplicate_spec(&self, key: Seq<char>, now: u64) -> bool {
        exists|i: int|
            0 <= i < self.recent_loads@.len() && (#[trigger] self.recent_loads@[i]).0@ == key && (if now
                >= self.recent_loads@[i].1 {
                now - self.recent_loads@[i].1
            } else {
                0
            }) < DUPLICATE_DEBOUNCE_MS
    }
}

/// `after` is `before` with its missing fields taken from the context when
/// `matched`, and `before` unchanged otherwise.
pub open spec fn updated_identity(before: Identity, after: Identity, context: PlaybackContext, matched: bool) -> bool {
    if matched {
        &&& after.playback_id == before.playback_id
        &&& opt_string_view(after.item_id) == fill_spec(opt_string_view(before.item_id), opt_string_view(context.item_id))
        &&& opt_string_view(after.media_source_id) == fill_spec(
            opt_string_view(before.media_source_id),
            opt_string_view(context.media_source_id),
        )
        &&& opt_string_view(after.play_session_id) == fill_spec(
            opt_string_view(before.play_session_id),
            opt_string_view(context.play_session_id),
        )
    } else {
        after == before
    }
}

/// Which playbacks a context described.
#[derive(Debug, Clone, Copy, PartialEq, Eq)]
pub struct MpcContextUpdate {
    pub active: bool,
    pub pending: bool,
    pub current: bool,
}

impl MpcSession {
    /// Merges late metadata about a playback into every identity it
    /// describes, filling only missing fields; says which it described.
    pub fn update_context(&mut self, context: &PlaybackContext) -> (r: MpcContextUpdate)
        ensures
            r.active == (old(self).active matches Some(a) && matches_spec(a.identity.keys(), context.keys())),
            r.pending == (old(self).pending matches Some(p) && matches_spec(p.identity.keys(), context.keys())),
            r.current == (old(self).identity matches Some(i) && matches_spec(i.keys(), context.keys())),
            match (old(self).active, final(self).active) {
                (Some(a), Some(b)) => updated_identity(a.identity, b.identity, *context, r.active) && b.has_reporter
                    == a.has_reporter,
                (None, None) => true,
                _ => false,
            },
            match (old(self).pending, final(self).pending) {
                (Some(p), Some(q)) => updated_identity(p.identity, q.identity, *context, r.pending) && q.launch
                    == p.launch && q.has_reporter == p.has_reporter,
                (None, None) => true,
                _ => false,
            },
            match (old(self).identity, final(self).identity) {
                (Some(i), Some(j)) => updated_identity(i, j, *context, r.current),
                (None, None) => true,
                _ => false,
            },
            final(self).state == old(self).state,
            final(self).playback_active == old(self).playback_active,
            final(self).connected == old(self).connected,
            final(self).awaiting_open == old(self).awaiting_open,
            final(self).resume_ticks == old(self).resume_ticks,
            final(self).recent_loads@ == old(self).recent_loads@,
    {
        let mut update = MpcContextUpdate { active: false, pending: false, current: false };
        if let Some(a) = &mut self.active {
            if identity_matches_context(&a.identity, context) {
                update_identity_from_context(&mut a.identity, context);
                update.active = true;
            }
        }
        if let Some(p) = &mut self.pending {
            if identity_matches_context(&p.identity, context) {
                update_identity_from_context(&mut p.identity, context);
                update.pending = true;
            }
        }
        if let Some(i) = &mut self.identity {
            if identity_matches_context(i, context) {
                update_identity_from_context(i, context);
                update.current = true;
            }
        }
        update
    }
}

impl MpcSession {
    /// Whether to ask MPC-HC for its position at clock reading `now_ms`,
    /// the last time having been `last_poll_ms`: while connected and
    /// playing, once per interval.
    pub fn position_poll_due(&self, last_poll_ms: u64, now_ms: u64) -> (r: bool)
        ensures
            r == (self.connected && self.playback_active && elapsed_ms(last_poll_ms, now_ms)
                >= POSITION_POLL_INTERVAL_MS),
    {
        self.connected && self.playback_active && now_ms > last_poll_ms && now_ms - last_poll_ms
            >= POSITION_POLL_INTERVAL_MS
    }

    /// The playback whose progress is to be reported at clock reading
    /// `now_ms`, the last report having gone at `last_progress_ms`: the
    /// active one once per interval, when it is reported at all.
    pub fn progress_due(&self, last_progress_ms: u64, now_ms: u64) -> (r: Option<i64>)
        ensures
            r == (match self.active {
                Some(a) => if a.has_reporter && elapsed_ms(last_progress_ms, now_ms) >= PROGRESS_INTERVAL_MS {
                    Some(a.identity.playback_id)
                } else {
                    None
                },
                None => None,
            }),
    {
        match &self.active {
            Some(a) => if a.has_reporter && now_ms > last_progress_ms && now_ms - last_progress_ms
                >= PROGRESS_INTERVAL_MS {
                Some(a.identity.playback_id)
            } else {
                None
            },
            None => None,
        }
    }
}

/// A finished playback leaves nothing loading or playing; when something
/// was, the web client hears why, last; at most one stop is reported.
pub proof fn law_finish_leaves_nothing(s: MpcSession, reason: MpcStopReason, failed: bool)
    ensures
        finish_spec(s, reason, failed).0.pending is None,
        finish_spec(s, reason, failed).0.active is None,
        (s.pending is Some || s.active is Some) ==> !finish_spec(s, reason, failed).0.playback_active
            && finish_spec(s, reason, failed).1.last() == MpcAction::Stopped(reason),
        report_stopped_seq(s.active, failed).len() <= 1,
{
}

/// A loaded file becomes the active playback and nothing stays pending;
/// its start is reported exactly when it has a reporter.
pub proof fn law_loaded_activates(s: MpcSession, sel: TrackSelection)
    requires
        s.pending is Some,
    ensures
        loaded_spec(s, sel).0.pending is None,
        loaded_spec(s, sel).0.active == Some(
            MpcActive { identity: s.pending->0.identity, has_reporter: s.pending->0.has_reporter },
        ),
        s.pending->0.has_reporter <==> loaded_spec(s, sel).1[0] == MpcAction::ReportStart(
            s.pending->0.identity.playback_id,
        ),
        loaded_spec(s, sel).0.resume_ticks is None,
{
}

/// Whatever MPC-HC sends, a load is never pending while another playback
/// is active.
pub proof fn law_never_pending_and_active(s: MpcSession, message: MpcInbound, sel: TrackSelection)
    requires
        !(s.pending is Some && s.active is Some),
    ensures
        !(inbound_spec(s, message, sel).0.pending is Some && inbound_spec(s, message, sel).0.active is Some),
{
}

} // verus!

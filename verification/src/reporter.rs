//! Playstate reporting for an external mpv: where the server is, what a
//! report says, and when the monitor of a running mpv reports what.
use vstd::prelude::*;

use crate::headers::{find_ci, find_sub_ci, launch_sliceable, playback_auth_headers, playback_auth_headers_spec};
use crate::model::{header_views, opt_str, HttpHeader, PlaybackRequest, TICKS_PER_MILLISECOND};
use crate::text::{
    append_chars, chars_of, find, find_sub, find_sub_spec, non_empty, non_empty_spec,
    opt_string_view, opt_view, pos_of, slice_chars, string_from_chars, to_owned, trim_end_char,
    trim_end_chars, trim_start_char, trim_start_chars,
};

verus! {

// ---------------------------------------------------------------------------
// Server URLs
// ---------------------------------------------------------------------------

/// The server's base URL within a media URL: the scheme and host, and the
/// path before `/Videos/` or `/Audio/` (ASCII case ignored, the first
/// `/Videos/` preferred) without trailing slashes. None without `://` or
/// without a host.
pub open spec fn server_base_url_spec(url: Seq<char>) -> Option<Seq<char>> {
    let p = find_sub_spec(url, seq![':', '/', '/']);
    if p < 0 {
        None
    } else {
        let scheme_end = p + 3;
        let after = url.skip(scheme_end);
        let slash = pos_of(after, '/', '/');
        let host_end = if slash < 0 { after.len() as int } else { slash };
        if host_end == 0 {
            None
        } else {
            let origin_end = scheme_end + host_end;
            let path = url.skip(origin_end);
            let v = find_ci(path, seq!['/', 'v', 'i', 'd', 'e', 'o', 's', '/']);
            let a = find_ci(path, seq!['/', 'a', 'u', 'd', 'i', 'o', '/']);
            let base_end = if v >= 0 { v } else if a >= 0 { a } else { 0 };
            Some(url.take(origin_end) + trim_end_char(path.take(base_end), '/'))
        }
    }
}

/// The server's base URL within `media_url`.
pub fn server_base_url(media_url: &str) -> (r: Option<String>)
    ensures
        opt_string_view(r) == server_base_url_spec(media_url@),
{
    let v = chars_of(media_url);
    let sep: Vec<char> = vec![':', '/', '/'];
    assert(sep@ =~= seq![':', '/', '/']);
    let p = match find_sub(&v, &sep) {
        Some(p) => p,
        None => {
            return None;
        },
    };
    let scheme_end = p + 3;
    let after = slice_chars(&v, scheme_end, v.len());
    assert(after@ =~= v@.skip(scheme_end as int));
    let host_end = match find(&after, '/') {
        Some(i) => i,
        None => after.len(),
    };
    if host_end == 0 {
        return None;
    }
    let origin_end = scheme_end + host_end;
    let path = slice_chars(&v, origin_end, v.len());
    assert(path@ =~= v@.skip(origin_end as int));
    let videos: Vec<char> = vec!['/', 'v', 'i', 'd', 'e', 'o', 's', '/'];
    assert(videos@ =~= seq!['/', 'v', 'i', 'd', 'e', 'o', 's', '/']);
    let audio: Vec<char> = vec!['/', 'a', 'u', 'd', 'i', 'o', '/'];
    assert(audio@ =~= seq!['/', 'a', 'u', 'd', 'i', 'o', '/']);
    let base_end = match find_sub_ci(&path, &videos) {
        Some(i) => i,
        None => match find_sub_ci(&path, &audio) {
            Some(i) => i,
            None => 0,
        },
    };
    let base = trim_end_chars(&slice_chars(&path, 0, base_end), '/');
    assert(path@.subrange(0, base_end as int) =~= path@.take(base_end as int));
    let mut out = slice_chars(&v, 0, origin_end);
    assert(out@ =~= v@.take(origin_end as int));
    append_chars(&mut out, &base);
    Some(string_from_chars(&out))
}

/// `base` and `endpoint` joined by exactly one slash.
pub open spec fn join_api_url_spec(base: Seq<char>, endpoint: Seq<char>) -> Seq<char> {
    trim_end_char(base, '/') + seq!['/'] + trim_start_char(endpoint, '/')
}

/// Joins a base URL and an API endpoint with exactly one slash.
pub fn join_api_url(base_url: &str, endpoint: &str) -> (r: String)
    ensures
        r@ == join_api_url_spec(base_url@, endpoint@),
{
    let b = chars_of(base_url);
    let e = chars_of(endpoint);
    let mut out = trim_end_chars(&b, '/');
    out.push('/');
    let tail = trim_start_chars(&e, '/');
    append_chars(&mut out, &tail);
    string_from_chars(&out)
}

// ---------------------------------------------------------------------------
// Ticks
// ---------------------------------------------------------------------------

/// `v` clamped to the range of `i64`.
pub open spec fn clamp_i64(v: int) -> i64 {
    if v > i64::MAX {
        i64::MAX
    } else if v < i64::MIN {
        i64::MIN
    } else {
        v as i64
    }
}

/// `i64::saturating_add`.
pub fn saturating_add_i64(a: i64, b: i64) -> (r: i64)
    ensures
        r == clamp_i64(a + b),
{
    if b > 0 && a > i64::MAX - b {
        i64::MAX
    } else if b < 0 && a < i64::MIN - b {
        i64::MIN
    } else {
        a + b
    }
}

/// The position estimated from the start position and the time mpv has
/// been running: the start plus the elapsed time in ticks, saturating.
pub open spec fn estimate_spec(start_ticks: i64, elapsed_ms: u64) -> i64 {
    let elapsed_ticks = if elapsed_ms * TICKS_PER_MILLISECOND > i64::MAX {
        i64::MAX as int
    } else {
        elapsed_ms * TICKS_PER_MILLISECOND
    };
    clamp_i64(start_ticks + elapsed_ticks)
}

/// Estimates the position of a player that cannot be asked.
pub fn estimate_position_ticks(start_ticks: i64, elapsed_ms: u64) -> (r: i64)
    ensures
        r == estimate_spec(start_ticks, elapsed_ms),
{
    let limit: u64 = 922_337_203_685_477;
    let elapsed_ticks: i64 = if elapsed_ms > limit {
        i64::MAX
    } else {
        (elapsed_ms * 10_000) as i64
    };
    assert(elapsed_ms > limit <==> elapsed_ms * TICKS_PER_MILLISECOND > i64::MAX);
    saturating_add_i64(start_ticks, elapsed_ticks)
}

/// Milliseconds since the Unix epoch (`SystemTime::now`, then
/// `duration_since(UNIX_EPOCH)` and `Duration::as_millis`; zero when the
/// clock reads before the epoch). The value depends on the time of the call,
/// so nothing is claimed of it.
#[verifier::external_body]
fn unix_now_millis() -> u128 {
    match std::time::SystemTime::now().duration_since(std::time::UNIX_EPOCH) {
        Ok(duration) => duration.as_millis(),
        Err(_) => 0,
    }
}

/// Ticks for a count of milliseconds: the product saturating at the
/// largest `u128`, then cast to `i64`.
pub open spec fn millis_to_ticks_spec(millis: u128) -> i64 {
    let t = if millis * 10_000 > u128::MAX { u128::MAX as int } else { millis * 10_000 };
    (t as u128) as i64
}

/// The Unix time in ticks for a count of milliseconds since the epoch.
pub fn millis_to_ticks(millis: u128) -> (r: i64)
    ensures
        r == millis_to_ticks_spec(millis),
{
    let limit: u128 = u128::MAX / 10_000;
    let t: u128 = if millis > limit {
        u128::MAX
    } else {
        millis * 10_000
    };
    assert(millis > limit <==> millis * 10_000 > u128::MAX) by (nonlinear_arith)
        requires
            limit == u128::MAX / 10_000,
    ;
    t as i64
}

// ---------------------------------------------------------------------------
// Playback sessions and report bodies
// ---------------------------------------------------------------------------

/// What the server needs to hear about one playback.
#[derive(Debug, Clone)]
pub struct PlaybackSession {
    pub base_url: String,
    pub item_id: String,
    pub media_source_id: Option<String>,
    pub play_session_id: Option<String>,
    pub start_position_ticks: i64,
    pub runtime_ticks: Option<i64>,
    pub playback_start_time_ticks: i64,
    pub auth_headers: Vec<HttpHeader>,
}

/// The start position of a launch: its start ticks when set, else the start
/// given in milliseconds (converted to ticks), else zero; never negative.
pub open spec fn start_position_spec(start_time_ticks: Option<i64>, start_ms_ticks: Option<i64>) -> i64 {
    let t = match start_time_ticks {
        Some(t) => t,
        None => match start_ms_ticks {
            Some(m) => m,
            None => 0,
        },
    };
    if t < 0 {
        0
    } else {
        t
    }
}

/// A session can be reported when the launch names an item, its URL names
/// a server, and some credential can be sent.
pub open spec fn reportable(launch: PlaybackRequest) -> bool {
    &&& non_empty_spec(opt_string_view(launch.item_id)) is Some
    &&& server_base_url_spec(launch.media_url@) is Some
    &&& playback_auth_headers_spec(launch).len() > 0
}

/// `s` is the session for `launch`, with `start_ms_ticks` the start given
/// in milliseconds converted to ticks, started at Unix time `now_ticks`.
pub open spec fn session_of(
    launch: PlaybackRequest,
    start_ms_ticks: Option<i64>,
    now_ticks: i64,
    s: PlaybackSession,
) -> bool {
    &&& s.base_url@ == server_base_url_spec(launch.media_url@)->0
    &&& s.item_id@ == non_empty_spec(opt_string_view(launch.item_id))->0
    &&& opt_string_view(s.media_source_id) == non_empty_spec(opt_string_view(launch.media_source_id))
    &&& opt_string_view(s.play_session_id) == non_empty_spec(opt_string_view(launch.play_session_id))
    &&& s.start_position_ticks == start_position_spec(launch.start_time_ticks, start_ms_ticks)
    &&& s.runtime_ticks == (match launch.runtime_ticks {
        Some(t) if t > 0 => Some(t),
        _ => None,
    })
    &&& s.playback_start_time_ticks == now_ticks
    &&& header_views(s.auth_headers@) == playback_auth_headers_spec(launch)
}

/// An owned copy of an optional text.
fn owned_opt(value: Option<&str>) -> (r: Option<String>)
    ensures
        opt_string_view(r) == opt_view(value),
{
    match value {
        Some(v) => Some(to_owned(v)),
        None => None,
    }
}

impl PlaybackSession {
    /// The session for `launch` started at Unix time `now_ticks`;
    /// `start_ms_ticks` is the launch's start in milliseconds, when positive,
    /// converted to ticks. None when the launch cannot be reported.
    pub fn from_launch_at(launch: &PlaybackRequest, start_ms_ticks: Option<i64>, now_ticks: i64) -> (r: Option<Self>)
        requires
            non_empty_spec(opt_string_view(launch.item_id)) is Some && server_base_url_spec(launch.media_url@) is Some
                ==> launch_sliceable(*launch),
        ensures
            r is Some <==> reportable(*launch),
            r matches Some(s) ==> session_of(*launch, start_ms_ticks, now_ticks, s),
    {
        let item_id = match non_empty(opt_str(&launch.item_id)) {
            Some(i) => to_owned(i),
            None => {
                return None;
            },
        };
        let base_url = match server_base_url(launch.media_url.as_str()) {
            Some(b) => b,
            None => {
                return None;
            },
        };
        let auth_headers = playback_auth_headers(launch);
        if auth_headers.len() == 0 {
            return None;
        }
        let t = match launch.start_time_ticks {
            Some(t) => t,
            None => match start_ms_ticks {
                Some(m) => m,
                None => 0,
            },
        };
        let runtime_ticks = match launch.runtime_ticks {
            Some(t) => if t > 0 {
                Some(t)
            } else {
                None
            },
            None => None,
        };
        Some(
            PlaybackSession {
                base_url,
                item_id,
                media_source_id: owned_opt(non_empty(opt_str(&launch.media_source_id))),
                play_session_id: owned_opt(non_empty(opt_str(&launch.play_session_id))),
                start_position_ticks: if t < 0 {
                    0
                } else {
                    t
                },
                runtime_ticks,
                playback_start_time_ticks: now_ticks,
                auth_headers,
            },
        )
    }

    /// The session for `launch`, started now.
    pub fn from_launch(launch: &PlaybackRequest, start_ms_ticks: Option<i64>) -> (r: Option<Self>)
        requires
            non_empty_spec(opt_string_view(launch.item_id)) is Some && server_base_url_spec(launch.media_url@) is Some
                ==> launch_sliceable(*launch),
        ensures
            r is Some <==> reportable(*launch),
            r matches Some(s) ==> exists|now: i64| session_of(*launch, start_ms_ticks, now, s),
    {
        let now = millis_to_ticks(unix_now_millis());
        PlaybackSession::from_launch_at(launch, start_ms_ticks, now)
    }
}

/// The body of a start or progress report.
#[derive(Debug, Clone)]
pub struct ProgressBody {
    pub item_id: String,
    pub media_source_id: Option<String>,
    pub play_session_id: Option<String>,
    pub position_ticks: i64,
    pub playback_start_time_ticks: i64,
    pub can_seek: bool,
    pub is_paused: bool,
    pub is_muted: bool,
    pub play_method: String,
    pub volume_level: u32,
}

/// The body of a stop report.
#[derive(Debug, Clone)]
pub struct StopBody {
    pub item_id: String,
    pub media_source_id: Option<String>,
    pub play_session_id: Option<String>,
    pub position_ticks: i64,
    pub failed: bool,
}

/// An optional text without surrounding white space, none when blank.
fn trimmed_opt(value: &Option<String>) -> (r: Option<String>)
    ensures
        opt_string_view(r) == non_empty_spec(opt_string_view(*value)),
{
    owned_opt(non_empty(opt_str(value)))
}

/// The progress body for `session` at `position_ticks`; `runtime_ticks` is
/// the runtime known now. Seeking is possible when the runtime is positive;
/// a negative position is reported as zero; the player is never muted and
/// plays directly at full volume.
pub fn progress_body(
    session: &PlaybackSession,
    runtime_ticks: Option<i64>,
    position_ticks: i64,
    is_paused: bool,
) -> (r: ProgressBody)
    ensures
        r.item_id@ == session.item_id@,
        opt_string_view(r.media_source_id) == non_empty_spec(opt_string_view(session.media_source_id)),
        opt_string_view(r.play_session_id) == non_empty_spec(opt_string_view(session.play_session_id)),
        r.position_ticks == (if position_ticks < 0 { 0 } else { position_ticks }),
        r.playback_start_time_ticks == session.playback_start_time_ticks,
        r.can_seek == (runtime_ticks matches Some(t) && t > 0),
        r.is_paused == is_paused,
        !r.is_muted,
        r.play_method@ == "DirectPlay"@,
        r.volume_level == 100,
{
    ProgressBody {
        item_id: session.item_id.clone(),
        media_source_id: trimmed_opt(&session.media_source_id),
        play_session_id: trimmed_opt(&session.play_session_id),
        position_ticks: if position_ticks < 0 {
            0
        } else {
            position_ticks
        },
        playback_start_time_ticks: session.playback_start_time_ticks,
        can_seek: match runtime_ticks {
            Some(t) => t > 0,
            None => false,
        },
        is_paused,
        is_muted: false,
        play_method: to_owned("DirectPlay"),
        volume_level: 100,
    }
}

/// The stop body for `session` at `position_ticks`: a negative position is
/// reported as zero, and the playback did not fail.
pub fn stop_body(session: &PlaybackSession, position_ticks: i64) -> (r: StopBody)
    ensures
        r.item_id@ == session.item_id@,
        opt_string_view(r.media_source_id) == non_empty_spec(opt_string_view(session.media_source_id)),
        opt_string_view(r.play_session_id) == non_empty_spec(opt_string_view(session.play_session_id)),
        r.position_ticks == (if position_ticks < 0 { 0 } else { position_ticks }),
        !r.failed,
{
    StopBody {
        item_id: session.item_id.clone(),
        media_source_id: trimmed_opt(&session.media_source_id),
        play_session_id: trimmed_opt(&session.play_session_id),
        position_ticks: if position_ticks < 0 {
            0
        } else {
            position_ticks
        },
        failed: false,
    }
}

// ---------------------------------------------------------------------------
// The monitor of a running mpv
// ---------------------------------------------------------------------------

/// How often the monitor asks mpv for its state, in milliseconds.
pub const POLL_INTERVAL_MS: u64 = 1_000;

/// How often progress is reported while nothing changes, in milliseconds.
pub const PROGRESS_INTERVAL_MS: u64 = 10_000;

/// How long after mpv starts the playback start is reported, in milliseconds.
pub const START_GRACE_MS: u64 = 2_000;

/// What mpv answered when asked for its state, in ticks; a field is absent
/// when mpv did not know it.
#[derive(Debug, Clone, Copy, PartialEq, Eq)]
pub struct StatusTicks {
    pub position_ticks: Option<i64>,
    pub pause: Option<bool>,
    pub duration_ticks: Option<i64>,
}

/// The kind of a playstate report.
#[derive(Debug, Clone, Copy, PartialEq, Eq)]
pub enum ReportKind {
    Start,
    Progress,
    Stopped,
}

/// A playstate report to send.
#[derive(Debug, Clone, Copy, PartialEq, Eq)]
pub struct Report {
    pub kind: ReportKind,
    pub position_ticks: i64,
    pub is_paused: bool,
}

/// The monitor's memory between two polls. Times are milliseconds since
/// mpv started.
#[derive(Debug, Clone, Copy, PartialEq, Eq)]
pub struct ReporterState {
    pub start_position_ticks: i64,
    pub runtime_ticks: Option<i64>,
    pub last_position_ticks: i64,
    pub last_pause: bool,
    pub reported_pause: bool,
    pub started: bool,
    pub last_progress_ms: Option<u64>,
}

/// The state after taking in what mpv answered: its position and pause
/// state when it knew them, and its duration as the runtime when the runtime
/// was unknown and the duration is positive. When mpv could not be asked
/// and is not paused, the position is estimated from the elapsed time.
pub open spec fn observe_spec(s: ReporterState, elapsed_ms: u64, status: Option<StatusTicks>) -> ReporterState {
    match status {
        Some(st) => ReporterState {
            last_position_ticks: match st.position_ticks {
                Some(p) => p,
                None => s.last_position_ticks,
            },
            last_pause: match st.pause {
                Some(p) => p,
                None => s.last_pause,
            },
            runtime_ticks: match st.duration_ticks {
                Some(d) => if d > 0 && s.runtime_ticks is None {
                    Some(d)
                } else {
                    s.runtime_ticks
                },
                None => s.runtime_ticks,
            },
            ..s
        },
        None => if !s.last_pause {
            ReporterState { last_position_ticks: estimate_spec(s.start_position_ticks, elapsed_ms), ..s }
        } else {
            s
        },
    }
}

/// Whether progress is due: the interval has passed since the last report
/// (there was none: always), or the pause state changed since then.
pub open spec fn progress_due(s: ReporterState, elapsed_ms: u64) -> bool {
    ||| match s.last_progress_ms {
        Some(t) => (if elapsed_ms >= t { elapsed_ms - t } else { 0 }) >= PROGRESS_INTERVAL_MS,
        None => true,
    }
    ||| s.reported_pause != s.last_pause
}

/// One poll of a running mpv, `elapsed_ms` after it started: observe, then
/// report the start once the grace period has passed, or progress when due.
pub open spec fn poll_spec(s: ReporterState, elapsed_ms: u64, status: Option<StatusTicks>) -> (ReporterState, Option<Report>) {
    let o = observe_spec(s, elapsed_ms, status);
    if !o.started && elapsed_ms >= START_GRACE_MS {
        (
            ReporterState { started: true, reported_pause: o.last_pause, last_progress_ms: Some(elapsed_ms), ..o },
            Some(Report { kind: ReportKind::Start, position_ticks: o.last_position_ticks, is_paused: o.last_pause }),
        )
    } else if o.started && progress_due(o, elapsed_ms) {
        (
            ReporterState { reported_pause: o.last_pause, last_progress_ms: Some(elapsed_ms), ..o },
            Some(Report { kind: ReportKind::Progress, position_ticks: o.last_position_ticks, is_paused: o.last_pause }),
        )
    } else {
        (o, None)
    }
}

/// The state after mpv exited and answered one last time (its position and
/// pause state, when it could still be asked).
pub open spec fn last_observe_spec(s: ReporterState, status: Option<StatusTicks>) -> ReporterState {
    match status {
        Some(st) => ReporterState {
            last_position_ticks: match st.position_ticks {
                Some(p) => p,
                None => s.last_position_ticks,
            },
            last_pause: match st.pause {
                Some(p) => p,
                None => s.last_pause,
            },
            ..s
        },
        None => s,
    }
}

/// The reports once mpv has exited: the start when it was never reported,
/// then the stop at the last known position.
pub open spec fn finish_spec(s: ReporterState, status: Option<StatusTicks>) -> Seq<Report> {
    let o = last_observe_spec(s, status);
    let stop = Report { kind: ReportKind::Stopped, position_ticks: o.last_position_ticks, is_paused: o.last_pause };
    if o.started {
        seq![stop]
    } else {
        seq![Report { kind: ReportKind::Start, position_ticks: o.last_position_ticks, is_paused: o.last_pause }, stop]
    }
}

/// The initial state: nothing reported, the start position (never negative)
/// as the last known position, the runtime as the launch gave it.
pub open spec fn initial_spec(start_position_ticks: i64, runtime_ticks: Option<i64>) -> ReporterState {
    ReporterState {
        start_position_ticks,
        runtime_ticks,
        last_position_ticks: if start_position_ticks < 0 { 0 } else { start_position_ticks },
        last_pause: false,
        reported_pause: false,
        started: false,
        last_progress_ms: None,
    }
}

impl ReporterState {
    /// The monitor's state before the first poll of `session`.
    pub fn new(session: &PlaybackSession) -> (r: Self)
        ensures
            r == initial_spec(session.start_position_ticks, session.runtime_ticks),
    {
        let start = session.start_position_ticks;
        ReporterState {
            start_position_ticks: start,
            runtime_ticks: session.runtime_ticks,
            last_position_ticks: if start < 0 {
                0
            } else {
                start
            },
            last_pause: false,
            reported_pause: false,
            started: false,
            last_progress_ms: None,
        }
    }

    /// Takes in what mpv answered, `elapsed_ms` after it started.
    fn observe(&mut self, elapsed_ms: u64, status: Option<StatusTicks>)
        ensures
            *final(self) == observe_spec(*old(self), elapsed_ms, status),
    {
        match status {
            Some(st) => {
                if let Some(p) = st.position_ticks {
                    self.last_position_ticks = p;
                }
                if let Some(p) = st.pause {
                    self.last_pause = p;
                }
                if let Some(d) = st.duration_ticks {
                    if d > 0 && self.runtime_ticks.is_none() {
                        self.runtime_ticks = Some(d);
                    }
                }
            },
            None => {
                if !self.last_pause {
                    self.last_position_ticks = estimate_position_ticks(self.start_position_ticks, elapsed_ms);
                }
            },
        }
    }

    /// One poll of a running mpv, `elapsed_ms` after it started; `status`
    /// is what mpv answered, none when it could not be asked. Returns the
    /// report to send, if any.
    pub fn poll(&mut self, elapsed_ms: u64, status: Option<StatusTicks>) -> (r: Option<Report>)
        ensures
            (*final(self), r) == poll_spec(*old(self), elapsed_ms, status),
    {
        self.observe(elapsed_ms, status);
        if !self.started && elapsed_ms >= START_GRACE_MS {
            self.started = true;
            self.reported_pause = self.last_pause;
            self.last_progress_ms = Some(elapsed_ms);
            return Some(
                Report { kind: ReportKind::Start, position_ticks: self.last_position_ticks, is_paused: self.last_pause },
            );
        }
        if self.started {
            let interval_passed = match self.last_progress_ms {
                Some(t) => {
                    let since = if elapsed_ms >= t {
                        elapsed_ms - t
                    } else {
                        0
                    };
                    since >= PROGRESS_INTERVAL_MS
                },
                None => true,
            };
            if interval_passed || self.reported_pause != self.last_pause {
                self.reported_pause = self.last_pause;
                self.last_progress_ms = Some(elapsed_ms);
                return Some(
                    Report {
                        kind: ReportKind::Progress,
                        position_ticks: self.last_position_ticks,
                        is_paused: self.last_pause,
                    },
                );
            }
        }
        None
    }

    /// The reports to send once mpv has exited; `status` is its last answer,
    /// none when it could not be asked.
    pub fn finish(&mut self, status: Option<StatusTicks>) -> (r: Vec<Report>)
        ensures
            *final(self) == last_observe_spec(*old(self), status),
            r@ == finish_spec(*old(self), status),
    {
        if let Some(st) = status {
            if let Some(p) = st.position_ticks {
                self.last_position_ticks = p;
            }
            if let Some(p) = st.pause {
                self.last_pause = p;
            }
        }
        let mut reports: Vec<Report> = Vec::new();
        if !self.started {
            reports.push(
                Report { kind: ReportKind::Start, position_ticks: self.last_position_ticks, is_paused: self.last_pause },
            );
        }
        reports.push(
            Report { kind: ReportKind::Stopped, position_ticks: self.last_position_ticks, is_paused: self.last_pause },
        );
        assert(reports@ =~= finish_spec(*old(self), status));
        reports
    }
}

/// A poll reports the start only before the start was reported, progress
/// only after it; once reported, the start stays reported.
pub proof fn law_start_before_progress(s: ReporterState, elapsed_ms: u64, status: Option<StatusTicks>)
    ensures
        ({
            let (next, report) = poll_spec(s, elapsed_ms, status);
            &&& (report matches Some(r) && r.kind == ReportKind::Start) ==> !s.started && next.started
            &&& (report matches Some(r) && r.kind == ReportKind::Progress) ==> s.started
            &&& report matches Some(r) ==> r.kind != ReportKind::Stopped
            &&& s.started ==> next.started
            &&& (elapsed_ms >= START_GRACE_MS ==> next.started)
        }),
{
}

/// While the start is reported, progress goes out whenever the pause state
/// changes or the interval has passed since the last report.
pub proof fn law_progress_when_due(s: ReporterState, elapsed_ms: u64, status: Option<StatusTicks>)
    requires
        s.started,
        progress_due(observe_spec(s, elapsed_ms, status), elapsed_ms),
    ensures
        poll_spec(s, elapsed_ms, status).1 == Some(
            Report {
                kind: ReportKind::Progress,
                position_ticks: observe_spec(s, elapsed_ms, status).last_position_ticks,
                is_paused: observe_spec(s, elapsed_ms, status).last_pause,
            },
        ),
{
}

/// After a report the reported pause state is the current one, so an
/// unchanged pause state alone triggers no further report.
pub proof fn law_report_records_pause(s: ReporterState, elapsed_ms: u64, status: Option<StatusTicks>)
    ensures
        poll_spec(s, elapsed_ms, status).1 is Some ==> poll_spec(s, elapsed_ms, status).0.reported_pause
            == poll_spec(s, elapsed_ms, status).0.last_pause,
{
}

/// Once mpv exits, exactly one stop is reported, last; the start is reported
/// before it exactly when it never was.
pub proof fn law_finish_reports_one_stop(s: ReporterState, status: Option<StatusTicks>)
    ensures
        finish_spec(s, status).len() == (if s.started { 1int } else { 2int }),
        finish_spec(s, status).last().kind == ReportKind::Stopped,
        forall|i: int| 0 <= i < finish_spec(s, status).len() - 1 ==> #[trigger] finish_spec(s, status)[i].kind
            == ReportKind::Start,
{
}

/// The report of one poll as a sequence of zero or one report.
pub open spec fn report_seq(r: Option<Report>) -> Seq<Report> {
    match r {
        Some(x) => seq![x],
        None => Seq::empty(),
    }
}

/// The state and the reports after a series of polls, each given by its
/// time since mpv started and mpv's answer.
pub open spec fn run_spec(s: ReporterState, polls: Seq<(u64, Option<StatusTicks>)>) -> (ReporterState, Seq<Report>)
    decreases polls.len(),
{
    if polls.len() == 0 {
        (s, Seq::empty())
    } else {
        let (next, r) = poll_spec(s, polls[0].0, polls[0].1);
        let (end, rest) = run_spec(next, polls.drop_first());
        (end, report_seq(r) + rest)
    }
}

/// How many reports of kind `k` a sequence holds.
pub open spec fn count_kind(reports: Seq<Report>, k: ReportKind) -> nat
    decreases reports.len(),
{
    if reports.len() == 0 {
        0
    } else {
        (if reports[0].kind == k { 1nat } else { 0nat }) + count_kind(reports.drop_first(), k)
    }
}

/// Counting distributes over concatenation.
proof fn lemma_count_concat(a: Seq<Report>, b: Seq<Report>, k: ReportKind)
    ensures
        count_kind(a + b, k) == count_kind(a, k) + count_kind(b, k),
    decreases a.len(),
{
    if a.len() > 0 {
        assert((a + b).drop_first() =~= a.drop_first() + b);
        lemma_count_concat(a.drop_first(), b, k);
    } else {
        assert(a + b =~= b);
    }
}

/// Over a series of polls the start is reported once, when the state goes
/// from not started to started, first among the reports; no stop is reported.
proof fn lemma_run(s: ReporterState, polls: Seq<(u64, Option<StatusTicks>)>)
    ensures
        count_kind(run_spec(s, polls).1, ReportKind::Start) + (if s.started { 1int } else { 0int })
            == (if run_spec(s, polls).0.started { 1int } else { 0int }),
        count_kind(run_spec(s, polls).1, ReportKind::Stopped) == 0,
        !s.started && run_spec(s, polls).1.len() > 0 ==> run_spec(s, polls).1[0].kind == ReportKind::Start,
    decreases polls.len(),
{
    if polls.len() > 0 {
        let (next, r) = poll_spec(s, polls[0].0, polls[0].1);
        law_start_before_progress(s, polls[0].0, polls[0].1);
        lemma_run(next, polls.drop_first());
        let rest = run_spec(next, polls.drop_first()).1;
        lemma_count_concat(report_seq(r), rest, ReportKind::Start);
        lemma_count_concat(report_seq(r), rest, ReportKind::Stopped);
        reveal_with_fuel(count_kind, 2);
        if r is None {
            assert(report_seq(r) + rest =~= rest);
        } else {
            assert((report_seq(r) + rest)[0] == r->0);
        }
    }
}

/// Over the whole life of an mpv the start is reported exactly once and
/// first, and the stop exactly once and last, whatever mpv answers.
pub proof fn law_one_start_one_stop(
    start_position_ticks: i64,
    runtime_ticks: Option<i64>,
    polls: Seq<(u64, Option<StatusTicks>)>,
    last_status: Option<StatusTicks>,
)
    ensures
        ({
            let (end, during) = run_spec(initial_spec(start_position_ticks, runtime_ticks), polls);
            let all = during + finish_spec(end, last_status);
            &&& count_kind(all, ReportKind::Start) == 1
            &&& count_kind(all, ReportKind::Stopped) == 1
            &&& all[0].kind == ReportKind::Start
            &&& all.last().kind == ReportKind::Stopped
        }),
{
    let s = initial_spec(start_position_ticks, runtime_ticks);
    lemma_run(s, polls);
    let (end, during) = run_spec(s, polls);
    let fin = finish_spec(end, last_status);
    law_finish_reports_one_stop(end, last_status);
    lemma_count_concat(during, fin, ReportKind::Start);
    lemma_count_concat(during, fin, ReportKind::Stopped);
    reveal_with_fuel(count_kind, 3);
    if !end.started {
        assert(fin[0].kind == ReportKind::Start);
        assert(fin.drop_first() =~= seq![fin[1]]);
    } else {
        assert(fin.drop_first() =~= Seq::<Report>::empty());
    }
    if during.len() > 0 {
        assert((during + fin)[0] == during[0]);
    } else {
        assert(during + fin =~= fin);
    }
    assert((during + fin).last() == fin.last());
}

} // verus!

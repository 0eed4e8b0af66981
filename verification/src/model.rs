//! Backend-neutral playback values shared by the application and the player
//! adapters.
use vstd::prelude::*;

use crate::text::{
    ascii_lower, ascii_lowercase, chars_of, eq_ignore_case, lemma_eq_ignore_case_lower,
    lemma_lower_char, lemma_lowercase_has_no_upper, lemma_trim_ends,
    lemma_trim_of_trimmed, lower_char, non_empty, non_empty_spec, opt_string_view, opt_view, push_str,
    str_eq_ignore_case, to_owned, trim, trim_str,
};
use crate::url::{redact_spec, redact_url_query_value, token_key_list, token_keys};

verus! {

/// Jellyfin positions and durations are ticks of 100 ns.
pub const TICKS_PER_MILLISECOND: i64 = 10_000;

/// An HTTP header handed to a player.
#[derive(Debug, Clone, PartialEq, Eq)]
pub struct HttpHeader {
    pub name: String,
    pub value: String,
}

impl View for HttpHeader {
    type V = (Seq<char>, Seq<char>);

    open spec fn view(&self) -> (Seq<char>, Seq<char>) {
        (self.name@, self.value@)
    }
}

/// The name and value texts of a list of headers.
pub open spec fn header_views(headers: Seq<HttpHeader>) -> Seq<(Seq<char>, Seq<char>)> {
    headers.map_values(|h: HttpHeader| h@)
}

/// A request to open media in the selected player: the identity, position and
/// track fields the player adapters act on.
#[derive(Debug, Clone, PartialEq, Eq, Default)]
pub struct PlaybackRequest {
    pub media_url: String,
    pub headers: Vec<HttpHeader>,
    pub item_id: Option<String>,
    pub media_source_id: Option<String>,
    pub play_session_id: Option<String>,
    pub device_id: Option<String>,
    pub start_time_ticks: Option<i64>,
    pub runtime_ticks: Option<i64>,
    pub title: Option<String>,
    pub audio_stream_index: Option<i64>,
    pub subtitle_stream_index: Option<i64>,
    /// One-based embedded audio track ordinal.
    pub audio_mpv_id: Option<i64>,
    /// One-based embedded subtitle track ordinal.
    pub subtitle_mpv_id: Option<i64>,
    pub subtitle_url: Option<String>,
    pub play_method: Option<String>,
    pub playlist_item_id: Option<String>,
}

impl PlaybackRequest {
    /// A request for `media_url` with every other field unset.
    pub fn new(media_url: &str) -> (r: Self)
        ensures
            r.media_url@ == media_url@,
            r.headers@.len() == 0,
            r.item_id is None,
            r.media_source_id is None,
            r.play_session_id is None,
            r.device_id is None,
            r.start_time_ticks is None,
            r.runtime_ticks is None,
            r.title is None,
            r.audio_stream_index is None,
            r.subtitle_stream_index is None,
            r.audio_mpv_id is None,
            r.subtitle_mpv_id is None,
            r.subtitle_url is None,
            r.play_method is None,
            r.playlist_item_id is None,
    {
        PlaybackRequest {
            media_url: to_owned(media_url),
            headers: Vec::new(),
            item_id: None,
            media_source_id: None,
            play_session_id: None,
            device_id: None,
            start_time_ticks: None,
            runtime_ticks: None,
            title: None,
            audio_stream_index: None,
            subtitle_stream_index: None,
            audio_mpv_id: None,
            subtitle_mpv_id: None,
            subtitle_url: None,
            play_method: None,
            playlist_item_id: None,
        }
    }

    /// The key that identifies a request for duplicate suppression.
    pub open spec fn dedupe_key_spec(self) -> Seq<char> {
        let session = non_empty_spec(opt_string_view(self.play_session_id));
        let item = non_empty_spec(opt_string_view(self.item_id));
        let source = non_empty_spec(opt_string_view(self.media_source_id));
        if session is Some {
            "play-session:"@ + session->0
        } else if item is Some && source is Some {
            "item:"@ + item->0 + ":source:"@ + source->0
        } else {
            redact_spec(self.media_url@, token_keys())
        }
    }

    /// The play session, else the item and media source, else the media URL
    /// with its token parameters redacted.
    pub fn dedupe_key(&self) -> (r: String)
        ensures
            r@ == self.dedupe_key_spec(),
    {
        if let Some(session) = non_empty(opt_str(&self.play_session_id)) {
            let mut out = to_owned("play-session:");
            push_str(&mut out, session);
            return out;
        }
        let item = non_empty(opt_str(&self.item_id));
        let source = non_empty(opt_str(&self.media_source_id));
        if let (Some(item), Some(source)) = (item, source) {
            let mut out = to_owned("item:");
            push_str(&mut out, item);
            push_str(&mut out, ":source:");
            push_str(&mut out, source);
            return out;
        }
        let keys = token_key_list();
        redact_url_query_value(self.media_url.as_str(), keys.as_slice())
    }
}

/// `target` when it is set, else `source`.
pub open spec fn fill<T>(target: Option<T>, source: Option<T>) -> Option<T> {
    if target is Some {
        target
    } else {
        source
    }
}

/// The media URL kept by a merge: the request's own unless it is blank.
pub open spec fn fill_url(target: Seq<char>, source: Seq<char>) -> Seq<char> {
    if trim(target).len() == 0 {
        source
    } else {
        target
    }
}

/// A copy of an optional text.
fn copy_text(value: &Option<String>) -> (r: Option<String>)
    ensures
        r == *value,
{
    match value {
        Some(v) => Some(v.clone()),
        None => None,
    }
}

/// A copy of a header list.
pub fn copy_headers(headers: &Vec<HttpHeader>) -> (r: Vec<HttpHeader>)
    ensures
        r@ == headers@,
{
    let mut out: Vec<HttpHeader> = Vec::new();
    let mut i: usize = 0;
    while i < headers.len()
        invariant
            i <= headers.len(),
            out@ == headers@.take(i as int),
        decreases headers.len() - i,
    {
        out.push(HttpHeader { name: headers[i].name.clone(), value: headers[i].value.clone() });
        assert(headers@.take(i + 1) =~= headers@.take(i as int).push(headers@[i as int]));
        i = i + 1;
    }
    assert(headers@.take(headers.len() as int) =~= headers@);
    out
}

/// Fills `target` from `source` when it is unset.
fn merge_text(target: &mut Option<String>, source: &Option<String>)
    ensures
        *final(target) == fill(*old(target), *source),
{
    if target.is_none() {
        *target = copy_text(source);
    }
}

/// Fills `target` from `source` when it is unset.
fn merge_number(target: &mut Option<i64>, source: &Option<i64>)
    ensures
        *final(target) == fill(*old(target), *source),
{
    if target.is_none() {
        *target = *source;
    }
}

impl PlaybackRequest {
    /// Completes this request from `other`: a blank media URL and an empty
    /// header list are taken from it, and so is every unset field; what this
    /// request already has stays.
    pub fn merge_missing_from(&mut self, other: &Self)
        ensures
            final(self).media_url@ == fill_url(old(self).media_url@, other.media_url@),
            final(self).headers@ == (if old(self).headers@.len() == 0 { other.headers@ } else { old(self).headers@ }),
            final(self).item_id == fill(old(self).item_id, other.item_id),
            final(self).media_source_id == fill(old(self).media_source_id, other.media_source_id),
            final(self).play_session_id == fill(old(self).play_session_id, other.play_session_id),
            final(self).device_id == fill(old(self).device_id, other.device_id),
            final(self).start_time_ticks == fill(old(self).start_time_ticks, other.start_time_ticks),
            final(self).runtime_ticks == fill(old(self).runtime_ticks, other.runtime_ticks),
            final(self).title == fill(old(self).title, other.title),
            final(self).audio_stream_index == fill(old(self).audio_stream_index, other.audio_stream_index),
            final(self).subtitle_stream_index == fill(old(self).subtitle_stream_index, other.subtitle_stream_index),
            final(self).audio_mpv_id == fill(old(self).audio_mpv_id, other.audio_mpv_id),
            final(self).subtitle_mpv_id == fill(old(self).subtitle_mpv_id, other.subtitle_mpv_id),
            final(self).subtitle_url == fill(old(self).subtitle_url, other.subtitle_url),
            final(self).play_method == fill(old(self).play_method, other.play_method),
            final(self).playlist_item_id == fill(old(self).playlist_item_id, other.playlist_item_id),
    {
        if trim_str(self.media_url.as_str()).unicode_len() == 0 {
            self.media_url = other.media_url.clone();
        }
        if self.headers.len() == 0 {
            self.headers = copy_headers(&other.headers);
        }
        merge_text(&mut self.item_id, &other.item_id);
        merge_text(&mut self.media_source_id, &other.media_source_id);
        merge_text(&mut self.play_session_id, &other.play_session_id);
        merge_text(&mut self.device_id, &other.device_id);
        merge_number(&mut self.start_time_ticks, &other.start_time_ticks);
        merge_number(&mut self.runtime_ticks, &other.runtime_ticks);
        merge_text(&mut self.title, &other.title);
        merge_number(&mut self.audio_stream_index, &other.audio_stream_index);
        merge_number(&mut self.subtitle_stream_index, &other.subtitle_stream_index);
        merge_number(&mut self.audio_mpv_id, &other.audio_mpv_id);
        merge_number(&mut self.subtitle_mpv_id, &other.subtitle_mpv_id);
        merge_text(&mut self.subtitle_url, &other.subtitle_url);
        merge_text(&mut self.play_method, &other.play_method);
        merge_text(&mut self.playlist_item_id, &other.playlist_item_id);
    }
}

/// Merging is idempotent field by field: filling again from the same
/// source changes nothing, and a field that was set stays as it was.
pub proof fn law_merge_idempotent<T>(target: Option<T>, source: Option<T>, url: Seq<char>, other_url: Seq<char>)
    ensures
        fill(fill(target, source), source) == fill(target, source),
        target is Some ==> fill(target, source) == target,
        fill_url(fill_url(url, other_url), other_url) == fill_url(url, other_url),
        trim(url).len() > 0 ==> fill_url(url, other_url) == url,
{
}

/// `Option<String>::as_deref`.
pub fn opt_str(value: &Option<String>) -> (r: Option<&str>)
    ensures
        opt_view(r) == opt_string_view(*value),
{
    match value {
        Some(v) => Some(v.as_str()),
        None => None,
    }
}

/// State used for playstate reporting, in Jellyfin ticks.
#[derive(Debug, Clone, Copy, PartialEq, Eq, Structural)]
pub struct ReportingState {
    pub position_ticks: i64,
    pub pause: bool,
    pub duration_ticks: Option<i64>,
    pub volume: Option<i64>,
    pub mute: Option<bool>,
    pub eof_reached: bool,
}

impl Default for ReportingState {
    fn default() -> (r: Self)
        ensures
            r == (ReportingState {
                position_ticks: 0,
                pause: false,
                duration_ticks: None,
                volume: None,
                mute: None,
                eof_reached: false,
            }),
    {
        ReportingState {
            position_ticks: 0,
            pause: false,
            duration_ticks: None,
            volume: None,
            mute: None,
            eof_reached: false,
        }
    }
}

/// Whether a track is an audio or a subtitle track.
#[derive(Debug, Clone, Copy, PartialEq, Eq, Structural)]
pub enum PlayerTrackKind {
    Audio,
    Subtitle,
}

/// A selectable track reported by the player.
#[derive(Debug, Clone, PartialEq, Eq)]
pub struct PlayerTrack {
    pub id: i64,
    pub kind: PlayerTrackKind,
    pub language: Option<String>,
    pub title: Option<String>,
    pub codec: Option<String>,
    pub selected: bool,
    pub external: bool,
}

/// How video is fitted to the window.
#[derive(Debug, Clone, Copy, PartialEq, Eq, Structural)]
pub enum VideoFit {
    Fit,
    Fill,
}

/// The aspect ratio video is shown at.
#[derive(Debug, Clone, Copy, PartialEq, Eq, Structural)]
pub enum VideoAspect {
    Source,
    Ratio4x3,
    Ratio16x9,
    Ratio21x9,
}

/// The HDR tone-mapping curve.
#[derive(Debug, Clone, Copy, PartialEq, Eq, Structural)]
pub enum ToneMapping {
    Auto,
    Clip,
    Mobius,
    Reinhard,
    Hable,
    Bt2390,
}

/// Why playback ended, sent to the UI as `stopReason`.
#[derive(Debug, Clone, Copy, PartialEq, Eq, Structural)]
pub enum StopReason {
    /// The file played to its end.
    Eof,
    /// The viewer marked the item watched and asked for the next one.
    WatchedNext,
    Stop,
    Quit,
    Error,
    Redirect,
    Shutdown,
    /// A reason this app does not know.
    Unknown,
}

/// The reason a non-blank trimmed mpv `end-file` reason names.
pub open spec fn reason_of(t: Seq<char>) -> StopReason {
    if eq_ignore_case(t, "eof"@) {
        StopReason::Eof
    } else if eq_ignore_case(t, "watched-next"@) {
        StopReason::WatchedNext
    } else if eq_ignore_case(t, "stop"@) {
        StopReason::Stop
    } else if eq_ignore_case(t, "quit"@) {
        StopReason::Quit
    } else if eq_ignore_case(t, "error"@) {
        StopReason::Error
    } else if eq_ignore_case(t, "redirect"@) {
        StopReason::Redirect
    } else if eq_ignore_case(t, "shutdown"@) {
        StopReason::Shutdown
    } else {
        StopReason::Unknown
    }
}

/// `StopReason::parse` on the character model.
pub open spec fn parse_reason(reason: Seq<char>) -> Option<StopReason> {
    if trim(reason).len() == 0 {
        None
    } else {
        Some(reason_of(trim(reason)))
    }
}

impl StopReason {
    /// The wire name of a reason.
    pub open spec fn name(self) -> Seq<char> {
        match self {
            StopReason::Eof => "eof"@,
            StopReason::WatchedNext => "watched-next"@,
            StopReason::Stop => "stop"@,
            StopReason::Quit => "quit"@,
            StopReason::Error => "error"@,
            StopReason::Redirect => "redirect"@,
            StopReason::Shutdown => "shutdown"@,
            StopReason::Unknown => "unknown"@,
        }
    }

    /// Reads an mpv `end-file` reason, ignoring case and surrounding space.
    /// A missing or blank reason is `None`.
    pub fn parse(reason: &str) -> (r: Option<Self>)
        ensures
            r == parse_reason(reason@),
    {
        let t = trim_str(reason);
        if t.unicode_len() == 0 {
            return None;
        }
        let r = if str_eq_ignore_case(t, "eof") {
            StopReason::Eof
        } else if str_eq_ignore_case(t, "watched-next") {
            StopReason::WatchedNext
        } else if str_eq_ignore_case(t, "stop") {
            StopReason::Stop
        } else if str_eq_ignore_case(t, "quit") {
            StopReason::Quit
        } else if str_eq_ignore_case(t, "error") {
            StopReason::Error
        } else if str_eq_ignore_case(t, "redirect") {
            StopReason::Redirect
        } else if str_eq_ignore_case(t, "shutdown") {
            StopReason::Shutdown
        } else {
            StopReason::Unknown
        };
        Some(r)
    }

    /// The item was finished, so it counts as watched.
    pub open spec fn is_completion_spec(self) -> bool {
        self == StopReason::Eof || self == StopReason::WatchedNext
    }

    /// The item was finished, so it counts as watched.
    pub fn is_completion(self) -> (r: bool)
        ensures
            r == self.is_completion_spec(),
    {
        match self {
            StopReason::Eof | StopReason::WatchedNext => true,
            _ => false,
        }
    }

    /// The wire name of the reason.
    pub fn as_str(self) -> (r: &'static str)
        ensures
            r@ == self.name(),
    {
        match self {
            StopReason::Eof => "eof",
            StopReason::WatchedNext => "watched-next",
            StopReason::Stop => "stop",
            StopReason::Quit => "quit",
            StopReason::Error => "error",
            StopReason::Redirect => "redirect",
            StopReason::Shutdown => "shutdown",
            StopReason::Unknown => "unknown",
        }
    }
}

/// Every reason reads back from its own wire name.
pub proof fn law_stop_reason_round_trip(reason: StopReason)
    ensures
        parse_reason(reason.name()) == Some(reason),
{
    reveal_strlit("eof");
    reveal_strlit("watched-next");
    reveal_strlit("stop");
    reveal_strlit("quit");
    reveal_strlit("error");
    reveal_strlit("redirect");
    reveal_strlit("shutdown");
    reveal_strlit("unknown");
    let n = reason.name();
    assert(!crate::text::is_white(n[0]));
    assert(!crate::text::is_white(n.last()));
    crate::text::lemma_lead(n, 0);
    crate::text::lemma_trail(n, 0);
    assert(trim(n) =~= n);
    assert(reason_of(n) == reason);
}

/// Reading a reason ignores surrounding white space and ASCII case: it
/// reads as its trimmed, lower-cased text does, and reads as none exactly
/// when it is blank.
pub proof fn law_parse_ignores_case_and_space(reason: Seq<char>)
    ensures
        parse_reason(reason) is None <==> trim(reason).len() == 0,
        parse_reason(reason) == parse_reason(ascii_lowercase(trim(reason))),
        trim(reason).len() > 0 ==> parse_reason(reason) == Some(named_reason(ascii_lowercase(trim(reason)))),
{
    let t = trim(reason);
    let l = ascii_lowercase(t);
    lemma_trim_ends(reason);
    if t.len() > 0 {
        lemma_lower_char(t[0]);
        lemma_lower_char(t.last());
        assert(l[0] == lower_char(t[0]));
        assert(l.last() == lower_char(t.last()));
    }
    lemma_trim_of_trimmed(l);
    assert(l.len() == t.len());
    assert forall|x: Seq<char>| #[trigger] eq_ignore_case(l, x) == eq_ignore_case(t, x) by {
        if eq_ignore_case(t, x) {
            assert forall|i: int| 0 <= i < l.len() implies ascii_lower(#[trigger] l[i]) == ascii_lower(x[i]) by {
                lemma_lower_char(t[i]);
                assert(ascii_lower(t[i]) == ascii_lower(x[i]));
            }
        }
        if eq_ignore_case(l, x) {
            assert forall|i: int| 0 <= i < t.len() implies ascii_lower(#[trigger] t[i]) == ascii_lower(x[i]) by {
                lemma_lower_char(t[i]);
                assert(ascii_lower(l[i]) == ascii_lower(x[i]));
            }
        }
    }
    assert(reason_of(l) == reason_of(t));
    lemma_lowercase_has_no_upper(t);
    reveal_strlit("eof");
    reveal_strlit("watched-next");
    reveal_strlit("stop");
    reveal_strlit("quit");
    reveal_strlit("error");
    reveal_strlit("redirect");
    reveal_strlit("shutdown");
    lemma_eq_ignore_case_lower(l, "eof"@);
    lemma_eq_ignore_case_lower(l, "watched-next"@);
    lemma_eq_ignore_case_lower(l, "stop"@);
    lemma_eq_ignore_case_lower(l, "quit"@);
    lemma_eq_ignore_case_lower(l, "error"@);
    lemma_eq_ignore_case_lower(l, "redirect"@);
    lemma_eq_ignore_case_lower(l, "shutdown"@);
    assert(reason_of(l) == named_reason(l));
}

/// The reason whose wire name is `t`, or `Unknown` when none is.
pub open spec fn named_reason(t: Seq<char>) -> StopReason {
    if t == "eof"@ {
        StopReason::Eof
    } else if t == "watched-next"@ {
        StopReason::WatchedNext
    } else if t == "stop"@ {
        StopReason::Stop
    } else if t == "quit"@ {
        StopReason::Quit
    } else if t == "error"@ {
        StopReason::Error
    } else if t == "redirect"@ {
        StopReason::Redirect
    } else if t == "shutdown"@ {
        StopReason::Shutdown
    } else {
        StopReason::Unknown
    }
}

/// The normalized wire name of an optional mpv `end-file` reason.
pub fn normalized_stop_reason(reason: Option<&str>) -> (r: Option<&'static str>)
    ensures
        match r {
            Some(name) => reason matches Some(s) && parse_reason(s@) matches Some(p) && name@
                == p.name(),
            None => reason is None || parse_reason(reason->0@) is None,
        },
{
    match reason {
        Some(s) => match StopReason::parse(s) {
            Some(p) => Some(p.as_str()),
            None => None,
        },
        None => None,
    }
}

/// Whether an optional `end-file` reason means the item was finished: `eof`
/// or `watched-next`, ASCII case ignored.
pub fn is_completion_reason(reason: Option<&str>) -> (r: bool)
    ensures
        r == (reason matches Some(s) && (eq_ignore_case(s@, "eof"@) || eq_ignore_case(
            s@,
            "watched-next"@,
        ))),
{
    match reason {
        Some(s) => str_eq_ignore_case(s, "eof") || str_eq_ignore_case(s, "watched-next"),
        None => false,
    }
}

/// The script message an mpv key binding sends to mark the item watched and
/// play the next one.
pub open spec fn mark_watched_next_name() -> Seq<char> {
    "mark-watched-next"@
}

/// Whether `a` and `b` hold the same text.
pub fn str_eq(a: &str, b: &str) -> (r: bool)
    ensures
        r == (a@ == b@),
{
    let x = chars_of(a);
    let y = chars_of(b);
    if x.len() != y.len() {
        return false;
    }
    let mut i: usize = 0;
    while i < x.len()
        invariant
            x@ == a@,
            y@ == b@,
            x.len() == y.len(),
            i <= x.len(),
            forall|j: int| 0 <= j < i ==> x@[j] == y@[j],
        decreases x.len() - i,
    {
        if x[i] != y[i] {
            return false;
        }
        i = i + 1;
    }
    assert(x@ =~= y@);
    true
}

/// Whether the arguments of an mpv `client-message` are MediaFlick's
/// mark-watched-next message: the bare command, or the command addressed to
/// `mediaflick-desktop`.
pub open spec fn mark_watched_message_spec(args: Seq<String>) -> bool {
    if args.len() == 1 {
        args[0]@ == mark_watched_next_name()
    } else if args.len() >= 2 {
        args[0]@ == "mediaflick-desktop"@ && args[1]@ == mark_watched_next_name()
    } else {
        false
    }
}

/// Whether an mpv `client-message` is MediaFlick's mark-watched-next message:
/// the bare command, or the command addressed to `mediaflick-desktop`.
pub fn is_mark_watched_next_message(args: &[String]) -> (r: bool)
    ensures
        r == mark_watched_message_spec(args@),
{
    if args.len() == 1 {
        str_eq(args[0].as_str(), "mark-watched-next")
    } else if args.len() >= 2 {
        str_eq(args[0].as_str(), "mediaflick-desktop") && str_eq(
            args[1].as_str(),
            "mark-watched-next",
        )
    } else {
        false
    }
}

} // verus!

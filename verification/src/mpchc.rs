//! MPC-HC slave mode: the media URL and track ordinals handed to MPC-HC, the
//! `WM_COPYDATA` payload layouts, and the coalescing of queued commands.
use vstd::prelude::*;

use crate::model::{header_views, opt_str, PlaybackRequest};
use crate::numbers::{bits32, decimal, digits, le16, le32, push_decimal, push_le16, push_le32, to_bits32};
use crate::text::{
    before, chars_eq_ignore_case, chars_of, eq_ignore_case, find, join, lacks, lemma_join_lacks,
    lemma_pos_of, lemma_pos_of_at, lemma_pos_of_concat, lemma_split_lacks, non_empty, non_empty_spec,
    opt_string_view, pos_of, push_str, split2, split_once, to_owned, trim, trim_str,
};
use crate::url::{
    key_listed, kept_pairs, pairs_have_key, query_has_key, query_has_key_spec, query_pairs,
    remove_query_keys, remove_query_keys_spec, url_has_token, url_has_token_spec,
};

verus! {

// ---------------------------------------------------------------------------
// Command ids
// ---------------------------------------------------------------------------

pub const CMD_OPENFILE: u32 = 0xA000_0000;
pub const CMD_STOP: u32 = 0xA000_0001;
pub const CMD_PLAY: u32 = 0xA000_0004;
pub const CMD_PAUSE: u32 = 0xA000_0005;
pub const CMD_SETPOSITION: u32 = 0xA000_2000;
pub const CMD_SETAUDIOTRACK: u32 = 0xA000_2004;
pub const CMD_SETSUBTITLETRACK: u32 = 0xA000_2005;
pub const CMD_GETNOWPLAYING: u32 = 0xA000_3002;
pub const CMD_GETCURRENTPOSITION: u32 = 0xA000_3004;
pub const CMD_TOGGLEFULLSCREEN: u32 = 0xA000_4000;
pub const CMD_INCREASEVOLUME: u32 = 0xA000_4003;
pub const CMD_DECREASEVOLUME: u32 = 0xA000_4004;
pub const CMD_CLOSEAPP: u32 = 0xA000_4006;
pub const CMD_SETSPEED: u32 = 0xA000_4008;
pub const CMD_OSDSHOWMESSAGE: u32 = 0xA000_5000;

pub const CMD_CONNECT: u32 = 0x5000_0000;
pub const CMD_STATE: u32 = 0x5000_0001;
pub const CMD_PLAYMODE: u32 = 0x5000_0002;
pub const CMD_NOWPLAYING: u32 = 0x5000_0003;
pub const CMD_CURRENTPOSITION: u32 = 0x5000_0007;
pub const CMD_NOTIFYSEEK: u32 = 0x5000_0008;
pub const CMD_NOTIFYENDOFSTREAM: u32 = 0x5000_0009;
pub const CMD_DISCONNECT: u32 = 0x5000_000B;

pub const MLS_LOADED: i64 = 2;
pub const MLS_FAILING: i64 = 4;
pub const PS_PLAY: i64 = 0;
pub const PS_PAUSE: i64 = 1;
pub const PS_STOP: i64 = 2;
pub const OSD_TOPLEFT: i32 = 1;

// ---------------------------------------------------------------------------
// Track ordinals
// ---------------------------------------------------------------------------

/// Zero-based MPC-HC track indices chosen for a launch.
#[derive(Debug, Clone, Copy, PartialEq, Eq, Structural)]
pub struct TrackSelection {
    pub audio_index: Option<i64>,
    pub subtitle_index: Option<i64>,
}

/// The zero-based audio track index for a one-based ordinal; none for an
/// ordinal that names no track.
pub fn audio_index(mpv_id: i64) -> (r: Option<i64>)
    ensures
        r == (if mpv_id > 0 {
            Some((mpv_id - 1) as i64)
        } else {
            None
        }),
{
    if mpv_id > 0 {
        Some(mpv_id - 1)
    } else {
        None
    }
}

/// The zero-based subtitle index for a one-based ordinal; -1 (subtitles
/// off) for a missing ordinal or one that names no track.
pub fn subtitle_index(mpv_id: Option<i64>) -> (r: i64)
    ensures
        r == (match mpv_id {
            Some(id) if id > 0 => id - 1,
            _ => -1,
        }),
{
    match mpv_id {
        Some(id) if id > 0 => id - 1,
        _ => -1,
    }
}

/// Whether the launch brings an external subtitle.
pub open spec fn has_external_subtitle(launch: PlaybackRequest) -> bool {
    non_empty_spec(opt_string_view(launch.subtitle_url)) is Some
}

/// The track indices MPC-HC is told to select for `launch`: an external
/// subtitle turns the embedded ones off.
pub fn track_selection(launch: &PlaybackRequest) -> (r: TrackSelection)
    ensures
        r.audio_index == (match launch.audio_mpv_id {
            Some(id) if id > 0 => Some((id - 1) as i64),
            _ => None,
        }),
        r.subtitle_index == (if has_external_subtitle(*launch) {
            Some(-1i64)
        } else {
            match launch.subtitle_mpv_id {
                Some(id) => Some(
                    if id > 0 {
                        (id - 1) as i64
                    } else {
                        -1i64
                    },
                ),
                None => None,
            }
        }),
{
    let audio = match launch.audio_mpv_id {
        Some(id) => audio_index(id),
        None => None,
    };
    let external = non_empty(opt_str(&launch.subtitle_url)).is_some();
    let subtitle = if external {
        Some(-1)
    } else {
        match launch.subtitle_mpv_id {
            Some(id) => Some(subtitle_index(Some(id))),
            None => None,
        }
    };
    TrackSelection { audio_index: audio, subtitle_index: subtitle }
}

// ---------------------------------------------------------------------------
// Media URL
// ---------------------------------------------------------------------------

/// `url` with `sep` and `tail` appended, where `sep` is `&` when `url`
/// already has a `?` and `?` otherwise.
pub open spec fn with_query_tail(url: Seq<char>, tail: Seq<char>) -> Seq<char> {
    url + seq![
        if pos_of(url, '?', '?') >= 0 {
            '&'
        } else {
            '?'
        },
    ] + tail
}

/// Appends `tail` to `url` as further query text.
pub fn append_query(url: &mut String, tail: &str)
    ensures
        final(url)@ == with_query_tail(old(url)@, tail@),
{
    let v = chars_of(url.as_str());
    let sep = if find(&v, '?').is_some() {
        '&'
    } else {
        '?'
    };
    crate::text::push_char(url, sep);
    push_str(url, tail);
}

/// The burn-in request for an external subtitle: MPC-HC cannot load
/// Jellyfin's external subtitles, so the server is asked to encode the
/// selected subtitle stream into the video instead.
pub open spec fn burn_in_spec(url: Seq<char>, launch: PlaybackRequest) -> Seq<char> {
    match launch.subtitle_stream_index {
        Some(index) if index >= 0 => if !has_external_subtitle(launch) || query_has_key_spec(
            url,
            "subtitlestreamindex"@,
        ) {
            url
        } else {
            with_query_tail(
                remove_query_keys_spec(url, seq!["static"@]),
                "SubtitleStreamIndex="@ + decimal(index as int) + "&SubtitleMethod=Encode"@,
            )
        },
        _ => url,
    }
}

/// Requests server-side subtitle encoding for an external subtitle: drops
/// `static` and adds `SubtitleStreamIndex=<n>&SubtitleMethod=Encode`, unless
/// the URL already asks for a subtitle stream.
pub fn apply_subtitle_burn_in(url: String, launch: &PlaybackRequest) -> (r: String)
    ensures
        r@ == burn_in_spec(url@, *launch),
{
    let index = match launch.subtitle_stream_index {
        Some(i) if i >= 0 => i,
        _ => return url,
    };
    let external = non_empty(opt_str(&launch.subtitle_url)).is_some();
    if !external || query_has_key(url.as_str(), "subtitlestreamindex") {
        return url;
    }
    let keys: Vec<&str> = vec!["static"];
    proof {
        assert(crate::url::str_views(keys@) =~= seq!["static"@]);
    }
    let mut out = remove_query_keys(url.as_str(), keys.as_slice());
    let mut tail = to_owned("SubtitleStreamIndex=");
    push_decimal(&mut tail, index);
    push_str(&mut tail, "&SubtitleMethod=Encode");
    append_query(&mut out, tail.as_str());
    out
}

/// The trimmed value of the first token header (`X-Emby-Token` or
/// `X-MediaBrowser-Token`, ASCII case ignored) that is not blank.
pub open spec fn token_from_headers_spec(headers: Seq<(Seq<char>, Seq<char>)>) -> Option<Seq<char>>
    decreases headers.len(),
{
    if headers.len() == 0 {
        None
    } else if (eq_ignore_case(headers[0].0, "X-Emby-Token"@) || eq_ignore_case(
        headers[0].0,
        "X-MediaBrowser-Token"@,
    )) && trim(headers[0].1).len() > 0 {
        Some(trim(headers[0].1))
    } else {
        token_from_headers_spec(headers.drop_first())
    }
}

/// The access token among the launch headers.
pub fn token_from_headers(launch: &PlaybackRequest) -> (r: Option<String>)
    ensures
        opt_string_view(r) == token_from_headers_spec(header_views(launch.headers@)),
{
    let emby = chars_of("X-Emby-Token");
    let browser = chars_of("X-MediaBrowser-Token");
    let mut i: usize = 0;
    proof {
        assert(header_views(launch.headers@).skip(0) == header_views(launch.headers@));
    }
    while i < launch.headers.len()
        invariant
            i <= launch.headers.len(),
            emby@ == "X-Emby-Token"@,
            browser@ == "X-MediaBrowser-Token"@,
            token_from_headers_spec(header_views(launch.headers@).skip(i as int))
                == token_from_headers_spec(header_views(launch.headers@)),
        decreases launch.headers.len() - i,
    {
        proof {
            let rest = header_views(launch.headers@).skip(i as int);
            assert(rest[0] == launch.headers@[i as int]@);
            assert(rest.drop_first() == header_views(launch.headers@).skip(i + 1));
        }
        let name = chars_of(launch.headers[i].name.as_str());
        if chars_eq_ignore_case(&name, &emby) || chars_eq_ignore_case(&name, &browser) {
            let value = trim_str(launch.headers[i].value.as_str());
            if value.unicode_len() > 0 {
                return Some(to_owned(value));
            }
        }
        i = i + 1;
    }
    None
}

/// A header that carries the access token: named `X-Emby-Token` or
/// `X-MediaBrowser-Token` (ASCII case ignored), with a value that is not
/// blank.
pub open spec fn is_token_header(h: (Seq<char>, Seq<char>)) -> bool {
    (eq_ignore_case(h.0, "X-Emby-Token"@) || eq_ignore_case(h.0, "X-MediaBrowser-Token"@)) && trim(h.1).len()
        > 0
}

/// The token is the trimmed value of the first token header, and there is
/// none exactly when no header carries one.
pub proof fn law_token_is_first_token_header(headers: Seq<(Seq<char>, Seq<char>)>)
    ensures
        token_from_headers_spec(headers) is None <==> forall|k: int| 0 <= k < headers.len() ==> !is_token_header(
            #[trigger] headers[k],
        ),
        forall|k: int|
            0 <= k < headers.len() && is_token_header(#[trigger] headers[k]) && (forall|j: int|
                0 <= j < k ==> !is_token_header(headers[j])) ==> token_from_headers_spec(headers) == Some(
                trim(headers[k].1),
            ),
    decreases headers.len(),
{
    if headers.len() > 0 {
        let rest = headers.drop_first();
        law_token_is_first_token_header(rest);
        assert forall|k: int| 0 < k < headers.len() implies headers[k] == rest[k - 1] by {}
        if !is_token_header(headers[0]) {
            assert forall|k: int|
                0 <= k < headers.len() && is_token_header(#[trigger] headers[k]) && (forall|j: int|
                    0 <= j < k ==> !is_token_header(headers[j])) implies token_from_headers_spec(headers) == Some(
                trim(headers[k].1),
            ) by {
                assert(k > 0);
                assert(rest[k - 1] == headers[k]);
                assert forall|j: int| 0 <= j < k - 1 implies !is_token_header(rest[j]) by {
                    assert(rest[j] == headers[j + 1]);
                }
            }
            if forall|k: int| 0 <= k < rest.len() ==> !is_token_header(#[trigger] rest[k]) {
                assert forall|k: int| 0 <= k < headers.len() implies !is_token_header(#[trigger] headers[k]) by {
                    if k > 0 {
                        assert(headers[k] == rest[k - 1]);
                    }
                }
            } else {
                let w = choose|k: int| 0 <= k < rest.len() && is_token_header(#[trigger] rest[k]);
                assert(headers[w + 1] == rest[w]);
            }
        }
    }
}

/// A URL without a token opens with the token of the first token header
/// added as its last query parameter `api_key`.
pub proof fn law_media_url_carries_the_header_token(launch: PlaybackRequest, k: int)
    requires
        !url_has_token_spec(burn_in_spec(launch.media_url@, launch)),
        0 <= k < launch.headers@.len(),
        is_token_header(header_views(launch.headers@)[k]),
        forall|j: int| 0 <= j < k ==> !is_token_header(#[trigger] header_views(launch.headers@)[j]),
    ensures
        ({
            let url = media_url_spec(launch);
            let tail = "api_key="@ + trim(launch.headers@[k].value@);
            &&& url.len() > tail.len()
            &&& url.subrange(url.len() - tail.len(), url.len() as int) == tail
            &&& (url[url.len() - tail.len() - 1] == '&' || url[url.len() - tail.len() - 1] == '?')
        }),
{
    let hs = header_views(launch.headers@);
    law_token_is_first_token_header(hs);
    assert(hs[k] == launch.headers@[k]@);
    let base = burn_in_spec(launch.media_url@, launch);
    let tail = "api_key="@ + trim(launch.headers@[k].value@);
    let url = media_url_spec(launch);
    assert(token_from_headers_spec(hs) == Some(trim(hs[k].1)));
    assert(url.subrange(url.len() - tail.len(), url.len() as int) =~= tail);
}

/// The URL MPC-HC opens: the burn-in request applied, then the access token
/// as `api_key` when the URL carries none.
pub open spec fn media_url_spec(launch: PlaybackRequest) -> Seq<char> {
    let url = burn_in_spec(launch.media_url@, launch);
    if url_has_token_spec(url) {
        url
    } else {
        match token_from_headers_spec(header_views(launch.headers@)) {
            None => url,
            Some(token) => with_query_tail(url, "api_key="@ + token),
        }
    }
}

/// The URL MPC-HC opens for `launch`.
pub fn media_url(launch: &PlaybackRequest) -> (r: String)
    ensures
        r@ == media_url_spec(*launch),
{
    let mut url = apply_subtitle_burn_in(launch.media_url.clone(), launch);
    if url_has_token(url.as_str()) {
        return url;
    }
    let token = match token_from_headers(launch) {
        Some(t) => t,
        None => return url,
    };
    let mut tail = to_owned("api_key=");
    push_str(&mut tail, token.as_str());
    append_query(&mut url, tail.as_str());
    url
}

// ---------------------------------------------------------------------------
// Payloads
// ---------------------------------------------------------------------------

/// `char::encode_utf16`: one unit below U+10000, a surrogate pair above.
pub open spec fn utf16_of(c: char) -> Seq<u16> {
    let v = c as u32;
    if v < 0x10000 {
        seq![v as u16]
    } else {
        seq![(0xD800 + (v - 0x10000) / 0x400) as u16, (0xDC00 + (v - 0x10000) % 0x400) as u16]
    }
}

/// `str::encode_utf16`.
pub open spec fn utf16(s: Seq<char>) -> Seq<u16>
    decreases s.len(),
{
    if s.len() == 0 {
        Seq::empty()
    } else {
        utf16(s.drop_last()) + utf16_of(s.last())
    }
}

/// The UTF-16 units of `text`.
pub fn encode_utf16(text: &str) -> (r: Vec<u16>)
    ensures
        r@ == utf16(text@),
{
    let v = chars_of(text);
    let mut out: Vec<u16> = Vec::new();
    let mut i: usize = 0;
    while i < v.len()
        invariant
            i <= v.len(),
            v@ == text@,
            out@ == utf16(v@.take(i as int)),
        decreases v.len() - i,
    {
        let c = v[i] as u32;
        proof {
            let t = v@.take(i + 1);
            assert(t.drop_last() == v@.take(i as int));
            assert(t.last() == v@[i as int]);
            vstd::utf8::char_is_scalar(v@[i as int]);
        }
        let ghost prev = out@;
        if c < 0x10000 {
            out.push(c as u16);
        } else {
            out.push((0xD800 + (c - 0x10000) / 0x400) as u16);
            out.push((0xDC00 + (c - 0x10000) % 0x400) as u16);
        }
        assert(out@ == prev + utf16_of(v@[i as int]));
        i = i + 1;
    }
    assert(v@.take(v.len() as int) == v@);
    out
}

/// UTF-16 buffer (NUL-terminated) for a string command payload.
pub fn wide_payload(text: &str) -> (r: Vec<u16>)
    ensures
        r@ == utf16(text@).push(0),
{
    let mut buffer = encode_utf16(text);
    buffer.push(0);
    buffer
}

/// The little-endian bytes of a sequence of UTF-16 units.
pub open spec fn le16_all(units: Seq<u16>) -> Seq<u8>
    decreases units.len(),
{
    if units.len() == 0 {
        Seq::empty()
    } else {
        le16_all(units.drop_last()) + le16(units.last())
    }
}

/// Appends the little-endian bytes of `units`.
pub fn push_units(out: &mut Vec<u8>, units: &Vec<u16>)
    ensures
        final(out)@ == old(out)@ + le16_all(units@),
{
    let mut i: usize = 0;
    while i < units.len()
        invariant
            i <= units.len(),
            out@ == old(out)@ + le16_all(units@.take(i as int)),
        decreases units.len() - i,
    {
        proof {
            let t = units@.take(i + 1);
            assert(t.drop_last() == units@.take(i as int));
            assert(t.last() == units@[i as int]);
        }
        push_le16(out, units[i]);
        i = i + 1;
    }
    assert(units@.take(units.len() as int) == units@);
}

/// The 128 message units of an OSD payload: at most 127 units of the message,
/// a NUL, and NUL padding.
pub open spec fn osd_message_units(message: Seq<char>) -> Seq<u16> {
    let kept = if utf16(message).len() > 127 {
        utf16(message).take(127)
    } else {
        utf16(message)
    };
    kept + Seq::new((128 - kept.len()) as nat, |i: int| 0u16)
}

/// Packed `MPC_OSDDATA` bytes: `int nMsgPos; int nDurationMS; WCHAR strMsg[128];`.
pub open spec fn osd_bytes_spec(position: i32, duration_ms: i32, message: Seq<char>) -> Seq<u8> {
    le32(bits32(position)) + le32(bits32(duration_ms)) + le16_all(osd_message_units(message))
}

/// The packed OSD message for MPC-HC.
pub fn osd_message_bytes(position: i32, duration_ms: i32, message: &str) -> (r: Vec<u8>)
    ensures
        r@ == osd_bytes_spec(position, duration_ms, message@),
        r@.len() == 264,
{
    let mut bytes: Vec<u8> = Vec::new();
    push_le32(&mut bytes, to_bits32(position));
    push_le32(&mut bytes, to_bits32(duration_ms));
    let all = encode_utf16(message);
    let mut units: Vec<u16> = Vec::new();
    let mut i: usize = 0;
    let keep = if all.len() > 127 {
        127
    } else {
        all.len()
    };
    while i < keep
        invariant
            keep <= all.len(),
            keep <= 127,
            i <= keep,
            units@ == all@.take(i as int),
        decreases keep - i,
    {
        units.push(all[i]);
        assert(all@.take(i + 1) == all@.take(i as int).push(all@[i as int]));
        i = i + 1;
    }
    let ghost kept = units@;
    while units.len() < 128
        invariant
            kept.len() == keep,
            kept.len() <= units@.len() <= 128,
            units@ == kept + Seq::new((units@.len() - kept.len()) as nat, |i: int| 0u16),
        decreases 128 - units.len(),
    {
        let ghost prev = units@;
        units.push(0);
        assert(units@ =~= kept + Seq::new((units@.len() - kept.len()) as nat, |i: int| 0u16));
    }
    proof {
        if all@.len() <= 127 {
            assert(all@.take(keep as int) == all@);
        }
        assert(units@ == osd_message_units(message@));
        lemma_le16_all_len(units@);
    }
    push_units(&mut bytes, &units);
    bytes
}

/// Two bytes per unit.
pub proof fn lemma_le16_all_len(units: Seq<u16>)
    ensures
        le16_all(units).len() == 2 * units.len(),
    decreases units.len(),
{
    if units.len() > 0 {
        lemma_le16_all_len(units.drop_last());
    }
}

/// The two bytes of unit `k` stand at `2k` and `2k + 1`.
pub proof fn lemma_le16_all_at(units: Seq<u16>, k: int)
    requires
        0 <= k < units.len(),
    ensures
        le16_all(units).len() == 2 * units.len(),
        le16_all(units)[2 * k] == le16(units[k])[0],
        le16_all(units)[2 * k + 1] == le16(units[k])[1],
    decreases units.len(),
{
    lemma_le16_all_len(units);
    let front = units.drop_last();
    lemma_le16_all_len(front);
    if k < units.len() - 1 {
        lemma_le16_all_at(front, k);
        assert(front[k] == units[k]);
    }
}

/// The message units an OSD payload keeps: the first 127 UTF-16 units of
/// the message at most.
pub open spec fn osd_kept_units(message: Seq<char>) -> Seq<u16> {
    if utf16(message).len() > 127 {
        utf16(message).take(127)
    } else {
        utf16(message)
    }
}

/// The OSD payload is 264 bytes: the position and the duration as
/// little-endian 32-bit words, then each kept message unit as two
/// little-endian bytes, then zeros to the end, so the message is cut to
/// 127 units and always ends in a NUL.
pub proof fn law_osd_layout(position: i32, duration_ms: i32, message: Seq<char>)
    ensures
        ({
            let b = osd_bytes_spec(position, duration_ms, message);
            let u = osd_kept_units(message);
            &&& b.len() == 264
            &&& u.len() <= 127
            &&& b.subrange(0, 4) == le32(bits32(position))
            &&& b.subrange(4, 8) == le32(bits32(duration_ms))
            &&& forall|k: int| 0 <= k < u.len() ==> #[trigger] b.subrange(8 + 2 * k, 10 + 2 * k) == le16(u[k])
            &&& forall|i: int| 8 + 2 * u.len() <= i < 264 ==> #[trigger] b[i] == 0
        }),
{
    let b = osd_bytes_spec(position, duration_ms, message);
    let u = osd_kept_units(message);
    let units = osd_message_units(message);
    let head = le32(bits32(position)) + le32(bits32(duration_ms));
    lemma_le16_all_len(units);
    assert(units.len() == 128);
    assert(b.subrange(0, 4) =~= le32(bits32(position)));
    assert(b.subrange(4, 8) =~= le32(bits32(duration_ms)));
    assert forall|k: int| 0 <= k < u.len() implies #[trigger] b.subrange(8 + 2 * k, 10 + 2 * k) == le16(u[k]) by {
        lemma_le16_all_at(units, k);
        assert(units[k] == u[k]);
        assert(b[8 + 2 * k] == le16_all(units)[2 * k]);
        assert(b[8 + 2 * k + 1] == le16_all(units)[2 * k + 1]);
        assert(b.subrange(8 + 2 * k, 10 + 2 * k) =~= le16(u[k]));
    }
    assert forall|i: int| 8 + 2 * u.len() <= i < 264 implies #[trigger] b[i] == 0 by {
        let k = (i - 8) / 2;
        assert(u.len() <= k < 128);
        lemma_le16_all_at(units, k);
        assert(units[k] == 0u16);
        assert(b[i] == le16_all(units)[i - 8]);
        assert(i - 8 == 2 * k || i - 8 == 2 * k + 1);
    }
}

// ---------------------------------------------------------------------------
// Outbound queue
// ---------------------------------------------------------------------------

/// A command queued for MPC-HC with its payload bytes.
#[derive(Debug, Clone, PartialEq, Eq)]
pub struct Outbound {
    pub command: u32,
    pub bytes: Vec<u8>,
}

impl Outbound {
    /// A string command: the payload as NUL-terminated UTF-16, little endian.
    pub fn command(command: u32, payload: &str) -> (r: Self)
        ensures
            r.command == command,
            r.bytes@ == le16_all(utf16(payload@).push(0)),
    {
        let wide = wide_payload(payload);
        let mut bytes: Vec<u8> = Vec::new();
        push_units(&mut bytes, &wide);
        Outbound { command, bytes }
    }

    /// An on-screen message.
    pub fn osd(position: i32, duration_ms: i32, message: &str) -> (r: Self)
        ensures
            r.command == CMD_OSDSHOWMESSAGE,
            r.bytes@ == osd_bytes_spec(position, duration_ms, message@),
    {
        Outbound { command: CMD_OSDSHOWMESSAGE, bytes: osd_message_bytes(position, duration_ms, message) }
    }
}

impl View for Outbound {
    type V = (u32, Seq<u8>);

    open spec fn view(&self) -> (u32, Seq<u8>) {
        (self.command, self.bytes@)
    }
}

/// The command ids and payloads of a batch.
pub open spec fn outbound_views(batch: Seq<Outbound>) -> Seq<(u32, Seq<u8>)> {
    batch.map_values(|o: Outbound| o@)
}

/// Commands only the latest of which matters: seeks and position polls.
pub open spec fn coalescable(command: u32) -> bool {
    command == CMD_SETPOSITION || command == CMD_GETCURRENTPOSITION
}

/// Whether only the latest of several queued `command`s needs sending.
pub fn is_coalescable(command: u32) -> (r: bool)
    ensures
        r == coalescable(command),
{
    command == CMD_SETPOSITION || command == CMD_GETCURRENTPOSITION
}

/// Entry `i` of a batch is superseded by a later one with the same
/// coalescable command.
pub open spec fn superseded(batch: Seq<(u32, Seq<u8>)>, i: int) -> bool {
    coalescable(batch[i].0) && exists|j: int| i < j < batch.len() && (#[trigger] batch[j]).0 == batch[i].0
}

/// The batch with every superseded entry dropped, order kept.
pub open spec fn coalesced(batch: Seq<(u32, Seq<u8>)>) -> Seq<(u32, Seq<u8>)>
    decreases batch.len(),
{
    if batch.len() == 0 {
        Seq::empty()
    } else {
        (if superseded(batch, 0) {
            Seq::empty()
        } else {
            seq![batch[0]]
        }) + coalesced(batch.drop_first())
    }
}

/// The entries of `batch` from index `i` on that no later entry of the
/// whole batch supersedes, in their order.
pub open spec fn unsuperseded_from(batch: Seq<(u32, Seq<u8>)>, i: int) -> Seq<(u32, Seq<u8>)>
    decreases batch.len() - i,
{
    if i < 0 || i >= batch.len() {
        Seq::empty()
    } else {
        (if superseded(batch, i) {
            Seq::empty()
        } else {
            seq![batch[i]]
        }) + unsuperseded_from(batch, i + 1)
    }
}

/// Coalescing the tail from `i` keeps what the whole batch does not supersede.
proof fn lemma_coalesced_tail(batch: Seq<(u32, Seq<u8>)>, i: int)
    requires
        0 <= i <= batch.len(),
    ensures
        coalesced(batch.skip(i)) == unsuperseded_from(batch, i),
    decreases batch.len() - i,
{
    let tail = batch.skip(i);
    if i < batch.len() {
        lemma_coalesced_tail(batch, i + 1);
        assert(tail.drop_first() =~= batch.skip(i + 1));
        assert(tail[0] == batch[i]);
        if superseded(batch, i) {
            let j = choose|j: int| i < j < batch.len() && (#[trigger] batch[j]).0 == batch[i].0;
            assert(tail[j - i] == batch[j]);
        }
        if superseded(tail, 0) {
            let j = choose|j: int| 0 < j < tail.len() && (#[trigger] tail[j]).0 == tail[0].0;
            assert(tail[j] == batch[i + j]);
        }
        assert(superseded(tail, 0) == superseded(batch, i));
    } else {
        assert(tail.len() == 0);
    }
}

/// With nothing superseded from `i` on, the tail is kept whole.
proof fn lemma_unsuperseded_keeps_all(batch: Seq<(u32, Seq<u8>)>, i: int)
    requires
        0 <= i <= batch.len(),
        forall|k: int| 0 <= k < batch.len() ==> !#[trigger] superseded(batch, k),
    ensures
        unsuperseded_from(batch, i) == batch.skip(i),
    decreases batch.len() - i,
{
    if i < batch.len() {
        lemma_unsuperseded_keeps_all(batch, i + 1);
        assert(!superseded(batch, i));
        assert(seq![batch[i]] + batch.skip(i + 1) =~= batch.skip(i));
    } else {
        assert(batch.skip(i) =~= Seq::<(u32, Seq<u8>)>::empty());
    }
}

/// Coalescing keeps, in order, exactly the entries whose command is not a
/// seek or position poll, or that no later entry with the same command
/// follows; a batch without such a repeat is left as it is.
pub proof fn law_coalesce_keeps_unsuperseded(batch: Seq<(u32, Seq<u8>)>)
    ensures
        coalesced(batch) == unsuperseded_from(batch, 0),
        (forall|k: int| 0 <= k < batch.len() ==> !#[trigger] superseded(batch, k)) ==> coalesced(batch) == batch,
{
    lemma_coalesced_tail(batch, 0);
    assert(batch.skip(0) =~= batch);
    if forall|k: int| 0 <= k < batch.len() ==> !#[trigger] superseded(batch, k) {
        lemma_unsuperseded_keeps_all(batch, 0);
    }
}

/// Whether an entry after `i` has the command of entry `i`.
fn has_later_command(batch: &Vec<Outbound>, i: usize) -> (r: bool)
    requires
        i < batch.len(),
    ensures
        r == exists|j: int| i < j < batch.len() && (#[trigger] batch@[j]).command == batch@[i as int].command,
{
    let command = batch[i].command;
    let mut j = i + 1;
    while j < batch.len()
        invariant
            i < j <= batch.len(),
            command == batch@[i as int].command,
            forall|k: int| i < k < j ==> (#[trigger] batch@[k]).command != command,
        decreases batch.len() - j,
    {
        if batch[j].command == command {
            return true;
        }
        j = j + 1;
    }
    false
}

/// Drops every seek or position poll that a later one of the same kind
/// supersedes, keeping all other commands and their order.
pub fn coalesce(batch: &mut Vec<Outbound>)
    ensures
        outbound_views(final(batch)@) == coalesced(outbound_views(old(batch)@)),
{
    let n = batch.len();
    let mut kept: Vec<Outbound> = Vec::new();
    let ghost orig = outbound_views(batch@);
    let mut i: usize = 0;
    proof {
        assert(orig.skip(0) == orig);
    }
    while i < n
        invariant
            n == batch.len(),
            outbound_views(batch@) == orig,
            i <= n,
            outbound_views(kept@) + coalesced(orig.skip(i as int)) == coalesced(orig),
        decreases n - i,
    {
        let ghost rest = orig.skip(i as int);
        let command = batch[i].command;
        let mut later = false;
        proof {
            assert(orig[i as int] == batch@[i as int]@);
        }
        if is_coalescable(command) {
            later = has_later_command(batch, i);
            proof {
                if later {
                    let j = choose|j: int| i < j < n && (#[trigger] batch@[j]).command == command;
                    assert(rest[j - i] == orig[j]);
                    assert(superseded(rest, 0));
                } else {
                    assert forall|k: int| 0 < k < rest.len() implies (#[trigger] rest[k]).0
                        != rest[0].0 by {
                        assert(rest[k] == orig[i + k]);
                        assert(orig[i + k] == batch@[i + k]@);
                    }
                }
            }
        }
        proof {
            assert(rest[0] == orig[i as int]);
            assert(rest.drop_first() == orig.skip(i + 1));
            assert(later == superseded(rest, 0));
        }
        if !later {
            let ghost prev = kept@;
            let copy = Outbound { command: batch[i].command, bytes: batch[i].bytes.clone() };
            kept.push(copy);
            proof {
                assert(copy.bytes@ =~= batch@[i as int].bytes@);
                assert(outbound_views(kept@) == outbound_views(prev).push(orig[i as int]));
            }
        }
        i = i + 1;
    }
    proof {
        assert(orig.skip(n as int) == Seq::<(u32, Seq<u8>)>::empty());
        assert(outbound_views(kept@) + Seq::<(u32, Seq<u8>)>::empty() == outbound_views(kept@));
    }
    *batch = kept;
}

// ---------------------------------------------------------------------------
// Inbound payload fields
// ---------------------------------------------------------------------------

/// The value of a run of decimal digits.
pub open spec fn digits_value(s: Seq<char>) -> int
    decreases s.len(),
{
    if s.len() == 0 {
        0
    } else {
        digits_value(s.drop_last()) * 10 + (s.last() as int - '0' as int)
    }
}

/// Whether `s` is a non-empty run of ASCII digits.
pub open spec fn all_digits(s: Seq<char>) -> bool {
    s.len() > 0 && forall|i: int| 0 <= i < s.len() ==> '0' <= #[trigger] s[i] <= '9'
}

/// `str::parse::<i64>`: an optional `+` or `-` and at least one ASCII digit,
/// within the range of `i64`; none otherwise.
pub open spec fn parse_i64_spec(s: Seq<char>) -> Option<i64> {
    let neg = s.len() > 0 && s[0] == '-';
    let body = if s.len() > 0 && (s[0] == '-' || s[0] == '+') { s.drop_first() } else { s };
    if !all_digits(body) {
        None
    } else {
        let v = if neg { -digits_value(body) } else { digits_value(body) };
        if i64::MIN <= v <= i64::MAX {
            Some(v as i64)
        } else {
            None
        }
    }
}

/// A longer run of digits is worth at least as much as its prefix.
proof fn lemma_digits_value_grows(s: Seq<char>, k: int)
    requires
        0 <= k <= s.len(),
        forall|i: int| 0 <= i < s.len() ==> '0' <= #[trigger] s[i] <= '9',
    ensures
        0 <= digits_value(s.take(k)) <= digits_value(s),
    decreases s.len() - k,
{
    if k < s.len() {
        lemma_digits_value_grows(s, k + 1);
        let t = s.take(k + 1);
        assert(t.drop_last() =~= s.take(k));
        assert(t.last() == s[k]);
    } else {
        assert(s.take(k) =~= s);
        lemma_digits_nonnegative(s);
    }
}

/// A run of digits is worth at least zero.
proof fn lemma_digits_nonnegative(s: Seq<char>)
    requires
        forall|i: int| 0 <= i < s.len() ==> '0' <= #[trigger] s[i] <= '9',
    ensures
        digits_value(s) >= 0,
    decreases s.len(),
{
    if s.len() > 0 {
        assert forall|i: int| 0 <= i < s.drop_last().len() implies '0' <= #[trigger] s.drop_last()[i] <= '9' by {
            assert(s.drop_last()[i] == s[i]);
        }
        lemma_digits_nonnegative(s.drop_last());
        assert(s.last() == s[s.len() - 1]);
    }
}

/// The value of the digits of `v[start..]`, when they are all digits and
/// the value is at most `limit`.
fn digits_at_most(v: &Vec<char>, start: usize, limit: i128) -> (r: Option<i128>)
    requires
        start <= v.len(),
        0 <= limit <= 0x8000_0000_0000_0000,
    ensures
        match r {
            Some(n) => all_digits(v@.skip(start as int)) && n == digits_value(v@.skip(start as int)) && 0 <= n <= limit,
            None => !all_digits(v@.skip(start as int)) || digits_value(v@.skip(start as int)) > limit,
        },
{
    let ghost body = v@.skip(start as int);
    if start == v.len() {
        return None;
    }
    let mut acc: i128 = 0;
    let mut i: usize = start;
    proof {
        assert(body.take(0) =~= Seq::<char>::empty());
    }
    while i < v.len()
        invariant
            start <= i <= v.len(),
            body == v@.skip(start as int),
            0 <= limit <= 0x8000_0000_0000_0000,
            forall|j: int| 0 <= j < i - start ==> '0' <= #[trigger] body[j] <= '9',
            acc == digits_value(body.take(i - start)),
            0 <= acc <= limit,
        decreases v.len() - i,
    {
        let c = v[i];
        if !('0' <= c && c <= '9') {
            proof {
                assert(body[i - start] == c);
            }
            return None;
        }
        let d = (c as u32 - '0' as u32) as i128;
        let next = acc * 10 + d;
        proof {
            let t = body.take(i - start + 1);
            assert(t.drop_last() =~= body.take(i - start));
            assert(t.last() == c);
            assert(body[i - start] == c);
        }
        if next > limit {
            proof {
                assert forall|j: int| 0 <= j < body.len() && j <= i - start implies '0' <= #[trigger] body[j] <= '9' by {
                    if j == i - start {
                        assert(body[j] == c);
                    }
                }
                if all_digits(body) {
                    lemma_digits_value_grows(body, i - start + 1);
                }
            }
            return None;
        }
        acc = next;
        i = i + 1;
    }
    proof {
        assert(body.take(i - start) =~= body);
    }
    Some(acc)
}

/// `str::parse::<i64>` on the characters of `v`.
pub fn parse_i64_chars(v: &Vec<char>) -> (r: Option<i64>)
    ensures
        r == parse_i64_spec(v@),
{
    let neg = v.len() > 0 && v[0] == '-';
    let signed = v.len() > 0 && (v[0] == '-' || v[0] == '+');
    let start: usize = if signed {
        1
    } else {
        0
    };
    proof {
        if signed {
            assert(v@.skip(1) =~= v@.drop_first());
        } else {
            assert(v@.skip(0) =~= v@);
        }
    }
    let limit: i128 = if neg {
        0x8000_0000_0000_0000
    } else {
        0x7FFF_FFFF_FFFF_FFFF
    };
    match digits_at_most(v, start, limit) {
        Some(n) => {
            if neg {
                Some((-n) as i64)
            } else {
                Some(n as i64)
            }
        },
        None => None,
    }
}

/// A whole payload read as a number: the trimmed text parsed as an `i64`,
/// zero when it is not one.
pub fn parse_i64(payload: &str) -> (r: i64)
    ensures
        r == (match parse_i64_spec(trim(payload@)) {
            Some(n) => n,
            None => 0,
        }),
{
    let v = chars_of(trim_str(payload));
    match parse_i64_chars(&v) {
        Some(n) => n,
        None => 0,
    }
}

/// The characters after the last `|` of `s` (all of `s` without one).
pub open spec fn after_last_pipe(s: Seq<char>) -> Seq<char>
    decreases s.len(),
{
    if s.len() == 0 {
        s
    } else if s.last() == '|' {
        Seq::empty()
    } else {
        after_last_pipe(s.drop_last()).push(s.last())
    }
}

/// The last pipe-delimited field of a payload, trimmed. Numeric trailing
/// fields never contain a pipe, so this is robust however earlier text
/// fields are escaped.
pub fn last_field(payload: &str) -> (r: Option<String>)
    ensures
        r matches Some(f) && f@ == trim(after_last_pipe(payload@)),
{
    let v = chars_of(payload);
    let mut start = v.len();
    proof {
        assert(v@.skip(start as int) =~= Seq::<char>::empty());
        assert(v@.take(start as int) =~= v@);
    }
    while start > 0 && v[start - 1] != '|'
        invariant
            start <= v.len(),
            after_last_pipe(v@) == after_last_pipe(v@.take(start as int)) + v@.skip(start as int),
        decreases start,
    {
        proof {
            let t = v@.take(start as int);
            assert(t.drop_last() =~= v@.take(start - 1));
            assert(t.last() == v@[start - 1]);
            assert(v@.skip(start - 1) =~= seq![v@[start - 1]] + v@.skip(start as int));
            assert(after_last_pipe(v@.take(start - 1)).push(v@[start - 1]) + v@.skip(start as int)
                =~= after_last_pipe(v@.take(start - 1)) + v@.skip(start - 1));
        }
        start = start - 1;
    }
    proof {
        if start > 0 {
            let t = v@.take(start as int);
            assert(t.last() == v@[start - 1]);
        } else {
            assert(v@.take(0) =~= Seq::<char>::empty());
        }
        assert(after_last_pipe(v@.take(start as int)) =~= Seq::<char>::empty());
        assert(after_last_pipe(v@) =~= v@.skip(start as int));
    }
    let tail = crate::text::slice_chars(&v, start, v.len());
    assert(tail@ =~= v@.skip(start as int));
    let trimmed = crate::text::trim_chars(&tail);
    Some(crate::text::string_from_chars(&trimmed))
}

/// A message from MPC-HC as read from its copy-data payload. Decimal
/// numbers (positions and the duration, in seconds) stay text, trimmed, for
/// the caller to read as numbers.
#[derive(Debug, Clone, PartialEq, Eq)]
pub enum InboundMessage {
    Connect { hwnd: i64 },
    State(i64),
    PlayMode(i64),
    NowPlaying { duration_text: Option<String> },
    CurrentPosition(String),
    NotifySeek(String),
    EndOfStream,
    Disconnect,
    Ignored(u32),
}

/// The integer a payload holds, zero when it holds none.
pub open spec fn payload_i64(payload: Seq<char>) -> i64 {
    match parse_i64_spec(trim(payload)) {
        Some(n) => n,
        None => 0,
    }
}

/// Reads a message from MPC-HC: command `command` with text `payload`.
pub fn parse_inbound(command: u32, payload: &str) -> (r: InboundMessage)
    ensures
        command == CMD_CONNECT ==> r == (InboundMessage::Connect { hwnd: payload_i64(payload@) }),
        command == CMD_STATE ==> r == InboundMessage::State(payload_i64(payload@)),
        command == CMD_PLAYMODE ==> r == InboundMessage::PlayMode(payload_i64(payload@)),
        command == CMD_NOWPLAYING ==> (r matches InboundMessage::NowPlaying { duration_text: Some(t) } && t@
            == trim(after_last_pipe(payload@))),
        command == CMD_CURRENTPOSITION ==> (r matches InboundMessage::CurrentPosition(t) && t@ == trim(payload@)),
        command == CMD_NOTIFYSEEK ==> (r matches InboundMessage::NotifySeek(t) && t@ == trim(payload@)),
        command == CMD_NOTIFYENDOFSTREAM ==> r == InboundMessage::EndOfStream,
        command == CMD_DISCONNECT ==> r == InboundMessage::Disconnect,
        command != CMD_CONNECT && command != CMD_STATE && command != CMD_PLAYMODE && command != CMD_NOWPLAYING
            && command != CMD_CURRENTPOSITION && command != CMD_NOTIFYSEEK && command != CMD_NOTIFYENDOFSTREAM
            && command != CMD_DISCONNECT ==> r == InboundMessage::Ignored(command),
{
    if command == CMD_CONNECT {
        InboundMessage::Connect { hwnd: parse_i64(payload) }
    } else if command == CMD_STATE {
        InboundMessage::State(parse_i64(payload))
    } else if command == CMD_PLAYMODE {
        InboundMessage::PlayMode(parse_i64(payload))
    } else if command == CMD_NOWPLAYING {
        InboundMessage::NowPlaying { duration_text: last_field(payload) }
    } else if command == CMD_CURRENTPOSITION {
        InboundMessage::CurrentPosition(crate::text::to_owned(crate::text::trim_str(payload)))
    } else if command == CMD_NOTIFYSEEK {
        InboundMessage::NotifySeek(crate::text::to_owned(crate::text::trim_str(payload)))
    } else if command == CMD_NOTIFYENDOFSTREAM {
        InboundMessage::EndOfStream
    } else if command == CMD_DISCONNECT {
        InboundMessage::Disconnect
    } else {
        InboundMessage::Ignored(command)
    }
}

/// The window class MediaFlick registers for MPC-HC replies, as a
/// NUL-terminated UTF-16 string.
pub fn class_name() -> (r: Vec<u16>)
    ensures
        r@ == utf16("MediaFlickDesktopMpcHcSlave\0"@),
{
    encode_utf16("MediaFlickDesktopMpcHcSlave\0")
}

// ---------------------------------------------------------------------------
// Idempotence of the burn-in request
// ---------------------------------------------------------------------------

/// A URL without a fragment keeps none when query keys are removed.
proof fn lemma_remove_keys_lacks_hash(url: Seq<char>, keys: Seq<Seq<char>>)
    requires
        lacks(url, '#'),
    ensures
        lacks(remove_query_keys_spec(url, keys), '#'),
{
    match split_once(url, '?') {
        None => {},
        Some((head, rest)) => {
            let p = pos_of(url, '?', '?');
            lemma_pos_of(url, '?', '?');
            assert(lacks(rest, '#')) by {
                assert forall|i: int| 0 <= i < rest.len() implies #[trigger] rest[i] != '#' by {
                    assert(rest[i] == url[p + 1 + i]);
                }
            }
            lemma_pos_of(rest, '#', '#');
            assert(pos_of(rest, '#', '#') == -1);
            let query = before(rest, '#');
            let keep = |pair: Seq<char>| !key_listed(before(pair, '='), keys);
            let pairs = query_pairs(query);
            lemma_split_lacks(query, '&', '#');
            let kept = kept_pairs(pairs, keys);
            assert forall|k: int| 0 <= k < kept.len() implies lacks(#[trigger] kept[k], '#') by {
                assert(kept.contains(kept[k]));
                pairs.lemma_filter_contains_rev(keep, kept[k]);
                assert(pairs.contains(kept[k]));
                let w = choose|w: int| 0 <= w < pairs.len() && pairs[w] == kept[k];
                assert(lacks(pairs[w], '#'));
            }
            lemma_join_lacks(kept, seq!['&'], '#');
            assert(lacks(head, '#')) by {
                assert forall|i: int| 0 <= i < head.len() implies #[trigger] head[i] != '#' by {
                    assert(head[i] == url[i]);
                }
            }
            let with_query = if kept.len() == 0 {
                head
            } else {
                head + seq!['?'] + join(kept, seq!['&'])
            };
            assert(lacks(with_query, '#')) by {
                if kept.len() > 0 {
                    let j = join(kept, seq!['&']);
                    assert forall|i: int| 0 <= i < with_query.len() implies #[trigger] with_query[i] != '#' by {
                        if i < head.len() {
                            assert(with_query[i] == head[i]);
                        } else if i == head.len() {
                            assert(with_query[i] == '?');
                        } else {
                            assert(with_query[i] == j[i - head.len() - 1]);
                        }
                    }
                }
            }
        },
    }
}

/// A first separator inside a prefix stays the first after appending.
proof fn lemma_pos_of_prefix(x: Seq<char>, y: Seq<char>, a: char, b: char)
    requires
        pos_of(x, a, b) >= 0,
    ensures
        pos_of(x + y, a, b) == pos_of(x, a, b),
{
    lemma_pos_of(x, a, b);
    let p = pos_of(x, a, b);
    assert forall|j: int| 0 <= j < (x + y).len() && (j < p || p < 0) implies #[trigger] (x + y)[j] != a && (x
        + y)[j] != b by {
        assert((x + y)[j] == x[j]);
    }
    assert((x + y)[p] == x[p]);
    lemma_pos_of_at(x + y, a, b, p);
}

/// Splitting around one separator splits each side.
proof fn lemma_split_around(x: Seq<char>, y: Seq<char>, c: char)
    ensures
        split2(x + seq![c] + y, c, c) == split2(x, c, c) + split2(y, c, c),
    decreases x.len(),
{
    let s = x + seq![c] + y;
    let p = pos_of(x, c, c);
    lemma_pos_of(x, c, c);
    if p < 0 {
        assert(s == x + (seq![c] + y));
        lemma_pos_of_concat(x, seq![c] + y, c, c);
        lemma_pos_of_at(seq![c] + y, c, c, 0);
        assert(s.take(x.len() as int) =~= x);
        assert(s.skip(x.len() as int + 1) =~= y);
    } else {
        lemma_pos_of_prefix(x, seq![c] + y, c, c);
        assert(s == x + (seq![c] + y));
        assert(s.take(p) =~= x.take(p));
        assert(s.skip(p + 1) =~= x.skip(p + 1) + seq![c] + y);
        lemma_split_around(x.skip(p + 1), y, c);
    }
}

/// The digits of a number hold only digit characters.
proof fn lemma_digits_are_digits(n: nat)
    ensures
        forall|i: int| 0 <= i < digits(n).len() ==> '0' <= #[trigger] digits(n)[i] <= '9',
    decreases n,
{
    if n >= 10 {
        lemma_digits_are_digits(n / 10);
        assert forall|i: int| 0 <= i < digits(n).len() implies '0' <= #[trigger] digits(n)[i] <= '9' by {
            if i < digits(n / 10).len() {
                assert(digits(n)[i] == digits(n / 10)[i]);
            }
        }
    }
}

/// The burn-in tail starts with a pair whose key is `SubtitleStreamIndex`.
proof fn lemma_tail_first_pair(index: nat, x: Seq<char>)
    requires
        lacks(x, '#'),
    ensures
        ({
            let tail = "SubtitleStreamIndex="@ + digits(index) + "&SubtitleMethod=Encode"@;
            let q = x + tail;
            &&& lacks(tail, '#')
            &&& pos_of(q, '#', '#') == -1
            &&& split2(tail, '&', '&').len() > 0
            &&& eq_ignore_case(before(split2(tail, '&', '&')[0], '='), "subtitlestreamindex"@)
        }),
{
    reveal_strlit("SubtitleStreamIndex=");
    reveal_strlit("&SubtitleMethod=Encode");
    reveal_strlit("subtitlestreamindex");
    reveal_strlit("SubtitleStreamIndex");
    let key = "SubtitleStreamIndex"@;
    let d = digits(index);
    lemma_digits_are_digits(index);
    let head = "SubtitleStreamIndex="@ + d;
    let rest = "SubtitleMethod=Encode"@;
    reveal_strlit("SubtitleMethod=Encode");
    let tail = "SubtitleStreamIndex="@ + d + "&SubtitleMethod=Encode"@;
    assert(tail =~= head + seq!['&'] + rest);
    assert(lacks(tail, '#')) by {
        assert forall|i: int| 0 <= i < tail.len() implies #[trigger] tail[i] != '#' by {
            if i >= 20 && i < 20 + d.len() {
                assert(tail[i] == d[i - 20]);
            }
        }
    }
    let q = x + tail;
    assert(lacks(q, '#')) by {
        assert forall|i: int| 0 <= i < q.len() implies #[trigger] q[i] != '#' by {
            if i < x.len() {
                assert(q[i] == x[i]);
            } else {
                assert(q[i] == tail[i - x.len()]);
            }
        }
    }
    lemma_pos_of(q, '#', '#');
    assert(lacks(head, '&')) by {
        assert forall|i: int| 0 <= i < head.len() implies #[trigger] head[i] != '&' by {
            if i >= 20 {
                assert(head[i] == d[i - 20]);
            }
        }
    }
    lemma_pos_of_concat(head, seq!['&'] + rest, '&', '&');
    lemma_pos_of_at(seq!['&'] + rest, '&', '&', 0);
    assert(tail =~= head + (seq!['&'] + rest));
    assert(tail.take(head.len() as int) =~= head);
    assert(split2(tail, '&', '&')[0] == head);
    assert(head =~= key + (seq!['='] + d));
    lemma_pos_of_concat(key, seq!['='] + d, '=', '=');
    lemma_pos_of_at(seq!['='] + d, '=', '=', 0);
    assert(head.take(key.len() as int) =~= key);
    assert(before(head, '=') == key);
    assert(eq_ignore_case(key, "subtitlestreamindex"@));
}

/// Asking for burn-in twice asks once, for a media URL without a fragment:
/// the second request sees the subtitle stream the first one added.
pub proof fn law_burn_in_idempotent(url: Seq<char>, launch: PlaybackRequest)
    requires
        lacks(url, '#'),
    ensures
        burn_in_spec(burn_in_spec(url, launch), launch) == burn_in_spec(url, launch),
{
    match launch.subtitle_stream_index {
        Some(index) if index >= 0 => {
            if has_external_subtitle(launch) && !query_has_key_spec(url, "subtitlestreamindex"@) {
                let removed = remove_query_keys_spec(url, seq!["static"@]);
                lemma_remove_keys_lacks_hash(url, seq!["static"@]);
                let tail = "SubtitleStreamIndex="@ + decimal(index as int) + "&SubtitleMethod=Encode"@;
                let r = with_query_tail(removed, tail);
                assert(decimal(index as int) == digits(index as nat));
                lemma_pos_of(removed, '?', '?');
                let pairs_tail = split2(tail, '&', '&');
                if pos_of(removed, '?', '?') >= 0 {
                    let p = pos_of(removed, '?', '?');
                    assert(r =~= removed + (seq!['&'] + tail));
                    lemma_pos_of_prefix(removed, seq!['&'] + tail, '?', '?');
                    let rest = r.skip(p + 1);
                    let x = removed.skip(p + 1);
                    assert(rest =~= x + seq!['&'] + tail);
                    assert(lacks(x + seq!['&'], '#')) by {
                        assert forall|i: int| 0 <= i < (x + seq!['&']).len() implies (x + seq!['&'])[i] != '#' by {
                            if i < x.len() {
                                assert((x + seq!['&'])[i] == removed[p + 1 + i]);
                            }
                        }
                    }
                    lemma_tail_first_pair(index as nat, x + seq!['&']);
                    assert(rest =~= (x + seq!['&']) + tail);
                    assert(before(rest, '#') == rest);
                    lemma_split_around(x, tail, '&');
                    let pairs = split2(rest, '&', '&');
                    assert(pairs == split2(x, '&', '&') + pairs_tail);
                    let k = split2(x, '&', '&').len() as int;
                    assert(pairs[k] == pairs_tail[0]);
                    assert(pairs_have_key(query_pairs(before(rest, '#')), "subtitlestreamindex"@));
                } else {
                    assert(r =~= removed + (seq!['?'] + tail));
                    lemma_pos_of_concat(removed, seq!['?'] + tail, '?', '?');
                    lemma_pos_of_at(seq!['?'] + tail, '?', '?', 0);
                    let rest = r.skip(removed.len() as int + 1);
                    assert(rest =~= tail);
                    lemma_tail_first_pair(index as nat, Seq::<char>::empty());
                    assert(Seq::<char>::empty() + tail =~= tail);
                    assert(before(rest, '#') == rest);
                    assert(pairs_have_key(query_pairs(before(rest, '#')), "subtitlestreamindex"@));
                }
                assert(query_has_key_spec(r, "subtitlestreamindex"@));
            }
        },
        _ => {},
    }
}

// ---------------------------------------------------------------------------
// What coalescing keeps
// ---------------------------------------------------------------------------

/// Every entry coalescing keeps is an entry of the batch.
proof fn lemma_coalesced_from(batch: Seq<(u32, Seq<u8>)>)
    ensures
        forall|i: int| 0 <= i < coalesced(batch).len() ==> exists|j: int| 0 <= j < batch.len() && #[trigger] coalesced(batch)[i]
            == batch[j],
    decreases batch.len(),
{
    if batch.len() > 0 {
        let rest = batch.drop_first();
        lemma_coalesced_from(rest);
        let head = if superseded(batch, 0) { Seq::<(u32, Seq<u8>)>::empty() } else { seq![batch[0]] };
        assert forall|i: int| 0 <= i < coalesced(batch).len() implies exists|j: int| 0 <= j < batch.len() && #[trigger] coalesced(batch)[i]
            == batch[j] by {
            if i < head.len() {
                assert(coalesced(batch)[i] == batch[0]);
            } else {
                let k = i - head.len();
                assert(coalesced(batch)[i] == coalesced(rest)[k]);
                let j = choose|j: int| 0 <= j < rest.len() && coalesced(rest)[k] == rest[j];
                assert(rest[j] == batch[j + 1]);
            }
        }
    }
}

/// Whether no kept seek or position poll has a later one of its kind.
pub open spec fn latest_only(batch: Seq<(u32, Seq<u8>)>) -> bool {
    forall|i: int, j: int| 0 <= i < j < batch.len() && coalescable(#[trigger] batch[i].0) ==> batch[i].0 != #[trigger] batch[j].0
}

/// After coalescing, each kind of seek or position poll appears at most once.
pub proof fn law_coalesce_keeps_one_of_each(batch: Seq<(u32, Seq<u8>)>)
    ensures
        latest_only(coalesced(batch)),
    decreases batch.len(),
{
    if batch.len() > 0 {
        let rest = batch.drop_first();
        law_coalesce_keeps_one_of_each(rest);
        lemma_coalesced_from(rest);
        let r = coalesced(batch);
        let c = coalesced(rest);
        if !superseded(batch, 0) {
            assert(r == seq![batch[0]] + c);
            assert forall|i: int, j: int| 0 <= i < j < r.len() && coalescable(#[trigger] r[i].0) implies r[i].0 != #[trigger] r[j].0 by {
                if i == 0 {
                    assert(r[j] == c[j - 1]);
                    let w = choose|w: int| 0 <= w < rest.len() && c[j - 1] == rest[w];
                    assert(rest[w] == batch[w + 1]);
                    if r[j].0 == batch[0].0 {
                        assert(superseded(batch, 0));
                    }
                } else {
                    assert(r[i] == c[i - 1]);
                    assert(r[j] == c[j - 1]);
                }
            }
        } else {
            assert(r =~= c);
        }
    }
}

/// A batch in which each kind of seek or position poll appears at most once
/// is left as it is.
proof fn lemma_coalesce_fixed(batch: Seq<(u32, Seq<u8>)>)
    requires
        latest_only(batch),
    ensures
        coalesced(batch) == batch,
    decreases batch.len(),
{
    if batch.len() > 0 {
        let rest = batch.drop_first();
        assert(latest_only(rest)) by {
            assert forall|i: int, j: int| 0 <= i < j < rest.len() && coalescable(#[trigger] rest[i].0) implies rest[i].0
                != #[trigger] rest[j].0 by {
                assert(rest[i] == batch[i + 1] && rest[j] == batch[j + 1]);
            }
        }
        lemma_coalesce_fixed(rest);
        if superseded(batch, 0) {
            let j = choose|j: int| 0 < j < batch.len() && (#[trigger] batch[j]).0 == batch[0].0;
            assert(batch[0].0 != batch[j].0);
        }
        assert(batch =~= seq![batch[0]] + rest);
    } else {
        assert(coalesced(batch) =~= batch);
    }
}

/// Coalescing twice is coalescing once.
pub proof fn law_coalesce_idempotent(batch: Seq<(u32, Seq<u8>)>)
    ensures
        coalesced(coalesced(batch)) == coalesced(batch),
{
    law_coalesce_keeps_one_of_each(batch);
    lemma_coalesce_fixed(coalesced(batch));
}

/// Coalescing keeps every command other than seeks and position polls, in
/// order.
pub proof fn law_coalesce_keeps_other_commands(batch: Seq<(u32, Seq<u8>)>)
    ensures
        coalesced(batch).filter(|e: (u32, Seq<u8>)| !coalescable(e.0)) == batch.filter(
            |e: (u32, Seq<u8>)| !coalescable(e.0),
        ),
    decreases batch.len(),
{
    let keep = |e: (u32, Seq<u8>)| !coalescable(e.0);
    if batch.len() > 0 {
        let rest = batch.drop_first();
        law_coalesce_keeps_other_commands(rest);
        let head = if superseded(batch, 0) { Seq::<(u32, Seq<u8>)>::empty() } else { seq![batch[0]] };
        assert(coalesced(batch) == head + coalesced(rest));
        Seq::filter_distributes_over_add(head, coalesced(rest), keep);
        assert(batch =~= seq![batch[0]] + rest);
        Seq::filter_distributes_over_add(seq![batch[0]], rest, keep);
        reveal_with_fuel(Seq::filter, 2);
        assert(seq![batch[0]].drop_last() =~= Seq::<(u32, Seq<u8>)>::empty());
        assert(Seq::<(u32, Seq<u8>)>::empty().filter(keep) =~= Seq::<(u32, Seq<u8>)>::empty());
        if superseded(batch, 0) {
            assert(head.filter(keep) =~= Seq::<(u32, Seq<u8>)>::empty());
        }
    } else {
        assert(coalesced(batch) =~= batch);
    }
}

} // verus!

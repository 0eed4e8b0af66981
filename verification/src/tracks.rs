//! The selectable tracks of mpv's `track-list` property.
use vstd::prelude::*;

use crate::model::{opt_str, str_eq, PlayerTrack, PlayerTrackKind};
use crate::text::{non_empty, non_empty_spec, opt_string_view, to_owned};

verus! {

/// One entry of mpv's `track-list` as read from it; each field is absent
/// when the entry lacks it or it has another JSON type.
#[derive(Debug, Clone, Default)]
pub struct RawTrack {
    /// The `type` field.
    pub kind: Option<String>,
    pub id: Option<i64>,
    pub lang: Option<String>,
    pub title: Option<String>,
    pub codec: Option<String>,
    pub selected: Option<bool>,
    pub external: Option<bool>,
}

/// A track as the model sees it: id, kind, language, title, codec,
/// selected, external.
pub type TrackModel = (i64, PlayerTrackKind, Option<Seq<char>>, Option<Seq<char>>, Option<Seq<char>>, bool, bool);

/// The model of a track.
pub open spec fn track_view(t: PlayerTrack) -> TrackModel {
    (
        t.id,
        t.kind,
        opt_string_view(t.language),
        opt_string_view(t.title),
        opt_string_view(t.codec),
        t.selected,
        t.external,
    )
}

/// The kind of an entry of type `kind`: audio and subtitle tracks only.
pub open spec fn kind_spec(kind: Option<Seq<char>>) -> Option<PlayerTrackKind> {
    if kind == Some("audio"@) {
        Some(PlayerTrackKind::Audio)
    } else if kind == Some("sub"@) {
        Some(PlayerTrackKind::Subtitle)
    } else {
        None
    }
}

/// The track an entry describes: an audio or subtitle track with a
/// positive id; text fields trimmed, blank ones left out; flags false when
/// missing.
pub open spec fn track_spec(raw: RawTrack) -> Option<TrackModel> {
    match (kind_spec(opt_string_view(raw.kind)), raw.id) {
        (Some(kind), Some(id)) => if id > 0 {
            Some(
                (
                    id,
                    kind,
                    non_empty_spec(opt_string_view(raw.lang)),
                    non_empty_spec(opt_string_view(raw.title)),
                    non_empty_spec(opt_string_view(raw.codec)),
                    raw.selected == Some(true),
                    raw.external == Some(true),
                ),
            )
        } else {
            None
        },
        _ => None,
    }
}

/// The tracks of a `track-list`, in its order.
pub open spec fn tracks_spec(raws: Seq<RawTrack>) -> Seq<TrackModel>
    decreases raws.len(),
{
    if raws.len() == 0 {
        Seq::empty()
    } else {
        let rest = tracks_spec(raws.drop_last());
        match track_spec(raws.last()) {
            Some(t) => rest.push(t),
            None => rest,
        }
    }
}

/// The trimmed, non-blank text of a field.
fn text_field(value: &Option<String>) -> (r: Option<String>)
    ensures
        opt_string_view(r) == non_empty_spec(opt_string_view(*value)),
{
    match non_empty(opt_str(value)) {
        Some(v) => Some(to_owned(v)),
        None => None,
    }
}

/// The kind of an entry.
fn track_kind(kind: &Option<String>) -> (r: Option<PlayerTrackKind>)
    ensures
        r == kind_spec(opt_string_view(*kind)),
{
    proof {
        reveal_strlit("audio");
        reveal_strlit("sub");
    }
    match kind {
        Some(k) => if str_eq(k.as_str(), "audio") {
            Some(PlayerTrackKind::Audio)
        } else if str_eq(k.as_str(), "sub") {
            Some(PlayerTrackKind::Subtitle)
        } else {
            None
        },
        None => None,
    }
}

/// The track an entry describes, if it is a selectable one.
pub fn player_track(raw: &RawTrack) -> (r: Option<PlayerTrack>)
    ensures
        match r {
            Some(t) => track_spec(*raw) == Some(track_view(t)),
            None => track_spec(*raw) is None,
        },
{
    let kind = match track_kind(&raw.kind) {
        Some(k) => k,
        None => return None,
    };
    let id = match raw.id {
        Some(i) => if i > 0 {
            i
        } else {
            return None;
        },
        None => return None,
    };
    let selected = match raw.selected {
        Some(b) => b,
        None => false,
    };
    let external = match raw.external {
        Some(b) => b,
        None => false,
    };
    Some(
        PlayerTrack {
            id,
            kind,
            language: text_field(&raw.lang),
            title: text_field(&raw.title),
            codec: text_field(&raw.codec),
            selected,
            external,
        },
    )
}

/// The selectable audio and subtitle tracks of a `track-list`, in its order.
pub fn playback_tracks(raws: &[RawTrack]) -> (r: Vec<PlayerTrack>)
    ensures
        r@.map_values(|t: PlayerTrack| track_view(t)) == tracks_spec(raws@),
{
    let mut out: Vec<PlayerTrack> = Vec::new();
    let mut i: usize = 0;
    while i < raws.len()
        invariant
            i <= raws@.len(),
            out@.map_values(|t: PlayerTrack| track_view(t)) == tracks_spec(raws@.take(i as int)),
        decreases raws.len() - i,
    {
        let ghost before = out@;
        assert(raws@.take(i as int + 1).drop_last() == raws@.take(i as int));
        match player_track(&raws[i]) {
            Some(t) => {
                out.push(t);
                assert(out@.map_values(|t: PlayerTrack| track_view(t)) == before.map_values(
                    |t: PlayerTrack| track_view(t),
                ).push(track_view(t)));
            },
            None => {},
        }
        i = i + 1;
    }
    assert(raws@.take(raws@.len() as int) == raws@);
    out
}

/// Every track kept is an audio or subtitle track with a positive id.
pub proof fn law_kept_tracks_are_selectable(raws: Seq<RawTrack>)
    ensures
        forall|i: int| 0 <= i < tracks_spec(raws).len() ==> (#[trigger] tracks_spec(raws)[i]).0 > 0,
    decreases raws.len(),
{
    if raws.len() > 0 {
        law_kept_tracks_are_selectable(raws.drop_last());
        let rest = tracks_spec(raws.drop_last());
        assert forall|i: int| 0 <= i < tracks_spec(raws).len() implies (#[trigger] tracks_spec(raws)[i]).0 > 0 by {
            if i < rest.len() {
                assert(rest[i].0 > 0);
            }
        }
    }
}

} // verus!

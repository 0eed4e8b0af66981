//! The mpv input section MediaFlick installs: stop and seek keys, and the
//! configurable mark-watched-and-play-next binding.
use vstd::prelude::*;

use crate::text::{
    chars_of, is_control, is_control_char, is_white, is_whitespace, join, join_chars,
    string_from_chars, to_owned, trim, trim_str, views,
};

verus! {

/// The script message that marks the item watched and plays the next one.
pub const MARK_WATCHED_NEXT_COMMAND: &'static str = "mark-watched-next";

/// Name of the mpv input section.
pub const INPUT_SECTION_NAME: &'static str = "mediaflick_desktop_input";

/// The key a binding names, when it is usable: trimmed, not blank, without
/// control or white-space characters.
pub open spec fn sanitize_key_spec(value: Seq<char>) -> Option<Seq<char>> {
    let t = trim(value);
    if t.len() == 0 || exists|i: int| 0 <= i < t.len() && (is_control_char(#[trigger] t[i]) || is_white(t[i])) {
        None
    } else {
        Some(t)
    }
}

/// The key a binding names, when it is usable.
pub fn sanitize_mpv_key(value: &str) -> (r: Option<String>)
    ensures
        match r {
            Some(k) => sanitize_key_spec(value@) == Some(k@),
            None => sanitize_key_spec(value@) is None,
        },
{
    let t = trim_str(value);
    let v = chars_of(t);
    if v.len() == 0 {
        return None;
    }
    let mut i: usize = 0;
    while i < v.len()
        invariant
            i <= v.len(),
            v@ == trim(value@),
            forall|j: int| 0 <= j < i ==> !(is_control_char(#[trigger] v@[j]) || is_white(v@[j])),
        decreases v.len() - i,
    {
        if is_control(v[i]) || is_whitespace(v[i]) {
            return None;
        }
        i = i + 1;
    }
    Some(to_owned(t))
}

/// The line binding `key` to the mark-watched-next script message.
pub open spec fn watched_line(key: Seq<char>) -> Seq<char> {
    key + " script-message mediaflick-desktop mark-watched-next"@
}

/// The line binding `key` to the mark-watched-next script message.
fn watched_line_for(key: &str) -> (r: Vec<char>)
    ensures
        r@ == watched_line(key@),
{
    let mut line = chars_of(key);
    let tail = chars_of(" script-message mediaflick-desktop mark-watched-next");
    crate::text::append_chars(&mut line, &tail);
    line
}

/// The fixed stop and seek bindings.
pub open spec fn base_lines() -> Seq<Seq<char>> {
    seq![
        "q stop"@,
        "Q stop"@,
        "CLOSE_WIN stop"@,
        "STOP stop"@,
        "LEFT seek -10 relative+exact"@,
        "RIGHT seek 10 relative+exact"@,
        "DOWN seek -30 relative+exact"@,
        "UP seek 30 relative+exact"@,
    ]
}

/// The `i`-th fixed binding.
fn base_line(i: usize) -> (r: &'static str)
    requires
        i < 8,
    ensures
        r@ == base_lines()[i as int],
{
    match i {
        0 => "q stop",
        1 => "Q stop",
        2 => "CLOSE_WIN stop",
        3 => "STOP stop",
        4 => "LEFT seek -10 relative+exact",
        5 => "RIGHT seek 10 relative+exact",
        6 => "DOWN seek -30 relative+exact",
        _ => "UP seek 30 relative+exact",
    }
}

/// The input section: the stop and seek bindings, plus the watched binding
/// when its key is usable, one per line.
pub open spec fn section_spec(mark_watched_next: Option<Seq<char>>) -> Seq<char> {
    let extra = match mark_watched_next {
        Some(k) => match sanitize_key_spec(k) {
            Some(key) => seq![watched_line(key)],
            None => Seq::empty(),
        },
        None => Seq::empty(),
    };
    join(base_lines() + extra, seq!['\n'])
}

/// The mpv input section MediaFlick defines: stop and seek keys, plus the
/// mark-watched-and-play-next binding from Player settings when it is set.
pub fn section_contents(mark_watched_next: Option<&str>) -> (r: String)
    ensures
        r@ == section_spec(crate::text::opt_view(mark_watched_next)),
{
    let mut lines: Vec<Vec<char>> = Vec::new();
    let mut i: usize = 0;
    while i < 8
        invariant
            i <= 8,
            views(lines@) == base_lines().take(i as int),
        decreases 8 - i,
    {
        let ghost prev = lines@;
        lines.push(chars_of(base_line(i)));
        proof {
            assert(views(lines@) == views(prev).push(base_lines()[i as int]));
            assert(base_lines().take(i + 1) == base_lines().take(i as int).push(base_lines()[i as int]));
        }
        i = i + 1;
    }
    assert(base_lines().take(8) == base_lines());
    if let Some(binding) = mark_watched_next {
        if let Some(key) = sanitize_mpv_key(binding) {
            let ghost prev = lines@;
            lines.push(watched_line_for(key.as_str()));
            proof {
                assert(views(lines@) == views(prev).push(watched_line(key@)));
            }
        }
    }
    proof {
        let extra = match crate::text::opt_view(mark_watched_next) {
            Some(k) => match sanitize_key_spec(k) {
                Some(key) => seq![watched_line(key)],
                None => Seq::<Seq<char>>::empty(),
            },
            None => Seq::<Seq<char>>::empty(),
        };
        assert(views(lines@) =~= base_lines() + extra);
    }
    let newline: Vec<char> = vec!['\n'];
    assert(newline@ == seq!['\n']);
    let joined = join_chars(&lines, &newline);
    string_from_chars(&joined)
}

/// The user's mpv key bindings for MediaFlick's commands.
#[derive(Debug, Clone, PartialEq, Eq)]
pub struct MpvInputBindings {
    pub mark_watched_next: Option<String>,
}

/// A binding value from the bindings file: a string is trimmed and blank
/// means unbound; any other value means unbound.
pub open spec fn binding_value_spec(value: Option<Seq<char>>) -> Option<Seq<char>> {
    match value {
        Some(s) => if trim(s).len() > 0 {
            Some(trim(s))
        } else {
            None
        },
        None => None,
    }
}

impl MpvInputBindings {
    /// The binding used when the file sets none: `w`.
    pub fn default_bindings() -> (r: Self)
        ensures
            r.mark_watched_next matches Some(k) && k@ == "w"@,
    {
        MpvInputBindings { mark_watched_next: Some(to_owned("w")) }
    }

    /// The bindings read from the bindings file, given what it holds under
    /// `mark_watched_next` and under the older `kb_watched` (`None` when the
    /// key is absent; `Some(None)` when present but not a string). The first
    /// present key wins; with neither the default `w` applies.
    pub fn from_lookups(mark_watched_next: Option<Option<&str>>, kb_watched: Option<Option<&str>>) -> (r: Self)
        ensures
            crate::text::opt_string_view(r.mark_watched_next) == (match mark_watched_next {
                Some(v) => binding_value_spec(crate::text::opt_view(v)),
                None => match kb_watched {
                    Some(v) => binding_value_spec(crate::text::opt_view(v)),
                    None => Some("w"@),
                },
            }),
    {
        let chosen = match mark_watched_next {
            Some(v) => v,
            None => match kb_watched {
                Some(v) => v,
                None => return MpvInputBindings::default_bindings(),
            },
        };
        let value = match chosen {
            Some(s) => {
                let t = trim_str(s);
                if t.unicode_len() > 0 {
                    Some(to_owned(t))
                } else {
                    None
                }
            },
            None => None,
        };
        MpvInputBindings { mark_watched_next: value }
    }

    /// The input-section line for the watched binding, when its key is usable.
    pub fn section_contents(&self) -> (r: Option<String>)
        ensures
            crate::text::opt_string_view(r) == (match self.mark_watched_next {
                Some(k) => match sanitize_key_spec(k@) {
                    Some(key) => Some(watched_line(key)),
                    None => None,
                },
                None => None,
            }),
    {
        let binding = match &self.mark_watched_next {
            Some(k) => k,
            None => return None,
        };
        match sanitize_mpv_key(binding.as_str()) {
            Some(key) => Some(string_from_chars(&watched_line_for(key.as_str()))),
            None => None,
        }
    }
}

} // verus!

//! HTTP headers handed to players and to the playstate reporter: which are
//! forwarded, how they are sanitized, and where the access token comes from.
use vstd::prelude::*;

use crate::model::{header_views, HttpHeader, PlaybackRequest};
use crate::text::{
    chars_eq_ignore_case, chars_of, eq_ignore_case, is_ascii_white,
    is_white, join, join_chars, non_empty, non_empty_spec, opt_string_view,
    push_char, slice_chars, string_from_chars, to_owned, trim, trim_str,
    views, lead, lemma_lead,
};
use crate::url::{auth_token_from, query_auth_token, token_keys};

verus! {

// ---------------------------------------------------------------------------
// Character filters
// ---------------------------------------------------------------------------

/// Which characters a sanitizer keeps.
#[derive(Debug, Clone, Copy, PartialEq, Eq, Structural)]
pub enum CharFilter {
    /// ASCII letters, digits, `-` and `_`.
    HeaderName,
    /// Everything but NUL, CR and LF.
    ArgValue,
    /// Everything but NUL, CR, LF and `"`.
    AuthValue,
}

/// Whether `filter` keeps `c`.
pub open spec fn keeps(filter: CharFilter, c: char) -> bool {
    match filter {
        CharFilter::HeaderName => {
            let v = c as u32;
            (0x30 <= v && v <= 0x39) || (0x41 <= v && v <= 0x5A) || (0x61 <= v && v <= 0x7A)
                || c == '-' || c == '_'
        },
        CharFilter::ArgValue => c != '\0' && c != '\r' && c != '\n',
        CharFilter::AuthValue => c != '\0' && c != '\r' && c != '\n' && c != '"',
    }
}

/// The characters of `s` that `filter` keeps.
pub open spec fn filtered(s: Seq<char>, filter: CharFilter) -> Seq<char> {
    s.filter(|c: char| keeps(filter, c))
}

/// Whether `filter` keeps `c`.
pub fn keeps_char(filter: CharFilter, c: char) -> (r: bool)
    ensures
        r == keeps(filter, c),
{
    match filter {
        CharFilter::HeaderName => {
            let v = c as u32;
            (0x30 <= v && v <= 0x39) || (0x41 <= v && v <= 0x5A) || (0x61 <= v && v <= 0x7A)
                || c == '-' || c == '_'
        },
        CharFilter::ArgValue => c != '\0' && c != '\r' && c != '\n',
        CharFilter::AuthValue => c != '\0' && c != '\r' && c != '\n' && c != '"',
    }
}

/// The characters of `s` that `filter` keeps, in order.
pub fn filter_str(s: &str, filter: CharFilter) -> (r: String)
    ensures
        r@ == filtered(s@, filter),
{
    let v = chars_of(s);
    let mut out = String::new();
    let mut i: usize = 0;
    let ghost keep = |c: char| keeps(filter, c);
    while i < v.len()
        invariant
            i <= v.len(),
            keep == (|c: char| keeps(filter, c)),
            out@ == v@.take(i as int).filter(keep),
        decreases v.len() - i,
    {
        proof {
            let t = v@.take(i + 1);
            assert(t.drop_last() == v@.take(i as int));
            assert(t.last() == v@[i as int]);
            reveal_with_fuel(Seq::filter, 1);
        }
        if keeps_char(filter, v[i]) {
            push_char(&mut out, v[i]);
        }
        i = i + 1;
    }
    assert(v@.take(v.len() as int) == v@);
    out
}

/// Keeps ASCII letters, digits, `-` and `_` of a header name.
pub fn sanitize_header_name(value: &str) -> (r: String)
    ensures
        r@ == filtered(value@, CharFilter::HeaderName),
{
    filter_str(value, CharFilter::HeaderName)
}

/// Drops NUL, CR and LF, which would break a command line or an mpv option.
pub fn sanitize_option(value: &str) -> (r: String)
    ensures
        r@ == filtered(value@, CharFilter::ArgValue),
{
    filter_str(value, CharFilter::ArgValue)
}

/// A header value trimmed and without NUL, CR and LF.
pub fn sanitize_header_value(value: &str) -> (r: String)
    ensures
        r@ == filtered(trim(value@), CharFilter::ArgValue),
{
    filter_str(trim_str(value), CharFilter::ArgValue)
}

/// An authorization parameter value without NUL, CR, LF and quotes.
pub fn sanitize_auth_value(value: &str) -> (r: String)
    ensures
        r@ == filtered(value@, CharFilter::AuthValue),
{
    filter_str(value, CharFilter::AuthValue)
}

// ---------------------------------------------------------------------------
// Which headers are forwarded
// ---------------------------------------------------------------------------

/// Headers a player may send with media requests.
pub open spec fn forwarded_names() -> Seq<Seq<char>> {
    seq![
        "authorization"@,
        "x-emby-authorization"@,
        "x-emby-token"@,
        "x-mediabrowser-token"@,
        "cookie"@,
        "user-agent"@,
        "referer"@,
        "origin"@,
    ]
}

/// The `i`-th forwarded header name.
fn forwarded_name(i: usize) -> (r: &'static str)
    requires
        i < 8,
    ensures
        r@ == forwarded_names()[i as int],
{
    match i {
        0 => "authorization",
        1 => "x-emby-authorization",
        2 => "x-emby-token",
        3 => "x-mediabrowser-token",
        4 => "cookie",
        5 => "user-agent",
        6 => "referer",
        _ => "origin",
    }
}

/// Whether `name` is one of the first `count` forwarded names (ASCII case ignored).
pub open spec fn in_first(name: Seq<char>, count: int) -> bool {
    exists|j: int| 0 <= j < count && eq_ignore_case(name, #[trigger] forwarded_names()[j])
}

/// Whether `name` is one of the first `count` forwarded names.
fn in_first_names(name: &str, count: usize) -> (r: bool)
    requires
        count <= 8,
    ensures
        r == in_first(name@, count as int),
{
    let n = chars_of(name);
    let mut i: usize = 0;
    while i < count
        invariant
            i <= count <= 8,
            n@ == name@,
            forall|j: int| 0 <= j < i ==> !eq_ignore_case(name@, #[trigger] forwarded_names()[j]),
        decreases count - i,
    {
        let k = chars_of(forwarded_name(i));
        if chars_eq_ignore_case(&n, &k) {
            return true;
        }
        i = i + 1;
    }
    false
}

/// Whether a player may forward the header `name`: authorization, token,
/// cookie, user agent, referer and origin headers, ASCII case ignored.
pub fn is_forwarded_header(name: &str) -> (r: bool)
    ensures
        r == in_first(name@, 8),
{
    in_first_names(name, 8)
}

/// Whether the playstate reporter forwards the header `name`: the
/// authorization, token and cookie headers, ASCII case ignored.
pub fn is_forwardable_auth_header(name: &str) -> (r: bool)
    ensures
        r == in_first(name@, 5),
{
    in_first_names(name, 5)
}

// ---------------------------------------------------------------------------
// mpv string lists
// ---------------------------------------------------------------------------

/// One value escaped for an mpv string list: `\` doubled and `,` escaped.
pub open spec fn escape_list_value(s: Seq<char>) -> Seq<char>
    decreases s.len(),
{
    if s.len() == 0 {
        Seq::empty()
    } else {
        let head = if s[0] == '\\' {
            seq!['\\', '\\']
        } else if s[0] == ',' {
            seq!['\\', ',']
        } else {
            seq![s[0]]
        };
        head + escape_list_value(s.drop_first())
    }
}

/// Escapes one value for an mpv string list.
pub fn escape_list_item(s: &str) -> (r: Vec<char>)
    ensures
        r@ == escape_list_value(s@),
{
    let v = chars_of(s);
    let mut out: Vec<char> = Vec::new();
    let mut i: usize = 0;
    proof {
        assert(v@.skip(0) == v@);
    }
    while i < v.len()
        invariant
            i <= v.len(),
            v@ == s@,
            out@ + escape_list_value(v@.skip(i as int)) == escape_list_value(s@),
        decreases v.len() - i,
    {
        let ghost rest = v@.skip(i as int);
        let ghost prev = out@;
        let c = v[i];
        if c == '\\' {
            out.push('\\');
            out.push('\\');
        } else if c == ',' {
            out.push('\\');
            out.push(',');
        } else {
            out.push(c);
        }
        proof {
            assert(rest[0] == c);
            assert(rest.drop_first() == v@.skip(i + 1));
            if c == '\\' {
                assert(out@ == prev + seq!['\\', '\\']);
            } else if c == ',' {
                assert(out@ == prev + seq!['\\', ',']);
            } else {
                assert(out@ == prev + seq![c]);
            }
        }
        i = i + 1;
    }
    proof {
        assert(v@.skip(i as int) == Seq::<char>::empty());
        assert(out@ + Seq::<char>::empty() == out@);
    }
    out
}

/// An mpv string-list option: the values escaped and joined with `,`.
pub open spec fn string_list_spec(values: Seq<Seq<char>>) -> Seq<char> {
    join(values.map_values(|v: Seq<char>| escape_list_value(v)), seq![','])
}

/// The texts of a list of strings.
pub open spec fn string_views(values: Seq<String>) -> Seq<Seq<char>> {
    values.map_values(|v: String| v@)
}

/// Builds an mpv string-list option from `values`: backslashes doubled,
/// commas escaped, values joined with commas.
pub fn mpv_string_list(values: &Vec<String>) -> (r: String)
    ensures
        r@ == string_list_spec(string_views(values@)),
{
    let mut escaped: Vec<Vec<char>> = Vec::new();
    let mut i: usize = 0;
    let ghost f = |v: Seq<char>| escape_list_value(v);
    while i < values.len()
        invariant
            i <= values.len(),
            f == (|v: Seq<char>| escape_list_value(v)),
            views(escaped@) == string_views(values@).take(i as int).map_values(f),
        decreases values.len() - i,
    {
        let e = escape_list_item(values[i].as_str());
        let ghost prev = escaped@;
        escaped.push(e);
        proof {
            assert(views(escaped@) == views(prev).push(e@));
            assert(string_views(values@).take(i + 1) == string_views(values@).take(i as int).push(
                values@[i as int]@,
            ));
        }
        i = i + 1;
    }
    proof {
        assert(string_views(values@).take(values.len() as int) == string_views(values@));
    }
    let comma: Vec<char> = vec![','];
    let joined = join_chars(&escaped, &comma);
    assert(comma@ == seq![',']);
    string_from_chars(&joined)
}

// ---------------------------------------------------------------------------
// Headers for mpv
// ---------------------------------------------------------------------------

/// Whether a header named `name` (ASCII case ignored) is among `headers`.
pub open spec fn has_name(headers: Seq<(Seq<char>, Seq<char>)>, name: Seq<char>) -> bool {
    exists|j: int| 0 <= j < headers.len() && eq_ignore_case(#[trigger] headers[j].0, name)
}

/// Whether a header named `name` (ASCII case ignored) is among `headers`.
pub fn has_header(headers: &Vec<HttpHeader>, name: &str) -> (r: bool)
    ensures
        r == has_name(header_views(headers@), name@),
{
    let n = chars_of(name);
    let mut i: usize = 0;
    while i < headers.len()
        invariant
            i <= headers.len(),
            n@ == name@,
            forall|j: int| 0 <= j < i ==> !eq_ignore_case(#[trigger] header_views(headers@)[j].0, name@),
        decreases headers.len() - i,
    {
        let h = chars_of(headers[i].name.as_str());
        if chars_eq_ignore_case(&h, &n) {
            assert(eq_ignore_case(header_views(headers@)[i as int].0, name@));
            return true;
        }
        i = i + 1;
    }
    false
}

/// One request header taken into the mpv header list: sanitized, dropped when
/// empty or not forwarded, and dropped when a header of that name is already
/// there.
pub open spec fn mpv_header_step(
    acc: Seq<(Seq<char>, Seq<char>)>,
    h: (Seq<char>, Seq<char>),
) -> Seq<(Seq<char>, Seq<char>)> {
    let name = filtered(h.0, CharFilter::HeaderName);
    let value = filtered(trim(h.1), CharFilter::ArgValue);
    if name.len() == 0 || value.len() == 0 || !in_first(name, 8) || has_name(acc, name) {
        acc
    } else {
        acc.push((name, value))
    }
}

/// The request headers taken into the mpv header list, in order.
pub open spec fn mpv_header_fold(hs: Seq<(Seq<char>, Seq<char>)>) -> Seq<(Seq<char>, Seq<char>)>
    decreases hs.len(),
{
    if hs.len() == 0 {
        Seq::empty()
    } else {
        mpv_header_step(mpv_header_fold(hs.drop_last()), hs.last())
    }
}

/// The header list mpv gets for `launch`: the forwarded request headers,
/// plus an `X-Emby-Token` from the URL query when none was given. With
/// `trim_token`, the token is trimmed before sanitizing.
pub open spec fn mpv_headers_spec(launch: PlaybackRequest, trim_token: bool) -> Seq<
    (Seq<char>, Seq<char>),
> {
    let base = mpv_header_fold(header_views(launch.headers@));
    let token = auth_token_from(launch.media_url@, token_keys(), false);
    if has_name(base, "X-Emby-Token"@) || token is None {
        base
    } else {
        let value = filtered(
            if trim_token {
                trim(token->0)
            } else {
                token->0
            },
            CharFilter::ArgValue,
        );
        if value.len() == 0 {
            base
        } else {
            base.push(("X-Emby-Token"@, value))
        }
    }
}

/// The headers mpv sends with media requests for `launch`.
pub fn mpv_headers(launch: &PlaybackRequest, trim_token: bool) -> (r: Vec<HttpHeader>)
    ensures
        header_views(r@) == mpv_headers_spec(*launch, trim_token),
{
    let mut headers: Vec<HttpHeader> = Vec::new();
    let mut i: usize = 0;
    while i < launch.headers.len()
        invariant
            i <= launch.headers.len(),
            header_views(headers@) == mpv_header_fold(header_views(launch.headers@).take(i as int)),
        decreases launch.headers.len() - i,
    {
        let header = &launch.headers[i];
        let name = sanitize_header_name(header.name.as_str());
        let value = sanitize_option(trim_str(header.value.as_str()));
        proof {
            let t = header_views(launch.headers@).take(i + 1);
            assert(t.drop_last() == header_views(launch.headers@).take(i as int));
            assert(t.last() == header@);
        }
        if name.as_str().unicode_len() > 0 && value.as_str().unicode_len() > 0
            && is_forwarded_header(name.as_str()) && !has_header(&headers, name.as_str()) {
            let ghost prev = headers@;
            headers.push(HttpHeader { name, value });
            proof {
                assert(header_views(headers@) == header_views(prev).push(headers@.last()@));
            }
        }
        i = i + 1;
    }
    proof {
        assert(header_views(launch.headers@).take(launch.headers.len() as int) == header_views(
            launch.headers@,
        ));
    }
    if !has_header(&headers, "X-Emby-Token") {
        if let Some(token) = query_auth_token(launch.media_url.as_str(), false) {
            let value = if trim_token {
                sanitize_option(trim_str(token.as_str()))
            } else {
                sanitize_option(token.as_str())
            };
            if value.as_str().unicode_len() > 0 {
                let ghost prev = headers@;
                headers.push(HttpHeader { name: to_owned("X-Emby-Token"), value });
                proof {
                    assert(header_views(headers@) == header_views(prev).push(headers@.last()@));
                }
            }
        }
    }
    headers
}

// ---------------------------------------------------------------------------
// Tokens for the playstate reporter
// ---------------------------------------------------------------------------

/// Substring search ignoring ASCII case: `pat` occurs in `s` at `i`.
pub open spec fn match_ci_at(s: Seq<char>, pat: Seq<char>, i: int) -> bool {
    0 <= i && i + pat.len() <= s.len() && eq_ignore_case(s.subrange(i, i + pat.len()), pat)
}

/// `i` is the first index at which `pat` occurs in `s` (ASCII case ignored).
pub open spec fn first_ci_match(s: Seq<char>, pat: Seq<char>, i: int) -> bool {
    match_ci_at(s, pat, i) && forall|j: int| 0 <= j < i ==> !#[trigger] match_ci_at(s, pat, j)
}

/// The first index at which `pat` occurs in `s` ignoring ASCII case, or -1.
pub open spec fn find_ci(s: Seq<char>, pat: Seq<char>) -> int {
    if exists|i: int| #[trigger] first_ci_match(s, pat, i) {
        choose|i: int| #[trigger] first_ci_match(s, pat, i)
    } else {
        -1
    }
}

/// There is only one first match.
pub proof fn lemma_first_ci_unique(s: Seq<char>, pat: Seq<char>, a: int, b: int)
    requires
        first_ci_match(s, pat, a),
        first_ci_match(s, pat, b),
    ensures
        a == b,
{
    if a < b {
        assert(!match_ci_at(s, pat, a));
    }
    if b < a {
        assert(!match_ci_at(s, pat, b));
    }
}

/// The first index at which `pat` occurs in `s`, ignoring ASCII case.
pub fn find_sub_ci(s: &Vec<char>, pat: &Vec<char>) -> (r: Option<usize>)
    ensures
        match r {
            Some(i) => find_ci(s@, pat@) == i && i + pat.len() <= s.len(),
            None => find_ci(s@, pat@) == -1,
        },
{
    if pat.len() > s.len() {
        proof {
            if exists|i: int| #[trigger] first_ci_match(s@, pat@, i) {
                let c = choose|i: int| #[trigger] first_ci_match(s@, pat@, i);
                assert(match_ci_at(s@, pat@, c));
            }
        }
        return None;
    }
    let last = s.len() - pat.len();
    let mut i: usize = 0;
    while i <= last
        invariant
            last == s.len() - pat.len(),
            pat.len() <= s.len(),
            i <= last + 1,
            forall|j: int| 0 <= j < i ==> !#[trigger] match_ci_at(s@, pat@, j),
        decreases last + 1 - i,
    {
        let window = slice_chars(s, i, i + pat.len());
        if chars_eq_ignore_case(&window, pat) {
            proof {
                assert(first_ci_match(s@, pat@, i as int));
                let c = choose|k: int| #[trigger] first_ci_match(s@, pat@, k);
                lemma_first_ci_unique(s@, pat@, c, i as int);
            }
            return Some(i);
        }
        i = i + 1;
    }
    proof {
        if exists|k: int| #[trigger] first_ci_match(s@, pat@, k) {
            let c = choose|k: int| #[trigger] first_ci_match(s@, pat@, k);
            assert(match_ci_at(s@, pat@, c));
            assert(c < i);
        }
    }
    None
}

/// Index of the first character of `s` satisfying the stop test of
/// `auth_parameter` (`,` or ASCII white space), or `s.len()`.
pub open spec fn value_end(s: Seq<char>) -> int
    decreases s.len(),
{
    if s.len() == 0 {
        0
    } else if s[0] == ',' || is_ascii_white(s[0]) {
        0
    } else {
        1 + value_end(s.drop_first())
    }
}

/// `str::trim_start`.
pub open spec fn trim_start(s: Seq<char>) -> Seq<char> {
    s.skip(lead(s) as int)
}

/// The value of `key=` in an authorization header value (key compared
/// ignoring ASCII case): quoted values run to the closing quote, bare values
/// to a comma or white space; blank values count as missing.
pub open spec fn auth_parameter_spec(value: Seq<char>, key: Seq<char>) -> Option<Seq<char>> {
    let needle = key + seq!['='];
    let index = find_ci(value, needle);
    if index < 0 {
        None
    } else {
        let rest = trim_start(value.skip(index + needle.len()));
        if rest.len() > 0 && rest[0] == '"' {
            let inner = rest.drop_first();
            let q = crate::text::pos_of(inner, '"', '"');
            let end = if q < 0 {
                inner.len() as int
            } else {
                q
            };
            non_empty_spec(Some(inner.take(end)))
        } else {
            non_empty_spec(Some(rest.take(value_end(rest))))
        }
    }
}

/// `value_end` characterised by its first stop character.
proof fn lemma_value_end(s: Seq<char>, n: int)
    requires
        0 <= n <= s.len(),
        forall|j: int| 0 <= j < n ==> #[trigger] s[j] != ',' && !is_ascii_white(s[j]),
        n == s.len() || s[n] == ',' || is_ascii_white(s[n]),
    ensures
        value_end(s) == n,
    decreases n,
{
    if n > 0 {
        assert forall|j: int| 0 <= j < n - 1 implies #[trigger] s.drop_first()[j] != ','
            && !is_ascii_white(s.drop_first()[j]) by {
            assert(s.drop_first()[j] == s[j + 1]);
        }
        if n < s.len() {
            assert(s.drop_first()[n - 1] == s[n]);
        }
        lemma_value_end(s.drop_first(), n - 1);
    }
}

/// The value of parameter `key` in an authorization header value such as
/// `MediaBrowser Client="Jellyfin Web", Token="secret"`.
pub fn auth_parameter(value: &str, key: &str) -> (r: Option<String>)
    ensures
        opt_string_view(r) == auth_parameter_spec(value@, key@),
{
    let v = chars_of(value);
    let mut needle = chars_of(key);
    needle.push('=');
    proof {
        assert(needle@ == key@ + seq!['=']);
    }
    let index = match find_sub_ci(&v, &needle) {
        Some(i) => i,
        None => return None,
    };
    proof {
        let c = choose|k: int| #[trigger] first_ci_match(v@, needle@, k);
        assert(match_ci_at(v@, needle@, index as int));
    }
    let after = slice_chars(&v, index + needle.len(), v.len());
    let mut a: usize = 0;
    while a < after.len() && crate::text::is_whitespace(after[a])
        invariant
            a <= after.len(),
            forall|j: int| 0 <= j < a ==> is_white(#[trigger] after@[j]),
        decreases after.len() - a,
    {
        a = a + 1;
    }
    proof {
        lemma_lead(after@, a as int);
        assert(after@ == v@.skip(index + needle.len()));
    }
    let rest = slice_chars(&after, a, after.len());
    if rest.len() > 0 && rest[0] == '"' {
        let inner = slice_chars(&rest, 1, rest.len());
        assert(inner@ == rest@.drop_first());
        let end = match crate::text::find(&inner, '"') {
            Some(q) => q,
            None => inner.len(),
        };
        let piece = slice_chars(&inner, 0, end);
        assert(piece@ == inner@.take(end as int));
        let s = string_from_chars(&piece);
        match non_empty(Some(s.as_str())) {
            Some(t) => Some(to_owned(t)),
            None => None,
        }
    } else {
        let mut end: usize = 0;
        while end < rest.len() && rest[end] != ',' && !(rest[end] == ' ' || rest[end] == '\t'
            || rest[end] == '\n' || rest[end] == '\x0C' || rest[end] == '\r')
            invariant
                end <= rest.len(),
                forall|j: int| 0 <= j < end ==> #[trigger] rest@[j] != ',' && !is_ascii_white(rest@[j]),
            decreases rest.len() - end,
        {
            end = end + 1;
        }
        proof {
            lemma_value_end(rest@, end as int);
        }
        let piece = slice_chars(&rest, 0, end);
        assert(piece@ == rest@.take(end as int));
        let s = string_from_chars(&piece);
        match non_empty(Some(s.as_str())) {
            Some(t) => Some(to_owned(t)),
            None => None,
        }
    }
}

/// The length of a character's UTF-8 encoding.
pub open spec fn utf8_len(c: char) -> nat {
    if (c as u32) < 0x80 {
        1
    } else if (c as u32) < 0x800 {
        2
    } else if (c as u32) < 0x10000 {
        3
    } else {
        4
    }
}

/// The length of a text's UTF-8 encoding.
pub open spec fn byte_len(s: Seq<char>) -> nat
    decreases s.len(),
{
    if s.len() == 0 {
        0
    } else {
        byte_len(s.drop_last()) + utf8_len(s.last())
    }
}

/// Whether some character boundary lies `n` bytes into the text.
pub open spec fn boundary_at(s: Seq<char>, n: nat) -> bool {
    exists|k: int| 0 <= k <= s.len() && #[trigger] byte_len(s.take(k)) == n
}

/// Whether an `Authorization` value can be read: its trimmed text is
/// shorter than seven bytes or has a character boundary after the seventh,
/// where its `Bearer ` prefix would end.
pub open spec fn authorization_sliceable(value: Seq<char>) -> bool {
    byte_len(trim(value)) < 7 || boundary_at(trim(value), 7)
}

/// Whether the `Authorization` header of a launch can be read when the
/// token is looked for there: that is, when neither token header is set.
pub open spec fn launch_sliceable(launch: PlaybackRequest) -> bool {
    let hs = header_views(launch.headers@);
    header_value_spec(hs, "X-Emby-Token"@) is None && header_value_spec(hs, "X-MediaBrowser-Token"@) is None
        && header_value_spec(hs, "Authorization"@) is Some ==> authorization_sliceable(
        header_value_spec(hs, "Authorization"@)->0,
    )
}

/// The length of a character's UTF-8 encoding.
fn utf8_len_of(c: char) -> (r: u64)
    ensures
        r == utf8_len(c),
{
    let code = c as u32;
    if code < 0x80 {
        1
    } else if code < 0x800 {
        2
    } else if code < 0x10000 {
        3
    } else {
        4
    }
}

/// Whether an `Authorization` value can be read (see `authorization_sliceable`).
pub fn authorization_value_sliceable(value: &str) -> (r: bool)
    ensures
        r == authorization_sliceable(value@),
{
    let t = chars_of(trim_str(value));
    let mut acc: u64 = 0;
    let mut found = false;
    let mut i: usize = 0;
    proof {
        assert(t@.take(0) =~= Seq::<char>::empty());
    }
    while i < t.len()
        invariant
            i <= t@.len(),
            acc == (if byte_len(t@.take(i as int)) < 8 { byte_len(t@.take(i as int)) } else { 8 }),
            found == exists|k: int| 0 <= k <= i && #[trigger] byte_len(t@.take(k)) == 7,
        decreases t.len() - i,
    {
        proof {
            let n = t@.take(i + 1);
            assert(n.drop_last() =~= t@.take(i as int));
            assert(n.last() == t@[i as int]);
        }
        let add = utf8_len_of(t[i]);
        acc = if acc + add >= 8 {
            8
        } else {
            acc + add
        };
        i = i + 1;
        proof {
            if acc == 7 {
                assert(byte_len(t@.take(i as int)) == 7);
            }
            if exists|k: int| 0 <= k <= i && #[trigger] byte_len(t@.take(k)) == 7 {
                let k = choose|k: int| 0 <= k <= i && #[trigger] byte_len(t@.take(k)) == 7;
                if k == i {
                    assert(acc == 7);
                }
            }
        }
        found = found || acc == 7;
    }
    proof {
        assert(t@.take(t@.len() as int) =~= t@);
    }
    acc < 7 || found
}

/// Whether the `Authorization` header of a launch can be read when the
/// token is looked for there (see `launch_sliceable`).
pub fn launch_authorization_sliceable(launch: &PlaybackRequest) -> (r: bool)
    ensures
        r == launch_sliceable(*launch),
{
    if header_value(launch, "X-Emby-Token").is_some() || header_value(launch, "X-MediaBrowser-Token").is_some() {
        return true;
    }
    match header_value(launch, "Authorization") {
        Some(v) => authorization_value_sliceable(v.as_str()),
        None => true,
    }
}

/// The token of an `Authorization` header value: a `Bearer` token or the
/// `Token` parameter.
pub open spec fn token_from_authorization_spec(value: Seq<char>) -> Option<Seq<char>> {
    let t = trim(value);
    if t.len() >= 7 && eq_ignore_case(t.take(7), "bearer "@) {
        non_empty_spec(Some(t.skip(7)))
    } else {
        auth_parameter_spec(t, "Token"@)
    }
}

/// The access token in an `Authorization` header value.
pub fn token_from_authorization(value: &str) -> (r: Option<String>)
    requires
        authorization_sliceable(value@),
    ensures
        opt_string_view(r) == token_from_authorization_spec(value@),
{
    let t = chars_of(trim_str(value));
    if t.len() >= 7 {
        let head = slice_chars(&t, 0, 7);
        let bearer = chars_of("bearer ");
        assert(head@ == t@.take(7));
        if chars_eq_ignore_case(&head, &bearer) {
            let tail = slice_chars(&t, 7, t.len());
            assert(tail@ == t@.skip(7));
            let s = string_from_chars(&tail);
            return match non_empty(Some(s.as_str())) {
                Some(x) => Some(to_owned(x)),
                None => None,
            };
        }
    }
    let s = string_from_chars(&t);
    auth_parameter(s.as_str(), "Token")
}

/// The trimmed value of the first header named `name` (ASCII case ignored)
/// whose trimmed value is not blank.
pub open spec fn header_value_spec(headers: Seq<(Seq<char>, Seq<char>)>, name: Seq<char>) -> Option<
    Seq<char>,
>
    decreases headers.len(),
{
    if headers.len() == 0 {
        None
    } else if eq_ignore_case(headers[0].0, name) && trim(headers[0].1).len() > 0 {
        Some(trim(headers[0].1))
    } else {
        header_value_spec(headers.drop_first(), name)
    }
}

/// The trimmed value of the first non-blank header called `name`.
pub fn header_value(launch: &PlaybackRequest, name: &str) -> (r: Option<String>)
    ensures
        opt_string_view(r) == header_value_spec(header_views(launch.headers@), name@),
{
    let n = chars_of(name);
    let mut i: usize = 0;
    proof {
        assert(header_views(launch.headers@).skip(0) == header_views(launch.headers@));
    }
    while i < launch.headers.len()
        invariant
            i <= launch.headers.len(),
            n@ == name@,
            header_value_spec(header_views(launch.headers@).skip(i as int), name@)
                == header_value_spec(header_views(launch.headers@), name@),
        decreases launch.headers.len() - i,
    {
        proof {
            let rest = header_views(launch.headers@).skip(i as int);
            assert(rest[0] == launch.headers@[i as int]@);
            assert(rest.drop_first() == header_views(launch.headers@).skip(i + 1));
        }
        let h = chars_of(launch.headers[i].name.as_str());
        if chars_eq_ignore_case(&h, &n) {
            let v = trim_str(launch.headers[i].value.as_str());
            if v.unicode_len() > 0 {
                return Some(to_owned(v));
            }
        }
        i = i + 1;
    }
    None
}

/// Where the reporter takes the access token from: the token headers, then
/// the `Authorization` header, then the URL query.
pub open spec fn token_from_launch_spec(launch: PlaybackRequest) -> Option<Seq<char>> {
    let hs = header_views(launch.headers@);
    if header_value_spec(hs, "X-Emby-Token"@) is Some {
        header_value_spec(hs, "X-Emby-Token"@)
    } else if header_value_spec(hs, "X-MediaBrowser-Token"@) is Some {
        header_value_spec(hs, "X-MediaBrowser-Token"@)
    } else if header_value_spec(hs, "Authorization"@) is Some
        && token_from_authorization_spec(header_value_spec(hs, "Authorization"@)->0) is Some {
        token_from_authorization_spec(header_value_spec(hs, "Authorization"@)->0)
    } else {
        auth_token_from(launch.media_url@, token_keys(), true)
    }
}

/// The access token of a launch request, from its headers or its URL.
pub fn token_from_launch(launch: &PlaybackRequest) -> (r: Option<String>)
    requires
        launch_sliceable(*launch),
    ensures
        opt_string_view(r) == token_from_launch_spec(*launch),
{
    if let Some(v) = header_value(launch, "X-Emby-Token") {
        return Some(v);
    }
    if let Some(v) = header_value(launch, "X-MediaBrowser-Token") {
        return Some(v);
    }
    if let Some(v) = header_value(launch, "Authorization") {
        if let Some(t) = token_from_authorization(v.as_str()) {
            return Some(t);
        }
    }
    query_auth_token(launch.media_url.as_str(), true)
}

/// Whether `headers` has an authorization header.
pub fn has_auth_header(headers: &Vec<HttpHeader>) -> (r: bool)
    ensures
        r == (has_name(header_views(headers@), "Authorization"@) || has_name(
            header_views(headers@),
            "X-Emby-Authorization"@,
        )),
{
    has_header(headers, "Authorization") || has_header(headers, "X-Emby-Authorization")
}

/// Whether `headers` has a token header.
pub fn has_token_header(headers: &Vec<HttpHeader>) -> (r: bool)
    ensures
        r == (has_name(header_views(headers@), "X-Emby-Token"@) || has_name(
            header_views(headers@),
            "X-MediaBrowser-Token"@,
        )),
{
    has_header(headers, "X-Emby-Token") || has_header(headers, "X-MediaBrowser-Token")
}

/// An `Authorization` value carrying only the token.
pub open spec fn minimal_authorization_spec(token: Seq<char>) -> Seq<char> {
    "MediaBrowser Token=\""@ + filtered(token, CharFilter::AuthValue) + "\""@
}

/// An `Authorization` value carrying only the token: `MediaBrowser Token="…"`.
pub fn minimal_authorization_header(token: &str) -> (r: String)
    ensures
        r@ == minimal_authorization_spec(token@),
{
    let mut out = to_owned("MediaBrowser Token=\"");
    let clean = sanitize_auth_value(token);
    crate::text::push_str(&mut out, clean.as_str());
    crate::text::push_str(&mut out, "\"");
    out
}

/// Adds a header unless its sanitized name or value is empty or a header of
/// that name (ASCII case ignored) is already there.
pub open spec fn push_unique_spec(
    headers: Seq<(Seq<char>, Seq<char>)>,
    name: Seq<char>,
    value: Seq<char>,
) -> Seq<(Seq<char>, Seq<char>)> {
    let n = filtered(name, CharFilter::HeaderName);
    let v = filtered(trim(value), CharFilter::ArgValue);
    if n.len() == 0 || v.len() == 0 || has_name(headers, n) {
        headers
    } else {
        headers.push((n, v))
    }
}

/// Adds a sanitized header unless it is empty or already present.
pub fn push_unique_header(headers: &mut Vec<HttpHeader>, name: &str, value: &str)
    ensures
        header_views(final(headers)@) == push_unique_spec(header_views(old(headers)@), name@, value@),
{
    let n = sanitize_header_name(name);
    let v = sanitize_header_value(value);
    if n.as_str().unicode_len() == 0 || v.as_str().unicode_len() == 0 || has_header(
        headers,
        n.as_str(),
    ) {
        return;
    }
    let ghost prev = headers@;
    headers.push(HttpHeader { name: n, value: v });
    proof {
        assert(header_views(headers@) == header_views(prev).push(headers@.last()@));
    }
}

/// One request header taken into the reporter's header list.
pub open spec fn auth_header_step(
    acc: Seq<(Seq<char>, Seq<char>)>,
    h: (Seq<char>, Seq<char>),
) -> Seq<(Seq<char>, Seq<char>)> {
    let name = non_empty_spec(Some(h.0));
    let value = non_empty_spec(Some(h.1));
    if name is None || !in_first(name->0, 5) || value is None {
        acc
    } else {
        push_unique_spec(acc, name->0, value->0)
    }
}

/// The request headers the reporter keeps, in order.
pub open spec fn auth_header_fold(hs: Seq<(Seq<char>, Seq<char>)>) -> Seq<(Seq<char>, Seq<char>)>
    decreases hs.len(),
{
    if hs.len() == 0 {
        Seq::empty()
    } else {
        auth_header_step(auth_header_fold(hs.drop_last()), hs.last())
    }
}

/// The headers the playstate reporter authenticates with: the forwardable
/// request headers, then a minimal `Authorization` and an `X-Emby-Token`
/// built from the launch token where those are missing.
pub open spec fn playback_auth_headers_spec(launch: PlaybackRequest) -> Seq<
    (Seq<char>, Seq<char>),
> {
    let base = auth_header_fold(header_views(launch.headers@));
    let token = non_empty_spec(token_from_launch_spec(launch));
    if token is None {
        base
    } else {
        let t = token->0;
        let with_auth = if has_name(base, "Authorization"@) || has_name(base, "X-Emby-Authorization"@) {
            base
        } else {
            push_unique_spec(base, "Authorization"@, minimal_authorization_spec(t))
        };
        if has_name(with_auth, "X-Emby-Token"@) || has_name(with_auth, "X-MediaBrowser-Token"@) {
            with_auth
        } else {
            push_unique_spec(with_auth, "X-Emby-Token"@, t)
        }
    }
}

/// The headers the playstate reporter sends for `launch`.
pub fn playback_auth_headers(launch: &PlaybackRequest) -> (r: Vec<HttpHeader>)
    requires
        launch_sliceable(*launch),
    ensures
        header_views(r@) == playback_auth_headers_spec(*launch),
{
    let token = token_from_launch(launch);
    let mut headers: Vec<HttpHeader> = Vec::new();
    let mut i: usize = 0;
    while i < launch.headers.len()
        invariant
            i <= launch.headers.len(),
            header_views(headers@) == auth_header_fold(header_views(launch.headers@).take(i as int)),
        decreases launch.headers.len() - i,
    {
        proof {
            let t = header_views(launch.headers@).take(i + 1);
            assert(t.drop_last() == header_views(launch.headers@).take(i as int));
            assert(t.last() == launch.headers@[i as int]@);
        }
        let header = &launch.headers[i];
        if let Some(name) = non_empty(Some(header.name.as_str())) {
            if is_forwardable_auth_header(name) {
                if let Some(value) = non_empty(Some(header.value.as_str())) {
                    push_unique_header(&mut headers, name, value);
                }
            }
        }
        i = i + 1;
    }
    proof {
        assert(header_views(launch.headers@).take(launch.headers.len() as int) == header_views(
            launch.headers@,
        ));
    }
    let tref = match &token {
        Some(t) => Some(t.as_str()),
        None => None,
    };
    if let Some(t) = non_empty(tref) {
        if !has_auth_header(&headers) {
            let auth = minimal_authorization_header(t);
            push_unique_header(&mut headers, "Authorization", auth.as_str());
        }
        if !has_token_header(&headers) {
            push_unique_header(&mut headers, "X-Emby-Token", t);
        }
    }
    headers
}

// ---------------------------------------------------------------------------
// Header names stay distinct
// ---------------------------------------------------------------------------

/// No two headers share a name, ASCII case ignored.
pub open spec fn distinct_names(headers: Seq<(Seq<char>, Seq<char>)>) -> bool {
    forall|i: int, j: int| 0 <= i < j < headers.len() ==> !eq_ignore_case(#[trigger] headers[i].0, #[trigger] headers[j].0)
}

/// Adding a header whose name is new keeps the names distinct.
proof fn lemma_push_new_name(acc: Seq<(Seq<char>, Seq<char>)>, h: (Seq<char>, Seq<char>))
    requires
        distinct_names(acc),
        !has_name(acc, h.0),
    ensures
        distinct_names(acc.push(h)),
{
    let r = acc.push(h);
    assert forall|i: int, j: int| 0 <= i < j < r.len() implies !eq_ignore_case(#[trigger] r[i].0, #[trigger] r[j].0) by {
        assert(r[i] == acc[i]);
        if j == acc.len() {
            assert(r[j] == h);
            if eq_ignore_case(acc[i].0, h.0) {
                assert(has_name(acc, h.0));
            }
        } else {
            assert(r[j] == acc[j]);
        }
    }
}

/// The mpv header list never names a header twice.
proof fn lemma_mpv_fold_distinct(hs: Seq<(Seq<char>, Seq<char>)>)
    ensures
        distinct_names(mpv_header_fold(hs)),
    decreases hs.len(),
{
    if hs.len() > 0 {
        lemma_mpv_fold_distinct(hs.drop_last());
        let acc = mpv_header_fold(hs.drop_last());
        let h = hs.last();
        let name = filtered(h.0, CharFilter::HeaderName);
        let value = filtered(trim(h.1), CharFilter::ArgValue);
        if !(name.len() == 0 || value.len() == 0 || !in_first(name, 8) || has_name(acc, name)) {
            lemma_push_new_name(acc, (name, value));
        }
    }
}

/// The reporter's header fold never names a header twice.
proof fn lemma_auth_fold_distinct(hs: Seq<(Seq<char>, Seq<char>)>)
    ensures
        distinct_names(auth_header_fold(hs)),
    decreases hs.len(),
{
    if hs.len() > 0 {
        lemma_auth_fold_distinct(hs.drop_last());
        let acc = auth_header_fold(hs.drop_last());
        let h = hs.last();
        let name = non_empty_spec(Some(h.0));
        let value = non_empty_spec(Some(h.1));
        if !(name is None || !in_first(name->0, 5) || value is None) {
            lemma_push_unique_distinct(acc, name->0, value->0);
        }
    }
}

/// `push_unique_spec` keeps names distinct.
proof fn lemma_push_unique_distinct(acc: Seq<(Seq<char>, Seq<char>)>, name: Seq<char>, value: Seq<char>)
    requires
        distinct_names(acc),
    ensures
        distinct_names(push_unique_spec(acc, name, value)),
{
    let n = filtered(name, CharFilter::HeaderName);
    let v = filtered(trim(value), CharFilter::ArgValue);
    if !(n.len() == 0 || v.len() == 0 || has_name(acc, n)) {
        lemma_push_new_name(acc, (n, v));
    }
}

/// The headers handed to mpv, and those the playstate reporter sends, never
/// name a header twice, ASCII case ignored.
pub proof fn law_header_names_distinct(launch: PlaybackRequest, trim_token: bool)
    ensures
        distinct_names(mpv_headers_spec(launch, trim_token)),
        distinct_names(playback_auth_headers_spec(launch)),
{
    let base = mpv_header_fold(header_views(launch.headers@));
    lemma_mpv_fold_distinct(header_views(launch.headers@));
    let token = auth_token_from(launch.media_url@, token_keys(), false);
    if !(has_name(base, "X-Emby-Token"@) || token is None) {
        let value = filtered(
            if trim_token {
                trim(token->0)
            } else {
                token->0
            },
            CharFilter::ArgValue,
        );
        if value.len() > 0 {
            lemma_push_new_name(base, ("X-Emby-Token"@, value));
        }
    }
    let abase = auth_header_fold(header_views(launch.headers@));
    lemma_auth_fold_distinct(header_views(launch.headers@));
    let t = non_empty_spec(token_from_launch_spec(launch));
    if t is Some {
        let with_auth = if has_name(abase, "Authorization"@) || has_name(abase, "X-Emby-Authorization"@) {
            abase
        } else {
            push_unique_spec(abase, "Authorization"@, minimal_authorization_spec(t->0))
        };
        lemma_push_unique_distinct(abase, "Authorization"@, minimal_authorization_spec(t->0));
        lemma_push_unique_distinct(with_auth, "X-Emby-Token"@, t->0);
    }
}

} // verus!

//! URL query handling: percent decoding, token lookup, redaction and
//! rewriting of media URLs.
use vstd::prelude::*;
use vstd::string::*;
use vstd::utf8::*;

use crate::text::{
    append_chars, before, chars_eq_ignore_case, chars_of, eq_ignore_case, find, join, join_chars,
    lacks, lemma_filter_keeps_all, lemma_join_lacks, lemma_lacks_no_pos, lemma_pos_of,
    lemma_pos_of_at, lemma_pos_of_concat, lemma_split_join, lemma_split_lacks,
    lemma_split_pieces_lack_sep, opt_string_view, pos_of, push_char, push_chars, slice_chars, split,
    split2, split2_chars, split_once, string_from_chars, to_owned, trim, trim_str, views,
};

verus! {

// ---------------------------------------------------------------------------
// Percent decoding
// ---------------------------------------------------------------------------

/// The value of an ASCII hexadecimal digit.
pub open spec fn hex_spec(b: u8) -> Option<u8> {
    if 0x30 <= b && b <= 0x39 {
        Some((b - 0x30) as u8)
    } else if 0x61 <= b && b <= 0x66 {
        Some((b - 0x61 + 10) as u8)
    } else if 0x41 <= b && b <= 0x46 {
        Some((b - 0x41 + 10) as u8)
    } else {
        None
    }
}

/// The value of an ASCII hexadecimal digit, or `None` for any other byte.
pub fn hex_value(byte: u8) -> (r: Option<u8>)
    ensures
        r == hex_spec(byte),
{
    if 0x30 <= byte && byte <= 0x39 {
        Some(byte - 0x30)
    } else if 0x61 <= byte && byte <= 0x66 {
        Some(byte - 0x61 + 10)
    } else if 0x41 <= byte && byte <= 0x46 {
        Some(byte - 0x41 + 10)
    } else {
        None
    }
}

/// `%XX` escapes and `+` decoded at the byte level; everything else kept.
pub open spec fn pct_bytes(b: Seq<u8>) -> Seq<u8>
    decreases b.len(),
{
    if b.len() == 0 {
        Seq::empty()
    } else if b[0] == 0x25u8 && b.len() > 2 && hex_spec(b[1]) is Some && hex_spec(b[2]) is Some {
        seq![(hex_spec(b[1])->0 * 16 + hex_spec(b[2])->0) as u8] + pct_bytes(b.skip(3))
    } else if b[0] == 0x2Bu8 {
        seq![0x20u8] + pct_bytes(b.skip(1))
    } else {
        seq![b[0]] + pct_bytes(b.skip(1))
    }
}

/// What `String::from_utf8_lossy` makes of a byte sequence.
pub uninterp spec fn utf8_lossy(bytes: Seq<u8>) -> Seq<char>;

/// `String::from_utf8_lossy`: the text encoded by `bytes`, with each invalid
/// sequence replaced by U+FFFD. Claimed: the result is `utf8_lossy` of the
/// bytes, and for valid UTF-8 it is exactly the decoded text (the function's
/// documentation: valid input is returned unchanged). The replacement rule for
/// invalid input is left to the name.
#[verifier::external_body]
fn decode_utf8_lossy(bytes: &Vec<u8>) -> (s: String)
    ensures
        s@ == utf8_lossy(bytes@),
        valid_utf8(bytes@) ==> s@ == decode_utf8(bytes@),
{
    String::from_utf8_lossy(bytes).into_owned()
}

/// Percent-decoding of the UTF-8 encoding of `s`, read back lossily.
pub open spec fn percent_decode_spec(s: Seq<char>) -> Seq<char> {
    utf8_lossy(pct_bytes(encode_utf8(s)))
}

/// Decodes `%XX` escapes and `+` (as a space) in a URL component. Escapes
/// that are cut short or not hexadecimal are kept as they are.
pub fn percent_decode(input: &str) -> (r: String)
    ensures
        r@ == percent_decode_spec(input@),
{
    let bytes = input.as_bytes();
    let mut out: Vec<u8> = Vec::new();
    let mut i: usize = 0;
    proof {
        assert(bytes@.skip(0) == bytes@);
    }
    while i < bytes.len()
        invariant
            i <= bytes@.len(),
            bytes@ == encode_utf8(input@),
            out@ + pct_bytes(bytes@.skip(i as int)) == pct_bytes(bytes@),
        decreases bytes.len() - i,
    {
        let ghost rest = bytes@.skip(i as int);
        if bytes[i] == 0x25 && bytes.len() - i > 2 {
            let hi = hex_value(bytes[i + 1]);
            let lo = hex_value(bytes[i + 2]);
            if let (Some(h), Some(l)) = (hi, lo) {
                proof {
                    assert(rest[1] == bytes@[i + 1]);
                    assert(rest[2] == bytes@[i + 2]);
                    assert(rest.skip(3) == bytes@.skip(i + 3));
                    assert(h * 16 + l < 256) by (nonlinear_arith)
                        requires h < 16, l < 16;
                }
                let ghost old_out = out@;
                out.push(h * 16 + l);
                proof {
                    assert(out@ == old_out + seq![(h * 16 + l) as u8]);
                }
                i = i + 3;
                continue;
            }
        }
        let ghost old_out = out@;
        if bytes[i] == 0x2B {
            out.push(0x20);
        } else {
            out.push(bytes[i]);
        }
        proof {
            assert(rest.skip(1) == bytes@.skip(i + 1));
            assert(out@ == old_out + seq![out@.last()]);
        }
        i = i + 1;
    }
    proof {
        assert(bytes@.skip(i as int) == Seq::<u8>::empty());
        assert(out@ + Seq::<u8>::empty() == out@);
    }
    decode_utf8_lossy(&out)
}

// ---------------------------------------------------------------------------
// Query structure
// ---------------------------------------------------------------------------

/// The query of `url`: the text after the first `?` up to the first `#`.
pub open spec fn query_part(url: Seq<char>) -> Option<Seq<char>> {
    match split_once(url, '?') {
        None => None,
        Some((_, rest)) => Some(before(rest, '#')),
    }
}

/// The `key=value` pairs of a query.
pub open spec fn query_pairs(query: Seq<char>) -> Seq<Seq<char>> {
    split(query, '&')
}

/// `url.split('#').next()`: the URL without its fragment.
pub open spec fn without_fragment(url: Seq<char>) -> Seq<char> {
    before(url, '#')
}

/// The value of the first pair whose percent-decoded key is `key` (ASCII case
/// ignored), percent-decoded. With `skip_blank`, pairs whose decoded value is
/// blank are passed over.
pub open spec fn param_in_pairs(pairs: Seq<Seq<char>>, key: Seq<char>, skip_blank: bool) -> Option<
    Seq<char>,
>
    decreases pairs.len(),
{
    if pairs.len() == 0 {
        None
    } else {
        match split_once(pairs[0], '=') {
            Some((k, v)) => if eq_ignore_case(percent_decode_spec(k), key) && !(skip_blank && trim(
                percent_decode_spec(v),
            ).len() == 0) {
                Some(percent_decode_spec(v))
            } else {
                param_in_pairs(pairs.drop_first(), key, skip_blank)
            },
            None => param_in_pairs(pairs.drop_first(), key, skip_blank),
        }
    }
}

/// The decoded value of query parameter `key` in `url`.
pub open spec fn query_param_spec(url: Seq<char>, key: Seq<char>, skip_blank: bool) -> Option<
    Seq<char>,
> {
    match query_part(url) {
        None => None,
        Some(q) => param_in_pairs(query_pairs(q), key, skip_blank),
    }
}

/// `split_once` on a vector of characters.
pub fn split_once_chars(v: &Vec<char>, c: char) -> (r: Option<(Vec<char>, Vec<char>)>)
    ensures
        match r {
            Some((a, b)) => split_once(v@, c) == Some((a@, b@)),
            None => split_once(v@, c) is None,
        },
{
    match find(v, c) {
        Some(p) => {
            let a = slice_chars(v, 0, p);
            let b = slice_chars(v, p + 1, v.len());
            proof {
                assert(a@ == v@.take(p as int));
                assert(b@ == v@.skip(p + 1));
            }
            Some((a, b))
        },
        None => None,
    }
}

/// The text before the first `c` in `v`.
pub fn before_chars(v: &Vec<char>, c: char) -> (r: Vec<char>)
    ensures
        r@ == before(v@, c),
{
    match find(v, c) {
        Some(p) => {
            let a = slice_chars(v, 0, p);
            assert(a@ == v@.take(p as int));
            a
        },
        None => v.clone(),
    }
}

/// The query of `url`, if it has one.
pub fn query_of(url: &Vec<char>) -> (r: Option<Vec<char>>)
    ensures
        match r {
            Some(q) => query_part(url@) == Some(q@),
            None => query_part(url@) is None,
        },
{
    match split_once_chars(url, '?') {
        Some((_, rest)) => Some(before_chars(&rest, '#')),
        None => None,
    }
}

/// The value of query parameter `key` (ASCII case ignored, after percent
/// decoding) in `url`, percent-decoded. With `skip_blank`, a blank value does
/// not count as found.
pub fn query_param_ci(url: &str, key: &str, skip_blank: bool) -> (r: Option<String>)
    ensures
        opt_string_view(r) == query_param_spec(url@, key@, skip_blank),
{
    let u = chars_of(url);
    let query = match query_of(&u) {
        Some(q) => q,
        None => return None,
    };
    let pairs = split2_chars(&query, '&', '&');
    let key_chars = chars_of(key);
    let mut i: usize = 0;
    proof {
        assert(views(pairs@).skip(0) == views(pairs@));
    }
    while i < pairs.len()
        invariant
            i <= pairs.len(),
            views(pairs@) == query_pairs(query@),
            query_part(u@) == Some(query@),
            u@ == url@,
            key_chars@ == key@,
            param_in_pairs(views(pairs@).skip(i as int), key@, skip_blank) == query_param_spec(
                url@,
                key@,
                skip_blank,
            ),
        decreases pairs.len() - i,
    {
        let ghost rest = views(pairs@).skip(i as int);
        proof {
            assert(rest[0] == pairs@[i as int]@);
            assert(rest.drop_first() == views(pairs@).skip(i + 1));
        }
        if let Some((k, v)) = split_once_chars(&pairs[i], '=') {
            let ks = string_from_chars(&k);
            let vs = string_from_chars(&v);
            let dk = percent_decode(ks.as_str());
            let dk_chars = chars_of(dk.as_str());
            if chars_eq_ignore_case(&dk_chars, &key_chars) {
                let dv = percent_decode(vs.as_str());
                let blank = trim_str(dv.as_str()).unicode_len() == 0;
                if !(skip_blank && blank) {
                    return Some(dv);
                }
            }
        }
        i = i + 1;
    }
    None
}

// ---------------------------------------------------------------------------
// Access tokens in queries
// ---------------------------------------------------------------------------

/// Query parameter names Jellyfin accepts an access token under, compared
/// ASCII case-insensitively.
pub open spec fn token_keys() -> Seq<Seq<char>> {
    seq![
        "api_key"@,
        "apikey"@,
        "access_token"@,
        "accesstoken"@,
        "x-emby-token"@,
        "x-mediabrowser-token"@,
    ]
}

/// The `i`-th token query key.
pub fn token_key(i: usize) -> (r: &'static str)
    requires
        i < 6,
    ensures
        r@ == token_keys()[i as int],
{
    match i {
        0 => "api_key",
        1 => "apikey",
        2 => "access_token",
        3 => "accesstoken",
        4 => "x-emby-token",
        _ => "x-mediabrowser-token",
    }
}

/// The first token key (in `token_keys` order) that `url` carries, decoded.
pub open spec fn auth_token_from(url: Seq<char>, keys: Seq<Seq<char>>, skip_blank: bool) -> Option<
    Seq<char>,
>
    decreases keys.len(),
{
    if keys.len() == 0 {
        None
    } else {
        match query_param_spec(url, keys[0], skip_blank) {
            Some(v) => Some(v),
            None => auth_token_from(url, keys.drop_first(), skip_blank),
        }
    }
}

/// The access token a URL carries in its query, trying each token key in turn.
pub fn query_auth_token(url: &str, skip_blank: bool) -> (r: Option<String>)
    ensures
        opt_string_view(r) == auth_token_from(url@, token_keys(), skip_blank),
{
    let mut i: usize = 0;
    proof {
        assert(token_keys().skip(0) == token_keys());
    }
    while i < 6
        invariant
            i <= 6,
            auth_token_from(url@, token_keys().skip(i as int), skip_blank) == auth_token_from(
                url@,
                token_keys(),
                skip_blank,
            ),
        decreases 6 - i,
    {
        proof {
            assert(token_keys().skip(i as int)[0] == token_keys()[i as int]);
            assert(token_keys().skip(i as int).drop_first() == token_keys().skip(i + 1));
        }
        let found = query_param_ci(url, token_key(i), skip_blank);
        if found.is_some() {
            return found;
        }
        i = i + 1;
    }
    None
}

/// Whether the key of `pair` (text before its first `=`) is a token key.
pub open spec fn is_token_pair(pair: Seq<char>) -> bool {
    exists|j: int| 0 <= j < 6 && eq_ignore_case(#[trigger] before(pair, '='), token_keys()[j])
}

/// The token query keys as a list.
pub fn token_key_list() -> (r: Vec<&'static str>)
    ensures
        str_views(r@) == token_keys(),
{
    let mut r: Vec<&'static str> = Vec::new();
    let mut i: usize = 0;
    while i < 6
        invariant
            i <= 6,
            r@.len() == i,
            forall|j: int| 0 <= j < i ==> (#[trigger] r@[j])@ == token_keys()[j],
        decreases 6 - i,
    {
        r.push(token_key(i));
        i = i + 1;
    }
    assert(str_views(r@) =~= token_keys());
    r
}

/// Whether the key of a pair, as given, is one of the token keys.
pub fn is_token_key(key: &Vec<char>) -> (r: bool)
    ensures
        r == exists|j: int| 0 <= j < 6 && eq_ignore_case(key@, #[trigger] token_keys()[j]),
{
    let mut i: usize = 0;
    while i < 6
        invariant
            i <= 6,
            forall|j: int| 0 <= j < i ==> !eq_ignore_case(key@, #[trigger] token_keys()[j]),
        decreases 6 - i,
    {
        let k = chars_of(token_key(i));
        if chars_eq_ignore_case(key, &k) {
            return true;
        }
        i = i + 1;
    }
    false
}

/// `url` has a token in its query: some piece after the first `?`, split at
/// `&` and `#`, has a token key.
pub open spec fn url_has_token_spec(url: Seq<char>) -> bool {
    match split_once(url, '?') {
        None => false,
        Some((_, rest)) => exists|i: int|
            0 <= i < split2(rest, '&', '#').len() && is_token_pair(
                #[trigger] split2(rest, '&', '#')[i],
            ),
    }
}

/// Whether the URL query already carries an access token.
pub fn url_has_token(url: &str) -> (r: bool)
    ensures
        r == url_has_token_spec(url@),
{
    let u = chars_of(url);
    let rest = match split_once_chars(&u, '?') {
        Some((_, rest)) => rest,
        None => return false,
    };
    let pairs = split2_chars(&rest, '&', '#');
    let mut i: usize = 0;
    while i < pairs.len()
        invariant
            i <= pairs.len(),
            views(pairs@) == split2(rest@, '&', '#'),
            split_once(url@, '?') matches Some((_, r)) && r == rest@,
            forall|j: int| 0 <= j < i ==> !is_token_pair(#[trigger] views(pairs@)[j]),
        decreases pairs.len() - i,
    {
        let key = before_chars(&pairs[i], '=');
        let hit = is_token_key(&key);
        assert(views(pairs@)[i as int] == pairs@[i as int]@);
        if hit {
            return true;
        }
        i = i + 1;
    }
    false
}

// ---------------------------------------------------------------------------
// Query keys: presence and removal
// ---------------------------------------------------------------------------

/// Whether the query of `url` has a pair whose raw key is `key` (ASCII case
/// ignored).
pub open spec fn query_has_key_spec(url: Seq<char>, key: Seq<char>) -> bool {
    match query_part(url) {
        None => false,
        Some(q) => pairs_have_key(query_pairs(q), key),
    }
}

/// Some pair of `pairs` has the raw key `key` (ASCII case ignored).
pub open spec fn pairs_have_key(pairs: Seq<Seq<char>>, key: Seq<char>) -> bool {
    exists|i: int| 0 <= i < pairs.len() && eq_ignore_case(before(#[trigger] pairs[i], '='), key)
}

/// Whether the query of `url` has the key `key`, ignoring ASCII case.
pub fn query_has_key(url: &str, key: &str) -> (r: bool)
    ensures
        r == query_has_key_spec(url@, key@),
{
    let u = chars_of(url);
    let k = chars_of(key);
    let query = match query_of(&u) {
        Some(q) => q,
        None => return false,
    };
    let pairs = split2_chars(&query, '&', '&');
    let mut i: usize = 0;
    while i < pairs.len()
        invariant
            i <= pairs.len(),
            views(pairs@) == query_pairs(query@),
            query_part(url@) == Some(query@),
            k@ == key@,
            forall|j: int|
                0 <= j < i ==> !eq_ignore_case(before(#[trigger] views(pairs@)[j], '='), key@),
        decreases pairs.len() - i,
    {
        let pk = before_chars(&pairs[i], '=');
        assert(views(pairs@)[i as int] == pairs@[i as int]@);
        if chars_eq_ignore_case(&pk, &k) {
            proof {
                let q = query@;
                assert(0 <= i < query_pairs(q).len() && eq_ignore_case(before(query_pairs(q)[i as int], '='), key@));
                assert(pairs_have_key(query_pairs(q), key@));
            }
            return true;
        }
        i = i + 1;
    }
    false
}

/// The texts of a list of string slices.
pub open spec fn str_views(keys: Seq<&str>) -> Seq<Seq<char>> {
    keys.map_values(|k: &str| k@)
}

/// Whether `key` is one of `keys`, ignoring ASCII case.
pub open spec fn key_listed(key: Seq<char>, keys: Seq<Seq<char>>) -> bool {
    exists|j: int| 0 <= j < keys.len() && eq_ignore_case(key, #[trigger] keys[j])
}

/// Whether `key` is one of `keys`, ignoring ASCII case.
pub fn is_listed(key: &Vec<char>, keys: &[&str]) -> (r: bool)
    ensures
        r == key_listed(key@, str_views(keys@)),
{
    let mut i: usize = 0;
    while i < keys.len()
        invariant
            i <= keys@.len(),
            forall|j: int| 0 <= j < i ==> !eq_ignore_case(key@, #[trigger] str_views(keys@)[j]),
        decreases keys.len() - i,
    {
        let k = chars_of(keys[i]);
        if chars_eq_ignore_case(key, &k) {
            assert(eq_ignore_case(key@, str_views(keys@)[i as int]));
            return true;
        }
        i = i + 1;
    }
    false
}

/// The pairs of `pairs` whose raw key is not in `keys`.
pub open spec fn kept_pairs(pairs: Seq<Seq<char>>, keys: Seq<Seq<char>>) -> Seq<Seq<char>> {
    pairs.filter(|pair: Seq<char>| !key_listed(before(pair, '='), keys))
}

/// `url` with every query pair whose key is in `keys` removed; the `?` goes
/// when nothing is left, the fragment stays.
pub open spec fn remove_query_keys_spec(url: Seq<char>, keys: Seq<Seq<char>>) -> Seq<char> {
    match split_once(url, '?') {
        None => url,
        Some((head, rest)) => {
            let query = before(rest, '#');
            let kept = kept_pairs(query_pairs(query), keys);
            let with_query = if kept.len() == 0 {
                head
            } else {
                head + seq!['?'] + join(kept, seq!['&'])
            };
            match split_once(rest, '#') {
                Some((_, fragment)) => with_query + seq!['#'] + fragment,
                None => with_query,
            }
        },
    }
}

/// Drops the query pairs whose key is in `keys` (ASCII case ignored), keeping
/// the order of the others and the fragment.
pub fn remove_query_keys(url: &str, keys: &[&str]) -> (r: String)
    ensures
        r@ == remove_query_keys_spec(url@, str_views(keys@)),
{
    let u = chars_of(url);
    let (head, rest) = match split_once_chars(&u, '?') {
        Some(parts) => parts,
        None => return to_owned(url),
    };
    let query = before_chars(&rest, '#');
    let pairs = split2_chars(&query, '&', '&');
    let mut kept: Vec<Vec<char>> = Vec::new();
    let mut i: usize = 0;
    let ghost keep = |pair: Seq<char>| !key_listed(before(pair, '='), str_views(keys@));
    proof {
        assert(views(pairs@).take(0).filter(keep) == Seq::<Seq<char>>::empty());
    }
    while i < pairs.len()
        invariant
            i <= pairs.len(),
            keep == (|pair: Seq<char>| !key_listed(before(pair, '='), str_views(keys@))),
            views(kept@) == views(pairs@).take(i as int).filter(keep),
        decreases pairs.len() - i,
    {
        let key = before_chars(&pairs[i], '=');
        let listed = is_listed(&key, keys);
        proof {
            let t = views(pairs@).take(i + 1);
            assert(t.drop_last() == views(pairs@).take(i as int));
            assert(t.last() == pairs@[i as int]@);
            reveal_with_fuel(Seq::filter, 1);
        }
        if !listed {
            let ghost prev = kept@;
            kept.push(pairs[i].clone());
            proof {
                assert(views(kept@) == views(prev).push(pairs@[i as int]@));
            }
        }
        i = i + 1;
    }
    proof {
        assert(views(pairs@).take(pairs.len() as int) == views(pairs@));
    }
    let mut out = string_from_chars(&head);
    if kept.len() > 0 {
        push_char(&mut out, '?');
        let amp: Vec<char> = vec!['&'];
        let joined = join_chars(&kept, &amp);
        push_chars(&mut out, &joined);
        proof {
            assert(amp@ == seq!['&']);
        }
    }
    if let Some((_, fragment)) = split_once_chars(&rest, '#') {
        push_char(&mut out, '#');
        push_chars(&mut out, &fragment);
    }
    proof {
        assert(seq!['?'] =~= Seq::<char>::empty().push('?'));
        assert(seq!['#'] =~= Seq::<char>::empty().push('#'));
    }
    out
}

/// The kept pairs of a query hold none of the characters the query lacks,
/// nor the pair separator, and each is kept.
proof fn lemma_kept_pairs_facts(query: Seq<char>, keys: Seq<Seq<char>>)
    requires
        lacks(query, '#'),
        lacks(query, '?'),
    ensures
        forall|k: int| 0 <= k < kept_pairs(query_pairs(query), keys).len() ==> {
            let pair = #[trigger] kept_pairs(query_pairs(query), keys)[k];
            &&& lacks(pair, '#')
            &&& lacks(pair, '?')
            &&& lacks(pair, '&')
            &&& !key_listed(before(pair, '='), keys)
        },
{
    let pairs = query_pairs(query);
    let keep = |pair: Seq<char>| !key_listed(before(pair, '='), keys);
    let kept = kept_pairs(pairs, keys);
    lemma_split_lacks(query, '&', '#');
    lemma_split_lacks(query, '&', '?');
    lemma_split_pieces_lack_sep(query, '&');
    assert forall|k: int| 0 <= k < kept.len() implies {
        let pair = #[trigger] kept[k];
        &&& lacks(pair, '#')
        &&& lacks(pair, '?')
        &&& lacks(pair, '&')
        &&& !key_listed(before(pair, '='), keys)
    } by {
        assert(kept.contains(kept[k]));
        pairs.lemma_filter_contains_rev(keep, kept[k]);
        pairs.lemma_filter_pred(keep, k);
        let w = choose|w: int| 0 <= w < pairs.len() && pairs[w] == kept[k];
        assert(lacks(pairs[w], '#'));
        assert(lacks(pairs[w], '?'));
        assert(lacks(pairs[w], '&'));
    }
}

/// Removing query keys a second time changes nothing, for a URL with at
/// most one `?`.
pub proof fn law_remove_query_keys_idempotent(url: Seq<char>, keys: Seq<Seq<char>>)
    requires
        forall|i: int, j: int|
            0 <= i < url.len() && 0 <= j < url.len() && #[trigger] url[i] == '?' && #[trigger] url[j] == '?'
                ==> i == j,
    ensures
        remove_query_keys_spec(remove_query_keys_spec(url, keys), keys) == remove_query_keys_spec(url, keys),
{
    match split_once(url, '?') {
        None => {},
        Some((head, rest)) => {
            let p = pos_of(url, '?', '?');
            lemma_pos_of(url, '?', '?');
            assert(lacks(head, '?')) by {
                assert forall|i: int| 0 <= i < head.len() implies #[trigger] head[i] != '?' by {
                    assert(head[i] == url[i]);
                }
            }
            assert(lacks(rest, '?')) by {
                assert forall|i: int| 0 <= i < rest.len() implies #[trigger] rest[i] != '?' by {
                    assert(rest[i] == url[p + 1 + i]);
                    if url[p + 1 + i] == '?' {
                        assert(url[p] == '?');
                    }
                }
            }
            let q = pos_of(rest, '#', '#');
            lemma_pos_of(rest, '#', '#');
            let query = before(rest, '#');
            assert(lacks(query, '#') && lacks(query, '?')) by {
                assert forall|i: int| 0 <= i < query.len() implies #[trigger] query[i] != '#' && query[i] != '?' by {
                    assert(query[i] == rest[i]);
                }
            }
            let kept = kept_pairs(query_pairs(query), keys);
            lemma_kept_pairs_facts(query, keys);
            let fragment = match split_once(rest, '#') {
                Some((_, f)) => Some(f),
                None => None,
            };
            assert(fragment matches Some(f) ==> lacks(f, '?')) by {
                if q >= 0 {
                    let f = rest.skip(q + 1);
                    assert forall|i: int| 0 <= i < f.len() implies #[trigger] f[i] != '?' by {
                        assert(f[i] == rest[q + 1 + i]);
                    }
                }
            }
            let r = remove_query_keys_spec(url, keys);
            if kept.len() == 0 {
                assert(lacks(r, '?')) by {
                    if let Some(f) = fragment {
                        assert forall|i: int| 0 <= i < r.len() implies #[trigger] r[i] != '?' by {
                            if i < head.len() {
                                assert(r[i] == head[i]);
                            } else if i > head.len() {
                                assert(r[i] == f[i - head.len() - 1]);
                            }
                        }
                    }
                }
                lemma_lacks_no_pos(r, '?');
            } else {
                let amp = seq!['&'];
                assert(lacks(amp, '#') && lacks(amp, '?')) by {
                    assert forall|i: int| 0 <= i < amp.len() implies #[trigger] amp[i] != '#' && amp[i] != '?' by {
                        assert(amp[i] == '&');
                    }
                }
                assert forall|k: int| 0 <= k < kept.len() implies lacks(#[trigger] kept[k], '#') by {}
                assert forall|k: int| 0 <= k < kept.len() implies lacks(#[trigger] kept[k], '?') by {}
                assert forall|k: int| 0 <= k < kept.len() implies lacks(#[trigger] kept[k], '&') by {}
                lemma_join_lacks(kept, amp, '#');
                lemma_join_lacks(kept, amp, '?');
                let joined = join(kept, amp);
                let tail = match fragment {
                    Some(f) => joined + seq!['#'] + f,
                    None => joined,
                };
                assert(lacks(tail, '?')) by {
                    if let Some(f) = fragment {
                        assert forall|i: int| 0 <= i < tail.len() implies #[trigger] tail[i] != '?' by {
                            if i < joined.len() {
                                assert(tail[i] == joined[i]);
                            } else if i > joined.len() {
                                assert(tail[i] == f[i - joined.len() - 1]);
                            }
                        }
                    }
                }
                assert(r =~= head + (seq!['?'] + tail));
                lemma_pos_of_at(seq!['?'] + tail, '?', '?', 0);
                lemma_pos_of_concat(head, seq!['?'] + tail, '?', '?');
                assert(r.take(head.len() as int) =~= head);
                assert(r.skip(head.len() as int + 1) =~= tail);
                match fragment {
                    Some(f) => {
                        lemma_pos_of_at(seq!['#'] + f, '#', '#', 0);
                        assert(tail =~= joined + (seq!['#'] + f));
                        lemma_pos_of_concat(joined, seq!['#'] + f, '#', '#');
                        assert(tail.take(joined.len() as int) =~= joined);
                        assert(tail.skip(joined.len() as int + 1) =~= f);
                    },
                    None => {
                        lemma_lacks_no_pos(joined, '#');
                    },
                }
                assert(before(tail, '#') == joined);
                lemma_split_join(kept, '&');
                assert(query_pairs(joined) == kept);
                lemma_filter_keeps_all(kept, |pair: Seq<char>| !key_listed(before(pair, '='), keys));
                assert(kept_pairs(kept, keys) == kept);
            }
        },
    }
}

// ---------------------------------------------------------------------------
// Redaction
// ---------------------------------------------------------------------------

/// A query pair with its value replaced by `REDACTED` when its decoded key is
/// one of `keys`.
pub open spec fn redact_pair(pair: Seq<char>, keys: Seq<Seq<char>>) -> Seq<char> {
    match split_once(pair, '=') {
        None => pair,
        Some((raw_key, _)) => if key_listed(percent_decode_spec(raw_key), keys) {
            raw_key + "=REDACTED"@
        } else {
            pair
        },
    }
}

/// `url` with the values of the query parameters named in `keys` replaced.
pub open spec fn redact_spec(url: Seq<char>, keys: Seq<Seq<char>>) -> Seq<char> {
    match split_once(url, '?') {
        None => url,
        Some((head, rest)) => {
            let (query, fragment) = match split_once(rest, '#') {
                Some((q, f)) => (q, Some(f)),
                None => (rest, None),
            };
            let redacted = join(query_pairs(query).map_values(|p: Seq<char>| redact_pair(p, keys)), seq!['&']);
            match fragment {
                Some(f) => head + seq!['?'] + redacted + seq!['#'] + f,
                None => head + seq!['?'] + redacted,
            }
        },
    }
}

/// Replaces the values of the query parameters named in `keys` (compared
/// after percent decoding, ASCII case ignored) with `REDACTED`.
pub fn redact_url_query_value(url: &str, keys: &[&str]) -> (r: String)
    ensures
        r@ == redact_spec(url@, str_views(keys@)),
{
    let u = chars_of(url);
    let (head, rest) = match split_once_chars(&u, '?') {
        Some(parts) => parts,
        None => return to_owned(url),
    };
    let (query, fragment) = match split_once_chars(&rest, '#') {
        Some((q, f)) => (q, Some(f)),
        None => (rest.clone(), None),
    };
    let pairs = split2_chars(&query, '&', '&');
    let mut redacted: Vec<Vec<char>> = Vec::new();
    let mut i: usize = 0;
    let ghost f = |p: Seq<char>| redact_pair(p, str_views(keys@));
    while i < pairs.len()
        invariant
            i <= pairs.len(),
            f == (|p: Seq<char>| redact_pair(p, str_views(keys@))),
            views(redacted@) == views(pairs@).take(i as int).map_values(f),
        decreases pairs.len() - i,
    {
        let pair = &pairs[i];
        let piece = match split_once_chars(pair, '=') {
            None => pair.clone(),
            Some((raw_key, _)) => {
                let rk = string_from_chars(&raw_key);
                let decoded = percent_decode(rk.as_str());
                let dchars = chars_of(decoded.as_str());
                if is_listed(&dchars, keys) {
                    let mut p = raw_key.clone();
                    let tail = chars_of("=REDACTED");
                    append_chars(&mut p, &tail);
                    p
                } else {
                    pair.clone()
                }
            },
        };
        proof {
            assert(piece@ == redact_pair(pairs@[i as int]@, str_views(keys@)));
        }
        let ghost prev = redacted@;
        redacted.push(piece);
        proof {
            assert(views(redacted@) == views(prev).push(piece@));
            assert(views(pairs@).take(i + 1) == views(pairs@).take(i as int).push(pairs@[i as int]@));
        }
        i = i + 1;
    }
    proof {
        assert(views(pairs@).take(pairs.len() as int) == views(pairs@));
    }
    let amp: Vec<char> = vec!['&'];
    let joined = join_chars(&redacted, &amp);
    let mut out = string_from_chars(&head);
    push_char(&mut out, '?');
    push_chars(&mut out, &joined);
    if let Some(frag) = fragment {
        push_char(&mut out, '#');
        push_chars(&mut out, &frag);
    }
    proof {
        assert(amp@ == seq!['&']);
        assert(seq!['?'] =~= Seq::<char>::empty().push('?'));
        assert(seq!['#'] =~= Seq::<char>::empty().push('#'));
    }
    out
}

// ---------------------------------------------------------------------------
// Media URL pieces
// ---------------------------------------------------------------------------

/// The media URL without its fragment.
pub fn media_url_without_fragment(url: &str) -> (r: String)
    ensures
        r@ == without_fragment(url@),
{
    let u = chars_of(url);
    let b = before_chars(&u, '#');
    string_from_chars(&b)
}

} // verus!

//! Character-level text helpers shared by the URL, header and protocol code.
//!
//! Text is modelled as `Seq<char>` (the view of `str` and `String`). The
//! helpers here give the handful of `str` operations the rest of the crate
//! needs, each with a specification over that model.
use vstd::prelude::*;
use vstd::string::*;

verus! {

// ---------------------------------------------------------------------------
// Character classes
// ---------------------------------------------------------------------------

/// `char::is_whitespace`: the Unicode `White_Space` property.
pub open spec fn is_white(c: char) -> bool {
    let v = c as u32;
    (0x09 <= v && v <= 0x0D) || v == 0x20 || v == 0x85 || v == 0xA0 || v == 0x1680 || (0x2000
        <= v && v <= 0x200A) || v == 0x2028 || v == 0x2029 || v == 0x202F || v == 0x205F || v
        == 0x3000
}

/// Whether `c` is Unicode white space, as `char::is_whitespace` decides it.
pub fn is_whitespace(c: char) -> (r: bool)
    ensures
        r == is_white(c),
{
    let v = c as u32;
    (0x09 <= v && v <= 0x0D) || v == 0x20 || v == 0x85 || v == 0xA0 || v == 0x1680 || (0x2000
        <= v && v <= 0x200A) || v == 0x2028 || v == 0x2029 || v == 0x202F || v == 0x205F || v
        == 0x3000
}

/// `char::is_control`: the Unicode general category `Cc`.
pub open spec fn is_control_char(c: char) -> bool {
    let v = c as u32;
    v <= 0x1F || (0x7F <= v && v <= 0x9F)
}

/// Whether `c` is a control character, as `char::is_control` decides it.
pub fn is_control(c: char) -> (r: bool)
    ensures
        r == is_control_char(c),
{
    let v = c as u32;
    v <= 0x1F || (0x7F <= v && v <= 0x9F)
}

/// `char::is_ascii_whitespace`: space, tab, line feed, form feed, carriage return.
pub open spec fn is_ascii_white(c: char) -> bool {
    c == ' ' || c == '\t' || c == '\n' || c == '\x0C' || c == '\r'
}

/// The code of `c` with ASCII upper-case letters mapped to lower case.
pub open spec fn ascii_lower(c: char) -> u32 {
    let v = c as u32;
    if 0x41 <= v && v <= 0x5A {
        (v + 32) as u32
    } else {
        v
    }
}

/// `str::eq_ignore_ascii_case` on the character model.
pub open spec fn eq_ignore_case(a: Seq<char>, b: Seq<char>) -> bool {
    a.len() == b.len() && forall|i: int|
        0 <= i < a.len() ==> ascii_lower(#[trigger] a[i]) == ascii_lower(b[i])
}

/// The code of `c` with ASCII upper-case letters mapped to lower case.
pub fn lower_code(c: char) -> (r: u32)
    ensures
        r == ascii_lower(c),
{
    let v = c as u32;
    if 0x41 <= v && v <= 0x5A {
        v + 32
    } else {
        v
    }
}

/// Compares two character sequences ignoring ASCII case.
pub fn chars_eq_ignore_case(a: &Vec<char>, b: &Vec<char>) -> (r: bool)
    ensures
        r == eq_ignore_case(a@, b@),
{
    if a.len() != b.len() {
        return false;
    }
    let mut i: usize = 0;
    while i < a.len()
        invariant
            a.len() == b.len(),
            i <= a.len(),
            forall|j: int| 0 <= j < i ==> ascii_lower(#[trigger] a@[j]) == ascii_lower(b@[j]),
        decreases a.len() - i,
    {
        if lower_code(a[i]) != lower_code(b[i]) {
            return false;
        }
        i = i + 1;
    }
    true
}

/// `str::eq_ignore_ascii_case`.
pub fn str_eq_ignore_case(a: &str, b: &str) -> (r: bool)
    ensures
        r == eq_ignore_case(a@, b@),
{
    let a = chars_of(a);
    let b = chars_of(b);
    chars_eq_ignore_case(&a, &b)
}

// ---------------------------------------------------------------------------
// Conversions between `str` and `Vec<char>`
// ---------------------------------------------------------------------------

/// The characters of `s`.
pub fn chars_of(s: &str) -> (v: Vec<char>)
    ensures
        v@ == s@,
{
    let mut v: Vec<char> = Vec::new();
    for c in it: s.chars()
        invariant
            v@ == it.seq().take(it.index() as int),
            it.seq() == s@,
    {
        v.push(c);
    }
    v
}

/// Appends `c` to `s` with `String::push`. Claimed, as its documentation
/// says: the text afterwards is the text before with `c` at its end.
#[verifier::external_body]
pub(crate) fn push_char(s: &mut String, c: char)
    ensures
        final(s)@ == old(s)@.push(c),
{
    s.push(c);
}

/// Appends the characters of `v` to `s`.
pub fn push_chars(s: &mut String, v: &Vec<char>)
    ensures
        final(s)@ == old(s)@ + v@,
{
    let mut i: usize = 0;
    while i < v.len()
        invariant
            i <= v.len(),
            s@ == old(s)@ + v@.take(i as int),
        decreases v.len() - i,
    {
        push_char(s, v[i]);
        assert(v@.take(i + 1) == v@.take(i as int).push(v@[i as int]));
        i = i + 1;
    }
    assert(v@.take(v.len() as int) == v@);
}

/// A `String` holding exactly the characters of `v`.
pub fn string_from_chars(v: &Vec<char>) -> (s: String)
    ensures
        s@ == v@,
{
    let mut s = String::new();
    push_chars(&mut s, v);
    s
}

/// A `String` holding exactly the characters of `s`.
pub fn to_owned(s: &str) -> (r: String)
    ensures
        r@ == s@,
{
    s.to_owned()
}

/// Appends `s` to `out`.
pub fn push_str(out: &mut String, s: &str)
    ensures
        final(out)@ == old(out)@ + s@,
{
    let v = chars_of(s);
    push_chars(out, &v);
}

// ---------------------------------------------------------------------------
// Trimming
// ---------------------------------------------------------------------------

/// Number of leading white-space characters of `s`.
pub open spec fn lead(s: Seq<char>) -> nat
    decreases s.len(),
{
    if s.len() == 0 {
        0
    } else if is_white(s[0]) {
        1 + lead(s.drop_first())
    } else {
        0
    }
}

/// Number of trailing white-space characters of `s`.
pub open spec fn trail(s: Seq<char>) -> nat
    decreases s.len(),
{
    if s.len() == 0 {
        0
    } else if is_white(s.last()) {
        1 + trail(s.drop_last())
    } else {
        0
    }
}

/// `str::trim`: `s` without leading and trailing white space.
pub open spec fn trim(s: Seq<char>) -> Seq<char> {
    if lead(s) == s.len() {
        Seq::empty()
    } else {
        s.subrange(lead(s) as int, s.len() - trail(s))
    }
}

/// `char::to_ascii_lowercase`.
pub open spec fn lower_char(c: char) -> char {
    if 0x41 <= (c as u32) && (c as u32) <= 0x5A {
        ((c as u32) + 32) as char
    } else {
        c
    }
}

/// `str::to_ascii_lowercase` on the character model.
pub open spec fn ascii_lowercase(s: Seq<char>) -> Seq<char> {
    Seq::new(s.len(), |i: int| lower_char(s[i]))
}

/// The leading white space of `s` is white and ends at a character that is not.
pub proof fn lemma_lead_facts(s: Seq<char>)
    ensures
        lead(s) <= s.len(),
        forall|j: int| 0 <= j < lead(s) ==> is_white(#[trigger] s[j]),
        lead(s) < s.len() ==> !is_white(s[lead(s) as int]),
    decreases s.len(),
{
    if s.len() > 0 && is_white(s[0]) {
        let t = s.drop_first();
        lemma_lead_facts(t);
        assert forall|j: int| 0 <= j < lead(s) implies is_white(#[trigger] s[j]) by {
            if j > 0 {
                assert(s[j] == t[j - 1]);
            }
        }
        if lead(s) < s.len() {
            assert(s[lead(s) as int] == t[lead(t) as int]);
        }
    }
}

/// The trailing white space of `s` is white and starts after a character that is not.
pub proof fn lemma_trail_facts(s: Seq<char>)
    ensures
        trail(s) <= s.len(),
        forall|j: int| s.len() - trail(s) <= j < s.len() ==> is_white(#[trigger] s[j]),
        trail(s) < s.len() ==> !is_white(s[s.len() - trail(s) - 1]),
    decreases s.len(),
{
    if s.len() > 0 && is_white(s.last()) {
        let t = s.drop_last();
        lemma_trail_facts(t);
        assert forall|j: int| s.len() - trail(s) <= j < s.len() implies is_white(#[trigger] s[j]) by {
            if j < s.len() - 1 {
                assert(s[j] == t[j]);
            }
        }
        if trail(s) < s.len() {
            assert(s[s.len() - trail(s) - 1] == t[t.len() - trail(t) - 1]);
        }
    }
}

/// A trimmed text is either empty or starts and ends with characters that
/// are not white space.
pub proof fn lemma_trim_ends(s: Seq<char>)
    ensures
        trim(s).len() > 0 ==> !is_white(trim(s)[0]) && !is_white(trim(s).last()),
        trim(s).len() <= s.len(),
{
    lemma_lead_facts(s);
    lemma_trail_facts(s);
    if lead(s) < s.len() {
        assert(lead(s) < s.len() - trail(s));
    }
}

/// A text that is empty or has no white space at either end is its own trim.
pub proof fn lemma_trim_of_trimmed(s: Seq<char>)
    requires
        s.len() > 0 ==> !is_white(s[0]) && !is_white(s.last()),
    ensures
        trim(s) == s,
{
    if s.len() > 0 {
        lemma_lead(s, 0);
        lemma_trail(s, 0);
        assert(trim(s) =~= s);
    } else {
        assert(trim(s) =~= s);
    }
}

/// Lower-casing ASCII letters keeps a character's case-folded code, and
/// turns no character into white space or out of it.
pub proof fn lemma_lower_char(c: char)
    ensures
        ascii_lower(lower_char(c)) == ascii_lower(c),
        is_white(lower_char(c)) == is_white(c),
{
}

/// `s` holds no ASCII upper-case letter.
pub open spec fn has_no_upper(s: Seq<char>) -> bool {
    forall|i: int| 0 <= i < s.len() ==> !(0x41 <= (#[trigger] s[i] as u32) && (s[i] as u32) <= 0x5A)
}

/// Lower-cased text holds no ASCII upper-case letter.
pub proof fn lemma_lowercase_has_no_upper(s: Seq<char>)
    ensures
        has_no_upper(ascii_lowercase(s)),
{
    assert forall|i: int| 0 <= i < ascii_lowercase(s).len() implies !(0x41 <= (#[trigger] ascii_lowercase(s)[i] as u32)
        && (ascii_lowercase(s)[i] as u32) <= 0x5A) by {
        assert(ascii_lowercase(s)[i] == lower_char(s[i]));
    }
}

/// Between texts without ASCII upper-case letters, equality ignoring ASCII
/// case is equality.
pub proof fn lemma_eq_ignore_case_lower(a: Seq<char>, b: Seq<char>)
    requires
        has_no_upper(a),
        has_no_upper(b),
    ensures
        eq_ignore_case(a, b) == (a == b),
{
    if eq_ignore_case(a, b) {
        assert forall|i: int| 0 <= i < a.len() implies a[i] == b[i] by {
            assert(ascii_lower(a[i]) == ascii_lower(b[i]));
            assert(!(0x41 <= (a[i] as u32) && (a[i] as u32) <= 0x5A));
            assert(!(0x41 <= (b[i] as u32) && (b[i] as u32) <= 0x5A));
            assert((a[i] as u32) == (b[i] as u32));
            vstd::utf8::char_u32_cast(a[i], a[i] as u32);
            vstd::utf8::char_u32_cast(b[i], b[i] as u32);
        }
        assert(a =~= b);
    }
}

/// `lead` is the length of the longest all-white prefix.
pub proof fn lemma_lead(s: Seq<char>, n: int)
    requires
        0 <= n <= s.len(),
        forall|j: int| 0 <= j < n ==> is_white(#[trigger] s[j]),
        n == s.len() || !is_white(s[n]),
    ensures
        lead(s) == n,
    decreases n,
{
    if n > 0 {
        assert forall|j: int| 0 <= j < n - 1 implies is_white(#[trigger] s.drop_first()[j]) by {
            assert(s.drop_first()[j] == s[j + 1]);
        }
        if n - 1 < s.drop_first().len() {
            assert(s.drop_first()[n - 1] == s[n]);
        }
        lemma_lead(s.drop_first(), n - 1);
    }
}

/// `trail` is the length of the longest all-white suffix.
pub proof fn lemma_trail(s: Seq<char>, n: int)
    requires
        0 <= n <= s.len(),
        forall|j: int| s.len() - n <= j < s.len() ==> is_white(#[trigger] s[j]),
        n == s.len() || !is_white(s[s.len() - n - 1]),
    ensures
        trail(s) == n,
    decreases n,
{
    if n > 0 {
        let t = s.drop_last();
        assert forall|j: int| t.len() - (n - 1) <= j < t.len() implies is_white(#[trigger] t[j]) by {
            assert(t[j] == s[j]);
        }
        if n - 1 < t.len() {
            assert(t[t.len() - (n - 1) - 1] == s[s.len() - n - 1]);
        }
        lemma_trail(t, n - 1);
    }
}

/// Index of the first non-white character of `v` and one past its last.
pub fn trim_bounds(v: &Vec<char>) -> (r: (usize, usize))
    ensures
        r.0 <= r.1 <= v.len(),
        trim(v@) == v@.subrange(r.0 as int, r.1 as int),
{
    let n = v.len();
    let mut a: usize = 0;
    while a < n && is_whitespace(v[a])
        invariant
            n == v.len(),
            a <= n,
            forall|j: int| 0 <= j < a ==> is_white(#[trigger] v@[j]),
        decreases n - a,
    {
        a = a + 1;
    }
    proof {
        lemma_lead(v@, a as int);
    }
    if a == n {
        return (n, n);
    }
    let mut b: usize = n;
    while b > a && is_whitespace(v[b - 1])
        invariant
            n == v.len(),
            a < n,
            !is_white(v@[a as int]),
            a <= b <= n,
            forall|j: int| b <= j < n ==> is_white(#[trigger] v@[j]),
        decreases b,
    {
        b = b - 1;
    }
    proof {
        lemma_trail(v@, n - b);
    }
    (a, b)
}

/// `str::trim` for a vector of characters.
pub fn trim_chars(v: &Vec<char>) -> (r: Vec<char>)
    ensures
        r@ == trim(v@),
{
    let (a, b) = trim_bounds(v);
    slice_chars(v, a, b)
}

/// `str::trim`.
pub fn trim_str(s: &str) -> (r: &str)
    ensures
        r@ == trim(s@),
{
    let v = chars_of(s);
    let (a, b) = trim_bounds(&v);
    s.substring_char(a, b)
}

/// The characters of `v` from `a` up to `b`.
pub fn slice_chars(v: &Vec<char>, a: usize, b: usize) -> (r: Vec<char>)
    requires
        a <= b <= v.len(),
    ensures
        r@ == v@.subrange(a as int, b as int),
{
    let mut r: Vec<char> = Vec::new();
    let mut i = a;
    while i < b
        invariant
            a <= i <= b <= v.len(),
            r@ == v@.subrange(a as int, i as int),
        decreases b - i,
    {
        r.push(v[i]);
        i = i + 1;
    }
    r
}

/// The trimmed text, or `None` when it is missing or blank.
pub open spec fn non_empty_spec(value: Option<Seq<char>>) -> Option<Seq<char>> {
    match value {
        Some(v) => if trim(v).len() > 0 {
            Some(trim(v))
        } else {
            None
        },
        None => None,
    }
}

/// The view of an optional `&str`.
pub open spec fn opt_view(value: Option<&str>) -> Option<Seq<char>> {
    match value {
        Some(v) => Some(v@),
        None => None,
    }
}

/// The view of an optional `String`.
pub open spec fn opt_string_view(value: Option<String>) -> Option<Seq<char>> {
    match value {
        Some(v) => Some(v@),
        None => None,
    }
}

/// The trimmed text, or `None` when it is missing or blank.
pub fn non_empty(value: Option<&str>) -> (r: Option<&str>)
    ensures
        opt_view(r) == non_empty_spec(opt_view(value)),
{
    match value {
        Some(v) => {
            let t = trim_str(v);
            if t.unicode_len() > 0 {
                Some(t)
            } else {
                None
            }
        },
        None => None,
    }
}

/// The trimmed text of an optional string, or `None` when it is missing or blank.
pub fn non_empty_string(value: &Option<String>) -> (r: Option<&str>)
    ensures
        opt_view(r) == non_empty_spec(opt_string_view(*value)),
{
    match value {
        Some(v) => non_empty(Some(v.as_str())),
        None => None,
    }
}

// ---------------------------------------------------------------------------
// Searching, splitting and joining
// ---------------------------------------------------------------------------

/// Index of the first character of `s` that is `a` or `b`, or -1.
pub open spec fn pos_of(s: Seq<char>, a: char, b: char) -> int
    decreases s.len(),
{
    if s.len() == 0 {
        -1
    } else if s[0] == a || s[0] == b {
        0
    } else {
        let r = pos_of(s.drop_first(), a, b);
        if r < 0 {
            -1
        } else {
            r + 1
        }
    }
}

/// `pos_of` is the first index holding `a` or `b`.
pub proof fn lemma_pos_of(s: Seq<char>, a: char, b: char)
    ensures
        -1 <= pos_of(s, a, b) < s.len(),
        pos_of(s, a, b) >= 0 ==> (s[pos_of(s, a, b)] == a || s[pos_of(s, a, b)] == b),
        forall|j: int| 0 <= j < s.len() && (j < pos_of(s, a, b) || pos_of(s, a, b) < 0) ==> #[trigger] s[j] != a && s[j] != b,
    decreases s.len(),
{
    if s.len() > 0 {
        lemma_pos_of(s.drop_first(), a, b);
        assert forall|j: int| 0 < j < s.len() implies #[trigger] s[j] == s.drop_first()[j - 1] by {}
    }
}

/// The first index holding `a` or `b` determines `pos_of`.
pub proof fn lemma_pos_of_at(s: Seq<char>, a: char, b: char, p: int)
    requires
        -1 <= p < s.len(),
        p >= 0 ==> (s[p] == a || s[p] == b),
        forall|j: int| 0 <= j < s.len() && (j < p || p < 0) ==> #[trigger] s[j] != a && s[j] != b,
    ensures
        pos_of(s, a, b) == p,
{
    lemma_pos_of(s, a, b);
    let q = pos_of(s, a, b);
    if q >= 0 && (p < 0 || q < p) {
        assert(s[q] != a && s[q] != b);
    }
    if p >= 0 && (q < 0 || p < q) {
        assert(s[p] != a && s[p] != b);
    }
}

/// Index of the first character of `v` that is `a` or `b`.
pub fn find2(v: &Vec<char>, a: char, b: char) -> (r: Option<usize>)
    ensures
        match r {
            Some(i) => pos_of(v@, a, b) == i && i < v.len(),
            None => pos_of(v@, a, b) == -1,
        },
{
    let mut i: usize = 0;
    while i < v.len()
        invariant
            i <= v.len(),
            forall|j: int| 0 <= j < i ==> #[trigger] v@[j] != a && v@[j] != b,
        decreases v.len() - i,
    {
        if v[i] == a || v[i] == b {
            proof {
                lemma_pos_of_at(v@, a, b, i as int);
            }
            return Some(i);
        }
        i = i + 1;
    }
    proof {
        lemma_pos_of_at(v@, a, b, -1);
    }
    None
}

/// Index of the first `c` in `v`.
pub fn find(v: &Vec<char>, c: char) -> (r: Option<usize>)
    ensures
        match r {
            Some(i) => pos_of(v@, c, c) == i && i < v.len(),
            None => pos_of(v@, c, c) == -1,
        },
{
    find2(v, c, c)
}

/// `str::split` on the characters `a` and `b` (the same character for a
/// single separator).
pub open spec fn split2(s: Seq<char>, a: char, b: char) -> Seq<Seq<char>>
    decreases s.len(),
{
    let p = pos_of(s, a, b);
    if p < 0 {
        seq![s]
    } else {
        proof {
            lemma_pos_of(s, a, b);
        }
        seq![s.take(p)] + split2(s.skip(p + 1), a, b)
    }
}

/// `str::split` on the character `c`.
pub open spec fn split(s: Seq<char>, c: char) -> Seq<Seq<char>> {
    split2(s, c, c)
}

/// `str::split_once`: the text before and after the first `c`.
pub open spec fn split_once(s: Seq<char>, c: char) -> Option<(Seq<char>, Seq<char>)> {
    let p = pos_of(s, c, c);
    if p < 0 {
        None
    } else {
        Some((s.take(p), s.skip(p + 1)))
    }
}

/// The text before the first `c` (all of `s` when there is none):
/// `s.split(c).next()`.
pub open spec fn before(s: Seq<char>, c: char) -> Seq<char> {
    let p = pos_of(s, c, c);
    if p < 0 {
        s
    } else {
        s.take(p)
    }
}

/// A prefix free of separators does not move the first separator of the rest.
pub proof fn lemma_pos_of_concat(x: Seq<char>, y: Seq<char>, a: char, b: char)
    requires
        forall|j: int| 0 <= j < x.len() ==> #[trigger] x[j] != a && x[j] != b,
    ensures
        pos_of(x + y, a, b) == (if pos_of(y, a, b) < 0 {
            -1
        } else {
            x.len() + pos_of(y, a, b)
        }),
{
    lemma_pos_of(y, a, b);
    let s = x + y;
    let p = if pos_of(y, a, b) < 0 {
        -1
    } else {
        x.len() + pos_of(y, a, b)
    };
    assert forall|j: int| 0 <= j < s.len() && (j < p || p < 0) implies #[trigger] s[j] != a && s[j]
        != b by {
        if j >= x.len() {
            assert(s[j] == y[j - x.len()]);
        }
    }
    lemma_pos_of_at(s, a, b, p);
}

/// The pieces of `v` between the characters `a` and `b`.
pub fn split2_chars(v: &Vec<char>, a: char, b: char) -> (r: Vec<Vec<char>>)
    ensures
        views(r@) == split2(v@, a, b),
{
    let mut parts: Vec<Vec<char>> = Vec::new();
    let mut cur: Vec<char> = Vec::new();
    let mut i: usize = 0;
    proof {
        assert(cur@ + v@.skip(0) == v@);
    }
    while i < v.len()
        invariant
            i <= v.len(),
            forall|j: int| 0 <= j < cur@.len() ==> #[trigger] cur@[j] != a && cur@[j] != b,
            split2(v@, a, b) == views(parts@) + split2(cur@ + v@.skip(i as int), a, b),
        decreases v.len() - i,
    {
        let c = v[i];
        if c == a || c == b {
            proof {
                let rest = v@.skip(i as int);
                let s = cur@ + rest;
                assert(rest[0] == c);
                lemma_pos_of_at(rest, a, b, 0);
                lemma_pos_of_concat(cur@, rest, a, b);
                assert(s.take(cur@.len() as int) == cur@);
                assert(s.skip(cur@.len() as int + 1) == v@.skip(i + 1));
                assert(split2(s, a, b) == seq![cur@] + split2(v@.skip(i + 1), a, b));
            }
            let ghost old_parts = parts@;
            let done = cur;
            parts.push(done);
            cur = Vec::new();
            proof {
                assert(parts@ == old_parts.push(done));
                assert(views(parts@) == views(old_parts) + seq![done@]);
                assert(cur@ + v@.skip(i + 1) == v@.skip(i + 1));
            }
        } else {
            let ghost old_cur = cur@;
            cur.push(c);
            proof {
                assert(cur@ + v@.skip(i + 1) == old_cur + v@.skip(i as int));
            }
        }
        i = i + 1;
    }
    proof {
        assert(cur@ + v@.skip(v.len() as int) == cur@);
        lemma_pos_of_at(cur@, a, b, -1);
    }
    let ghost before_last = parts@;
    parts.push(cur);
    proof {
        assert(views(parts@) == views(before_last) + seq![cur@]);
    }
    parts
}

/// The character sequences held by a vector of character vectors.
pub open spec fn views(parts: Seq<Vec<char>>) -> Seq<Seq<char>> {
    parts.map_values(|p: Vec<char>| p@)
}

/// Joins `parts` with `sep` between consecutive pieces: `[..].join(sep)`.
pub open spec fn join(parts: Seq<Seq<char>>, sep: Seq<char>) -> Seq<char>
    decreases parts.len(),
{
    if parts.len() == 0 {
        Seq::empty()
    } else if parts.len() == 1 {
        parts[0]
    } else {
        join(parts.drop_last(), sep) + sep + parts.last()
    }
}

/// `s` holds no `c`.
pub open spec fn lacks(s: Seq<char>, c: char) -> bool {
    forall|i: int| 0 <= i < s.len() ==> #[trigger] s[i] != c
}

/// The pieces of a split hold no character the whole lacks.
pub proof fn lemma_split_lacks(s: Seq<char>, a: char, c: char)
    requires
        lacks(s, c),
    ensures
        forall|k: int| 0 <= k < split2(s, a, a).len() ==> lacks(#[trigger] split2(s, a, a)[k], c),
    decreases s.len(),
{
    let p = pos_of(s, a, a);
    lemma_pos_of(s, a, a);
    if p >= 0 {
        assert(lacks(s.skip(p + 1), c)) by {
            assert forall|i: int| 0 <= i < s.skip(p + 1).len() implies #[trigger] s.skip(p + 1)[i] != c by {
                assert(s.skip(p + 1)[i] == s[p + 1 + i]);
            }
        }
        lemma_split_lacks(s.skip(p + 1), a, c);
        let rest = split2(s.skip(p + 1), a, a);
        assert forall|k: int| 0 <= k < split2(s, a, a).len() implies lacks(#[trigger] split2(s, a, a)[k], c) by {
            if k == 0 {
                assert(split2(s, a, a)[0] == s.take(p));
                assert forall|i: int| 0 <= i < s.take(p).len() implies #[trigger] s.take(p)[i] != c by {
                    assert(s.take(p)[i] == s[i]);
                }
            } else {
                assert(split2(s, a, a)[k] == rest[k - 1]);
            }
        }
    }
}

/// Joining pieces that lack `c` with a separator that lacks it gives text
/// that lacks it.
pub proof fn lemma_join_lacks(parts: Seq<Seq<char>>, sep: Seq<char>, c: char)
    requires
        forall|k: int| 0 <= k < parts.len() ==> lacks(#[trigger] parts[k], c),
        lacks(sep, c),
    ensures
        lacks(join(parts, sep), c),
    decreases parts.len(),
{
    if parts.len() > 1 {
        assert forall|k: int| 0 <= k < parts.drop_last().len() implies lacks(#[trigger] parts.drop_last()[k], c) by {
            assert(parts.drop_last()[k] == parts[k]);
        }
        lemma_join_lacks(parts.drop_last(), sep, c);
        let j = join(parts.drop_last(), sep);
        let last = parts[parts.len() - 1];
        assert forall|i: int| 0 <= i < (j + sep + last).len() implies #[trigger] (j + sep + last)[i] != c by {
            if i < j.len() {
                assert((j + sep + last)[i] == j[i]);
            } else if i < j.len() + sep.len() {
                assert((j + sep + last)[i] == sep[i - j.len()]);
            } else {
                assert((j + sep + last)[i] == last[i - j.len() - sep.len()]);
            }
        }
    } else if parts.len() == 1 {
        assert(lacks(parts[0], c));
    }
}

/// A text that lacks `c` has no first `c`.
pub proof fn lemma_lacks_no_pos(s: Seq<char>, c: char)
    requires
        lacks(s, c),
    ensures
        pos_of(s, c, c) == -1,
{
    lemma_pos_of_at(s, c, c, -1);
}

/// The pieces of a split on `a` hold no `a`.
pub proof fn lemma_split_pieces_lack_sep(s: Seq<char>, a: char)
    ensures
        forall|k: int| 0 <= k < split2(s, a, a).len() ==> lacks(#[trigger] split2(s, a, a)[k], a),
    decreases s.len(),
{
    let p = pos_of(s, a, a);
    lemma_pos_of(s, a, a);
    if p >= 0 {
        lemma_split_pieces_lack_sep(s.skip(p + 1), a);
        let rest = split2(s.skip(p + 1), a, a);
        assert forall|k: int| 0 <= k < split2(s, a, a).len() implies lacks(#[trigger] split2(s, a, a)[k], a) by {
            if k == 0 {
                assert(split2(s, a, a)[0] == s.take(p));
                assert forall|i: int| 0 <= i < s.take(p).len() implies #[trigger] s.take(p)[i] != a by {
                    assert(s.take(p)[i] == s[i]);
                }
            } else {
                assert(split2(s, a, a)[k] == rest[k - 1]);
            }
        }
    } else {
        assert(split2(s, a, a) == seq![s]);
        assert forall|i: int| 0 <= i < s.len() implies #[trigger] s[i] != a by {}
    }
}

/// Splitting `x`, a separator `a` and a last piece free of `a` gives the
/// pieces of `x` and then that last piece.
pub proof fn lemma_split_push(x: Seq<char>, y: Seq<char>, a: char)
    requires
        lacks(y, a),
    ensures
        split2(x + seq![a] + y, a, a) == split2(x, a, a).push(y),
    decreases x.len(),
{
    let s = x + seq![a] + y;
    let p = pos_of(x, a, a);
    lemma_pos_of(x, a, a);
    lemma_pos_of(s, a, a);
    if p >= 0 {
        assert forall|j: int| 0 <= j < p implies #[trigger] s[j] != a && s[j] != a by {
            assert(s[j] == x[j]);
        }
        lemma_pos_of_at(s, a, a, p);
        let x2 = x.skip(p + 1);
        assert(s.skip(p + 1) =~= x2 + seq![a] + y);
        assert(s.take(p) =~= x.take(p));
        lemma_split_push(x2, y, a);
        assert(split2(s, a, a) == seq![x.take(p)] + split2(x2, a, a).push(y));
        assert(split2(x, a, a) == seq![x.take(p)] + split2(x2, a, a));
        assert(seq![x.take(p)] + split2(x2, a, a).push(y) =~= (seq![x.take(p)] + split2(x2, a, a)).push(y));
    } else {
        assert forall|j: int| 0 <= j < x.len() implies #[trigger] s[j] != a && s[j] != a by {
            assert(s[j] == x[j]);
        }
        lemma_pos_of_at(s, a, a, x.len() as int);
        assert(s.take(x.len() as int) =~= x);
        assert(s.skip(x.len() as int + 1) =~= y);
        lemma_lacks_no_pos(y, a);
        assert(split2(y, a, a) == seq![y]);
        assert(split2(x, a, a) == seq![x]);
        assert(seq![x] + seq![y] =~= seq![x].push(y));
    }
}

/// Splitting a join of pieces free of the separator gives the pieces back.
pub proof fn lemma_split_join(parts: Seq<Seq<char>>, a: char)
    requires
        parts.len() > 0,
        forall|k: int| 0 <= k < parts.len() ==> lacks(#[trigger] parts[k], a),
    ensures
        split2(join(parts, seq![a]), a, a) == parts,
    decreases parts.len(),
{
    if parts.len() == 1 {
        assert(lacks(parts[0], a));
        lemma_lacks_no_pos(parts[0], a);
        assert(split2(parts[0], a, a) == seq![parts[0]]);
        assert(seq![parts[0]] =~= parts);
    } else {
        let front = parts.drop_last();
        assert forall|k: int| 0 <= k < front.len() implies lacks(#[trigger] front[k], a) by {
            assert(front[k] == parts[k]);
        }
        lemma_split_join(front, a);
        assert(lacks(parts.last(), a)) by {
            assert(parts.last() == parts[parts.len() - 1]);
        }
        lemma_split_push(join(front, seq![a]), parts.last(), a);
        assert(front.push(parts.last()) =~= parts);
    }
}

/// Keeping by `pred` keeps everything when everything satisfies it.
pub proof fn lemma_filter_keeps_all<A>(s: Seq<A>, pred: spec_fn(A) -> bool)
    requires
        forall|i: int| 0 <= i < s.len() ==> pred(#[trigger] s[i]),
    ensures
        s.filter(pred) == s,
    decreases s.len(),
{
    reveal_with_fuel(Seq::filter, 1);
    if s.len() > 0 {
        let front = s.drop_last();
        assert forall|i: int| 0 <= i < front.len() implies pred(#[trigger] front[i]) by {
            assert(front[i] == s[i]);
        }
        lemma_filter_keeps_all(front, pred);
        assert(pred(s[s.len() - 1]));
        assert(front.push(s.last()) =~= s);
    }
}

/// Joins `parts` with `sep` between consecutive pieces.
pub fn join_chars(parts: &Vec<Vec<char>>, sep: &Vec<char>) -> (r: Vec<char>)
    ensures
        r@ == join(views(parts@), sep@),
{
    let mut out: Vec<char> = Vec::new();
    let mut i: usize = 0;
    while i < parts.len()
        invariant
            i <= parts.len(),
            out@ == join(views(parts@).take(i as int), sep@),
        decreases parts.len() - i,
    {
        proof {
            let t = views(parts@).take(i + 1);
            assert(t.drop_last() == views(parts@).take(i as int));
            assert(t.last() == parts[i as int]@);
        }
        if i > 0 {
            append_chars(&mut out, sep);
        }
        append_chars(&mut out, &parts[i]);
        i = i + 1;
    }
    proof {
        assert(views(parts@).take(parts.len() as int) == views(parts@));
    }
    out
}

/// Appends the characters of `v` to `out`.
pub fn append_chars(out: &mut Vec<char>, v: &Vec<char>)
    ensures
        final(out)@ == old(out)@ + v@,
{
    let mut i: usize = 0;
    while i < v.len()
        invariant
            i <= v.len(),
            out@ == old(out)@ + v@.take(i as int),
        decreases v.len() - i,
    {
        out.push(v[i]);
        assert(v@.take(i + 1) == v@.take(i as int).push(v@[i as int]));
        i = i + 1;
    }
    assert(v@.take(v.len() as int) == v@);
}

/// Whether `v` starts with `prefix`, ignoring ASCII case.
pub open spec fn starts_with_ignore_case(v: Seq<char>, prefix: Seq<char>) -> bool {
    prefix.len() <= v.len() && eq_ignore_case(v.take(prefix.len() as int), prefix)
}

/// `pat` occurs in `s` at index `i`.
pub open spec fn match_at(s: Seq<char>, pat: Seq<char>, i: int) -> bool {
    0 <= i && i + pat.len() <= s.len() && s.subrange(i, i + pat.len()) == pat
}

/// `i` is the first index at which `pat` occurs in `s`.
pub open spec fn first_match(s: Seq<char>, pat: Seq<char>, i: int) -> bool {
    match_at(s, pat, i) && forall|j: int| 0 <= j < i ==> !#[trigger] match_at(s, pat, j)
}

/// `str::find` with a string pattern: the first index at which `pat`
/// occurs in `s`, or -1.
pub open spec fn find_sub_spec(s: Seq<char>, pat: Seq<char>) -> int {
    if exists|i: int| #[trigger] first_match(s, pat, i) {
        choose|i: int| #[trigger] first_match(s, pat, i)
    } else {
        -1
    }
}

/// There is only one first occurrence.
proof fn lemma_first_match_unique(s: Seq<char>, pat: Seq<char>, a: int, b: int)
    requires
        first_match(s, pat, a),
        first_match(s, pat, b),
    ensures
        a == b,
{
    if a < b {
        assert(!match_at(s, pat, a));
    }
    if b < a {
        assert(!match_at(s, pat, b));
    }
}

/// Whether `a` and `b` hold the same characters.
pub fn chars_equal(a: &Vec<char>, b: &Vec<char>) -> (r: bool)
    ensures
        r == (a@ == b@),
{
    if a.len() != b.len() {
        return false;
    }
    let mut i: usize = 0;
    while i < a.len()
        invariant
            a.len() == b.len(),
            i <= a.len(),
            forall|j: int| 0 <= j < i ==> a@[j] == b@[j],
        decreases a.len() - i,
    {
        if a[i] != b[i] {
            return false;
        }
        i = i + 1;
    }
    assert(a@ =~= b@);
    true
}

/// The first index at which `pat` occurs in `s`.
pub fn find_sub(s: &Vec<char>, pat: &Vec<char>) -> (r: Option<usize>)
    ensures
        match r {
            Some(i) => find_sub_spec(s@, pat@) == i && i + pat.len() <= s.len(),
            None => find_sub_spec(s@, pat@) == -1,
        },
{
    if pat.len() > s.len() {
        proof {
            if exists|i: int| #[trigger] first_match(s@, pat@, i) {
                let c = choose|i: int| #[trigger] first_match(s@, pat@, i);
                assert(match_at(s@, pat@, c));
            }
        }
        return None;
    }
    if pat.len() == 0 {
        proof {
            assert(s@.subrange(0, 0) =~= pat@);
            assert(first_match(s@, pat@, 0));
            let c = choose|k: int| #[trigger] first_match(s@, pat@, k);
            lemma_first_match_unique(s@, pat@, c, 0);
        }
        return Some(0);
    }
    let last = s.len() - pat.len();
    let mut i: usize = 0;
    while i <= last
        invariant
            last == s.len() - pat.len(),
            0 < pat.len() <= s.len(),
            i <= last + 1,
            forall|j: int| 0 <= j < i ==> !#[trigger] match_at(s@, pat@, j),
        decreases last + 1 - i,
    {
        let window = slice_chars(s, i, i + pat.len());
        if chars_equal(&window, pat) {
            proof {
                assert(first_match(s@, pat@, i as int));
                let c = choose|k: int| #[trigger] first_match(s@, pat@, k);
                lemma_first_match_unique(s@, pat@, c, i as int);
            }
            return Some(i);
        }
        i = i + 1;
    }
    proof {
        if exists|k: int| #[trigger] first_match(s@, pat@, k) {
            let c = choose|k: int| #[trigger] first_match(s@, pat@, k);
            assert(match_at(s@, pat@, c));
            assert(c < i);
        }
    }
    None
}

/// `str::trim_end_matches` with a single character.
pub open spec fn trim_end_char(s: Seq<char>, c: char) -> Seq<char>
    decreases s.len(),
{
    if s.len() > 0 && s.last() == c {
        trim_end_char(s.drop_last(), c)
    } else {
        s
    }
}

/// `str::trim_start_matches` with a single character.
pub open spec fn trim_start_char(s: Seq<char>, c: char) -> Seq<char>
    decreases s.len(),
{
    if s.len() > 0 && s[0] == c {
        trim_start_char(s.drop_first(), c)
    } else {
        s
    }
}

/// `v` without the copies of `c` at its end.
pub fn trim_end_chars(v: &Vec<char>, c: char) -> (r: Vec<char>)
    ensures
        r@ == trim_end_char(v@, c),
{
    let mut end = v.len();
    proof {
        assert(v@.take(end as int) =~= v@);
    }
    while end > 0 && v[end - 1] == c
        invariant
            end <= v.len(),
            trim_end_char(v@.take(end as int), c) == trim_end_char(v@, c),
        decreases end,
    {
        proof {
            assert(v@.take(end as int).drop_last() =~= v@.take(end - 1));
        }
        end = end - 1;
    }
    slice_chars(v, 0, end)
}

/// `v` without the copies of `c` at its start.
pub fn trim_start_chars(v: &Vec<char>, c: char) -> (r: Vec<char>)
    ensures
        r@ == trim_start_char(v@, c),
{
    let mut start: usize = 0;
    proof {
        assert(v@.skip(0) =~= v@);
    }
    while start < v.len() && v[start] == c
        invariant
            start <= v.len(),
            trim_start_char(v@.skip(start as int), c) == trim_start_char(v@, c),
        decreases v.len() - start,
    {
        proof {
            assert(v@.skip(start as int).drop_first() =~= v@.skip(start + 1));
        }
        start = start + 1;
    }
    slice_chars(v, start, v.len())
}

} // verus!

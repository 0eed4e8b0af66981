//! The command line of an external mpv process: its executable, its
//! arguments, and the cleaned `LD_PRELOAD` it inherits.
use vstd::prelude::*;

use crate::headers::{filtered, mpv_headers, mpv_headers_spec, sanitize_option, CharFilter};
use crate::model::{header_views, opt_str, HttpHeader, PlaybackRequest};
use crate::numbers::{digits, push_digits};
use crate::text::{
    chars_of, is_ascii_white, join, join_chars, non_empty, non_empty_spec,
    opt_string_view, opt_view, push_str, string_from_chars, to_owned, views,
};

verus! {

/// An external mpv executable.
#[derive(Debug, Clone)]
pub struct ExternalMpv {
    executable: String,
}

impl ExternalMpv {
    /// The executable's path text.
    pub closed spec fn executable_spec(&self) -> Seq<char> {
        self.executable@
    }

    /// An external mpv run from `executable`.
    pub fn new(executable: &str) -> (r: Self)
        ensures
            r.executable_spec() == executable@,
    {
        ExternalMpv { executable: to_owned(executable) }
    }

    /// The path of the mpv executable.
    pub fn executable(&self) -> (r: &str)
        ensures
            r@ == self.executable_spec(),
    {
        self.executable.as_str()
    }
}

/// Appends `a` then `b` into a new argument.
fn arg2(a: &str, b: &str) -> (r: String)
    ensures
        r@ == a@ + b@,
{
    let mut s = to_owned(a);
    push_str(&mut s, b);
    s
}

/// The arguments of an idle mpv that waits on an IPC server for files:
/// no window until a file loads, the given fullscreen mode, a 70 % windowed
/// size, focus on load (on X11 and macOS), no terminal, input bindings and
/// user scripts on.
pub open spec fn idle_args_spec(ipc_path: Seq<char>, fullscreen_arg: Seq<char>, focus_on_load: bool) -> Seq<Seq<char>> {
    seq!["--force-window=no"@, "--fullscreen="@ + fullscreen_arg, "--autofit=70%"@] + (if focus_on_load {
        seq!["--focus-on=all"@]
    } else {
        Seq::empty()
    }) + seq![
        "--no-terminal"@,
        "--input-default-bindings=yes"@,
        "--input-vo-keyboard=yes"@,
        "--load-scripts=yes"@,
        "--idle=yes"@,
        "--input-ipc-server="@ + ipc_path,
    ]
}

/// The texts of a list of argument strings.
pub open spec fn arg_views(args: Seq<String>) -> Seq<Seq<char>> {
    args.map_values(|a: String| a@)
}

/// Arguments for an idle mpv that listens on `ipc_path`.
pub fn idle_args(ipc_path: &str, fullscreen_arg: &str, focus_on_load: bool) -> (r: Vec<String>)
    ensures
        arg_views(r@) == idle_args_spec(ipc_path@, fullscreen_arg@, focus_on_load),
{
    let mut args: Vec<String> = Vec::new();
    args.push(to_owned("--force-window=no"));
    args.push(arg2("--fullscreen=", fullscreen_arg));
    args.push(to_owned("--autofit=70%"));
    if focus_on_load {
        args.push(to_owned("--focus-on=all"));
    }
    args.push(to_owned("--no-terminal"));
    args.push(to_owned("--input-default-bindings=yes"));
    args.push(to_owned("--input-vo-keyboard=yes"));
    args.push(to_owned("--load-scripts=yes"));
    args.push(to_owned("--idle=yes"));
    args.push(arg2("--input-ipc-server=", ipc_path));
    assert(arg_views(args@) =~= idle_args_spec(ipc_path@, fullscreen_arg@, focus_on_load));
    args
}

/// The metadata passed to mpv scripts as `jellyfin_*` script options:
/// identities when not blank (sanitized), start and runtime ticks when
/// positive.
pub open spec fn script_metadata_spec(launch: PlaybackRequest) -> Seq<(Seq<char>, Seq<char>)> {
    let item = non_empty_spec(opt_string_view(launch.item_id));
    let source = non_empty_spec(opt_string_view(launch.media_source_id));
    let session = non_empty_spec(opt_string_view(launch.play_session_id));
    let device = non_empty_spec(opt_string_view(launch.device_id));
    let one = |key: Seq<char>, v: Option<Seq<char>>|
        if v is Some {
            seq![(key, filtered(v->0, CharFilter::ArgValue))]
        } else {
            Seq::<(Seq<char>, Seq<char>)>::empty()
        };
    let start = ticks_entry("start_ticks"@, launch.start_time_ticks);
    let runtime = ticks_entry("runtime_ticks"@, launch.runtime_ticks);
    one("item_id"@, item) + one("media_source_id"@, source) + one("play_session_id"@, session) + one(
        "device_id"@,
        device,
    ) + start + runtime
}

/// Appends `(key, sanitized value)` when the value is not blank.
fn push_metadata(values: &mut Vec<(String, String)>, key: &str, value: Option<&str>)
    ensures
        pair_views(final(values)@) == pair_views(old(values)@) + (if non_empty_spec(opt_view(value)) is Some {
            seq![(key@, filtered(non_empty_spec(opt_view(value))->0, CharFilter::ArgValue))]
        } else {
            Seq::<(Seq<char>, Seq<char>)>::empty()
        }),
{
    let ghost prev = values@;
    if let Some(v) = non_empty(value) {
        values.push((to_owned(key), sanitize_option(v)));
        assert(pair_views(values@) =~= pair_views(prev) + seq![(key@, filtered(v@, CharFilter::ArgValue))]);
    } else {
        assert(pair_views(values@) =~= pair_views(prev) + Seq::<(Seq<char>, Seq<char>)>::empty());
    }
}

/// The texts of a list of string pairs.
pub open spec fn pair_views(values: Seq<(String, String)>) -> Seq<(Seq<char>, Seq<char>)> {
    values.map_values(|p: (String, String)| (p.0@, p.1@))
}

/// The pair `(key, ticks)` when the ticks are positive, else nothing.
pub open spec fn ticks_entry(key: Seq<char>, ticks: Option<i64>) -> Seq<(Seq<char>, Seq<char>)> {
    if ticks is Some && ticks->0 > 0 {
        seq![(key, digits(ticks->0 as nat))]
    } else {
        Seq::empty()
    }
}

/// Appends `(key, ticks)` when the ticks are positive.
fn push_ticks(values: &mut Vec<(String, String)>, key: &str, ticks: Option<i64>)
    ensures
        pair_views(final(values)@) == pair_views(old(values)@) + ticks_entry(key@, ticks),
{
    let ghost prev = values@;
    if let Some(t) = ticks {
        if t > 0 {
            let mut s = String::new();
            push_digits(&mut s, t as u64);
            values.push((to_owned(key), s));
            assert(pair_views(values@) =~= pair_views(prev) + seq![(key@, digits(t as nat))]);
            return;
        }
    }
    assert(pair_views(values@) =~= pair_views(prev) + Seq::<(Seq<char>, Seq<char>)>::empty());
}

/// The script metadata for `launch`.
pub fn script_metadata(launch: &PlaybackRequest) -> (r: Vec<(String, String)>)
    ensures
        pair_views(r@) == script_metadata_spec(*launch),
{
    let mut values: Vec<(String, String)> = Vec::new();
    push_metadata(&mut values, "item_id", opt_str(&launch.item_id));
    push_metadata(&mut values, "media_source_id", opt_str(&launch.media_source_id));
    push_metadata(&mut values, "play_session_id", opt_str(&launch.play_session_id));
    push_metadata(&mut values, "device_id", opt_str(&launch.device_id));
    push_ticks(&mut values, "start_ticks", launch.start_time_ticks);
    push_ticks(&mut values, "runtime_ticks", launch.runtime_ticks);
    assert(pair_views(values@) =~= script_metadata_spec(*launch));
    values
}

/// The argument forwarding one header to mpv.
pub open spec fn header_arg(h: (Seq<char>, Seq<char>)) -> Seq<char> {
    "--http-header-fields-append="@ + h.0 + ": "@ + h.1
}

/// The arguments forwarding `headers` to mpv.
pub open spec fn header_args(headers: Seq<(Seq<char>, Seq<char>)>) -> Seq<Seq<char>> {
    headers.map_values(|h: (Seq<char>, Seq<char>)| header_arg(h))
}

/// The argument passing one script option to mpv.
pub open spec fn script_arg(kv: (Seq<char>, Seq<char>)) -> Seq<char> {
    "--script-opts-append=jellyfin_"@ + kv.0 + "="@ + kv.1
}

/// The arguments passing `values` as script options.
pub open spec fn script_args(values: Seq<(Seq<char>, Seq<char>)>) -> Seq<Seq<char>> {
    values.map_values(|kv: (Seq<char>, Seq<char>)| script_arg(kv))
}

/// The IPC server argument, when the path is not blank.
pub open spec fn ipc_arg(ipc_path: Option<Seq<char>>) -> Seq<Seq<char>> {
    match non_empty_spec(ipc_path) {
        Some(p) => seq!["--input-ipc-server="@ + p],
        None => Seq::empty(),
    }
}

/// The start argument, when given.
pub open spec fn start_args(start_arg: Option<Seq<char>>) -> Seq<Seq<char>> {
    match start_arg {
        Some(s) => seq!["--start="@ + s],
        None => Seq::empty(),
    }
}

/// The title argument, when the title is not blank (sanitized).
pub open spec fn title_args(title: Option<Seq<char>>) -> Seq<Seq<char>> {
    match non_empty_spec(title) {
        Some(t) => seq!["--force-media-title="@ + filtered(t, CharFilter::ArgValue)],
        None => Seq::empty(),
    }
}

/// The arguments of an mpv launched directly on a media URL: a fullscreen
/// window, no terminal, scripts on, the IPC server when given, the forwarded
/// headers, the start position text when given, the title, the script
/// metadata, and the URL last.
pub open spec fn launch_args_spec(
    launch: PlaybackRequest,
    ipc_path: Option<Seq<char>>,
    start_arg: Option<Seq<char>>,
) -> Seq<Seq<char>> {
    seq!["--force-window=yes"@, "--fullscreen=yes"@, "--no-terminal"@, "--load-scripts=yes"@]
        + ipc_arg(ipc_path) + header_args(mpv_headers_spec(launch, true)) + start_args(start_arg)
        + title_args(opt_string_view(launch.title)) + script_args(script_metadata_spec(launch))
        + seq![launch.media_url@]
}

/// Whether an argument sets mpv's start position.
pub open spec fn is_start_arg(a: Seq<char>) -> bool {
    a.len() >= 8 && a.take(8) == "--start="@
}

/// An argument whose third or fourth character differs from `--start=`'s
/// does not set the start position.
proof fn lemma_not_start_arg(a: Seq<char>)
    requires
        a.len() >= 4,
        a[2] != 's' || a[3] != 't',
    ensures
        !is_start_arg(a),
{
    reveal_strlit("--start=");
    if a.len() >= 8 && a.take(8) == "--start="@ {
        assert(a.take(8)[2] == a[2]);
        assert(a.take(8)[3] == a[3]);
    }
}

/// The arguments of an mpv launched on a media URL end with that URL; a
/// start position given is passed exactly once before it, as `--start=`
/// followed by the position text; without one no argument before the URL
/// sets the start.
pub proof fn law_launch_starts_where_asked(
    launch: PlaybackRequest,
    ipc_path: Option<Seq<char>>,
    start_arg: Option<Seq<char>>,
)
    ensures
        ({
            let a = launch_args_spec(launch, ipc_path, start_arg);
            &&& a.len() >= 1
            &&& a.last() == launch.media_url@
            &&& forall|i: int| 0 <= i < a.len() - 1 && #[trigger] is_start_arg(a[i]) ==> start_arg is Some
                && a[i] == "--start="@ + start_arg->0
            &&& forall|i: int, j: int|
                0 <= i < a.len() - 1 && 0 <= j < a.len() - 1 && #[trigger] is_start_arg(a[i])
                    && #[trigger] is_start_arg(a[j]) ==> i == j
            &&& start_arg matches Some(s) ==> exists|i: int| 0 <= i < a.len() - 1 && #[trigger] a[i] == "--start="@ + s
        }),
{
    reveal_strlit("--force-window=yes");
    reveal_strlit("--fullscreen=yes");
    reveal_strlit("--no-terminal");
    reveal_strlit("--load-scripts=yes");
    reveal_strlit("--input-ipc-server=");
    reveal_strlit("--http-header-fields-append=");
    reveal_strlit("--force-media-title=");
    reveal_strlit("--script-opts-append=jellyfin_");
    reveal_strlit("--start=");
    let fixed = seq!["--force-window=yes"@, "--fullscreen=yes"@, "--no-terminal"@, "--load-scripts=yes"@];
    let pre = fixed + ipc_arg(ipc_path) + header_args(mpv_headers_spec(launch, true));
    let st = start_args(start_arg);
    let post = title_args(opt_string_view(launch.title)) + script_args(script_metadata_spec(launch));
    let a = launch_args_spec(launch, ipc_path, start_arg);
    assert(a =~= pre + st + post + seq![launch.media_url@]);
    assert forall|i: int| 0 <= i < pre.len() implies !is_start_arg(#[trigger] pre[i]) by {
        let x = pre[i];
        if i < 4 {
            assert(x == fixed[i]);
        } else if i < 4 + ipc_arg(ipc_path).len() {
            let p = non_empty_spec(ipc_path)->0;
            assert(x == "--input-ipc-server="@ + p);
        } else {
            let hs = mpv_headers_spec(launch, true);
            let k = i - 4 - ipc_arg(ipc_path).len();
            assert(x == header_arg(hs[k]));
            assert(x == "--http-header-fields-append="@ + hs[k].0 + ": "@ + hs[k].1);
        }
        assert(x.len() >= 4);
        assert(x[2] != 's' || x[3] != 't');
        lemma_not_start_arg(x);
    }
    assert forall|i: int| 0 <= i < post.len() implies !is_start_arg(#[trigger] post[i]) by {
        let x = post[i];
        let tl = title_args(opt_string_view(launch.title));
        if i < tl.len() {
            let t = non_empty_spec(opt_string_view(launch.title))->0;
            assert(x == "--force-media-title="@ + filtered(t, CharFilter::ArgValue));
        } else {
            let ms = script_metadata_spec(launch);
            let k = i - tl.len();
            assert(x == script_arg(ms[k]));
            assert(x == "--script-opts-append=jellyfin_"@ + ms[k].0 + "="@ + ms[k].1);
        }
        assert(x.len() >= 4);
        assert(x[2] != 's' || x[3] != 't');
        lemma_not_start_arg(x);
    }
    if let Some(s) = start_arg {
        assert(("--start="@ + s).take(8) =~= "--start="@);
        assert(a[pre.len() as int] == "--start="@ + s);
    }
    assert forall|i: int| 0 <= i < a.len() - 1 && #[trigger] is_start_arg(a[i]) implies start_arg is Some
        && a[i] == "--start="@ + start_arg->0 && i == pre.len() by {
        if i < pre.len() {
            assert(a[i] == pre[i]);
        } else if i < pre.len() + st.len() {
            assert(a[i] == st[i - pre.len()]);
        } else {
            assert(a[i] == post[i - pre.len() - st.len()]);
        }
    }
}

/// Appends the header arguments for `headers`.
fn push_header_args(args: &mut Vec<String>, headers: &Vec<HttpHeader>)
    ensures
        arg_views(final(args)@) == arg_views(old(args)@) + header_args(header_views(headers@)),
{
    let ghost start = arg_views(args@);
    let mut i: usize = 0;
    while i < headers.len()
        invariant
            i <= headers.len(),
            arg_views(args@) == start + header_args(header_views(headers@).take(i as int)),
        decreases headers.len() - i,
    {
        let mut a = to_owned("--http-header-fields-append=");
        push_str(&mut a, headers[i].name.as_str());
        push_str(&mut a, ": ");
        push_str(&mut a, headers[i].value.as_str());
        let ghost prev = args@;
        args.push(a);
        proof {
            let hv = header_views(headers@);
            assert(hv.take(i + 1) =~= hv.take(i as int).push(hv[i as int]));
            assert(header_args(hv.take(i + 1)) =~= header_args(hv.take(i as int)).push(header_arg(hv[i as int])));
            assert(arg_views(args@) =~= arg_views(prev).push(a@));
        }
        i = i + 1;
    }
    assert(header_views(headers@).take(headers.len() as int) =~= header_views(headers@));
}

/// Appends the script option arguments for `meta`.
fn push_script_args(args: &mut Vec<String>, meta: &Vec<(String, String)>)
    ensures
        arg_views(final(args)@) == arg_views(old(args)@) + script_args(pair_views(meta@)),
{
    let ghost start = arg_views(args@);
    let mut j: usize = 0;
    while j < meta.len()
        invariant
            j <= meta.len(),
            arg_views(args@) == start + script_args(pair_views(meta@).take(j as int)),
        decreases meta.len() - j,
    {
        let mut a = to_owned("--script-opts-append=jellyfin_");
        push_str(&mut a, meta[j].0.as_str());
        push_str(&mut a, "=");
        push_str(&mut a, meta[j].1.as_str());
        let ghost prev = args@;
        args.push(a);
        proof {
            let pv = pair_views(meta@);
            assert(pv.take(j + 1) =~= pv.take(j as int).push(pv[j as int]));
            assert(script_args(pv.take(j + 1)) =~= script_args(pv.take(j as int)).push(script_arg(pv[j as int])));
            assert(arg_views(args@) =~= arg_views(prev).push(a@));
        }
        j = j + 1;
    }
    assert(pair_views(meta@).take(meta.len() as int) =~= pair_views(meta@));
}

/// Arguments for mpv playing `launch` directly; `start_arg` is the start
/// position in seconds as text, when the launch has one.
pub fn launch_args(launch: &PlaybackRequest, ipc_path: Option<&str>, start_arg: Option<&str>) -> (r: Vec<String>)
    ensures
        arg_views(r@) == launch_args_spec(*launch, opt_view(ipc_path), opt_view(start_arg)),
{
    let mut args: Vec<String> = Vec::new();
    args.push(to_owned("--force-window=yes"));
    args.push(to_owned("--fullscreen=yes"));
    args.push(to_owned("--no-terminal"));
    args.push(to_owned("--load-scripts=yes"));
    let ghost fixed = arg_views(args@);
    assert(fixed =~= seq!["--force-window=yes"@, "--fullscreen=yes"@, "--no-terminal"@, "--load-scripts=yes"@]);
    if let Some(p) = non_empty(ipc_path) {
        args.push(arg2("--input-ipc-server=", p));
    }
    let ghost after_ipc = arg_views(args@);
    assert(after_ipc =~= fixed + ipc_arg(opt_view(ipc_path)));
    let headers = mpv_headers(launch, true);
    push_header_args(&mut args, &headers);
    let ghost after_headers = arg_views(args@);
    if let Some(s) = start_arg {
        args.push(arg2("--start=", s));
    }
    let ghost after_start = arg_views(args@);
    assert(after_start =~= after_headers + start_args(opt_view(start_arg)));
    if let Some(t) = non_empty(opt_str(&launch.title)) {
        let clean = sanitize_option(t);
        args.push(arg2("--force-media-title=", clean.as_str()));
    }
    let ghost after_title = arg_views(args@);
    assert(after_title =~= after_start + title_args(opt_string_view(launch.title)));
    let meta = script_metadata(launch);
    push_script_args(&mut args, &meta);
    let ghost after_meta = arg_views(args@);
    args.push(to_owned(launch.media_url.as_str()));
    assert(arg_views(args@) =~= after_meta.push(launch.media_url@));
    args
}

// ---------------------------------------------------------------------------
// LD_PRELOAD
// ---------------------------------------------------------------------------

/// Separators of `LD_PRELOAD` entries: `:` and ASCII white space.
pub open spec fn ld_sep(c: char) -> bool {
    c == ':' || is_ascii_white(c)
}

/// Index of the first separator of `s`, or -1.
pub open spec fn ld_pos(s: Seq<char>) -> int
    decreases s.len(),
{
    if s.len() == 0 {
        -1
    } else if ld_sep(s[0]) {
        0
    } else {
        let r = ld_pos(s.drop_first());
        if r < 0 {
            -1
        } else {
            r + 1
        }
    }
}

/// `ld_pos` is the first separator index.
proof fn lemma_ld_pos_at(s: Seq<char>, p: int)
    requires
        -1 <= p < s.len(),
        p >= 0 ==> ld_sep(s[p]),
        forall|j: int| 0 <= j < s.len() && (j < p || p < 0) ==> !ld_sep(#[trigger] s[j]),
    ensures
        ld_pos(s) == p,
    decreases s.len(),
{
    if s.len() > 0 && p != 0 {
        assert forall|j: int| 0 <= j < s.drop_first().len() && (j < p - 1 || p - 1 < 0) implies !ld_sep(#[trigger] s.drop_first()[j]) by {
            assert(s.drop_first()[j] == s[j + 1]);
        }
        if p > 0 {
            assert(s.drop_first()[p - 1] == s[p]);
            lemma_ld_pos_at(s.drop_first(), p - 1);
        } else {
            lemma_ld_pos_at(s.drop_first(), -1);
        }
    }
}

/// `str::split` on `:` and ASCII white space.
pub open spec fn split_ld(s: Seq<char>) -> Seq<Seq<char>>
    decreases s.len(),
{
    let p = ld_pos(s);
    if p < 0 || p >= s.len() {
        seq![s]
    } else {
        seq![s.take(p)] + split_ld(s.skip(p + 1))
    }
}

/// The `LD_PRELOAD` entries kept: non-empty and not the packaged CEF library.
pub open spec fn kept_preloads(current: Seq<char>, cef_preload: Seq<char>) -> Seq<Seq<char>> {
    split_ld(current).filter(|e: Seq<char>| e.len() > 0 && e != cef_preload)
}

/// `LD_PRELOAD` for mpv: the entries other than the packaged CEF library,
/// separated by spaces; none when nothing is left.
pub open spec fn cleaned_ld_preload_spec(current: Seq<char>, cef_preload: Seq<char>) -> Option<Seq<char>> {
    let kept = kept_preloads(current, cef_preload);
    if kept.len() == 0 {
        None
    } else {
        Some(join(kept, seq![' ']))
    }
}

/// Whether `a` and `b` hold the same characters.
fn chars_eq(a: &Vec<char>, b: &Vec<char>) -> (r: bool)
    ensures
        r == (a@ == b@),
{
    if a.len() != b.len() {
        return false;
    }
    let mut i: usize = 0;
    while i < a.len()
        invariant
            a.len() == b.len(),
            i <= a.len(),
            forall|j: int| 0 <= j < i ==> a@[j] == b@[j],
        decreases a.len() - i,
    {
        if a[i] != b[i] {
            return false;
        }
        i = i + 1;
    }
    assert(a@ =~= b@);
    true
}

/// Filtering a one-element sequence keeps the element exactly when it passes.
proof fn lemma_filter_single(x: Seq<char>, keep: spec_fn(Seq<char>) -> bool)
    ensures
        seq![x].filter(keep) == (if keep(x) { seq![x] } else { Seq::<Seq<char>>::empty() }),
{
    reveal(Seq::filter);
    assert(seq![x].drop_last() =~= Seq::<Seq<char>>::empty());
    assert(Seq::<Seq<char>>::empty().filter(keep) =~= Seq::<Seq<char>>::empty());
    assert(seq![x].last() == x);
    assert(Seq::<Seq<char>>::empty().push(x) =~= seq![x]);
}

/// Splitting at a separator that follows a run of non-separators.
proof fn lemma_split_at_sep(cur: Seq<char>, rest: Seq<char>, keep: spec_fn(Seq<char>) -> bool)
    requires
        rest.len() > 0,
        ld_sep(rest[0]),
        forall|j: int| 0 <= j < cur.len() ==> !ld_sep(#[trigger] cur[j]),
    ensures
        split_ld(cur + rest).filter(keep) == (if keep(cur) { seq![cur] } else { Seq::<Seq<char>>::empty() })
            + split_ld(rest.skip(1)).filter(keep),
{
    let s = cur + rest;
    assert(s[cur.len() as int] == rest[0]);
    assert forall|j: int| 0 <= j < s.len() && j < cur.len() implies !ld_sep(#[trigger] s[j]) by {
        assert(s[j] == cur[j]);
    }
    lemma_ld_pos_at(s, cur.len() as int);
    assert(s.take(cur.len() as int) =~= cur);
    assert(s.skip(cur.len() as int + 1) =~= rest.skip(1));
    assert(split_ld(s) == seq![cur] + split_ld(rest.skip(1)));
    Seq::filter_distributes_over_add(seq![cur], split_ld(rest.skip(1)), keep);
    lemma_filter_single(cur, keep);
}

/// A run without separators splits into itself.
proof fn lemma_split_no_sep(cur: Seq<char>, keep: spec_fn(Seq<char>) -> bool)
    requires
        forall|j: int| 0 <= j < cur.len() ==> !ld_sep(#[trigger] cur[j]),
    ensures
        split_ld(cur).filter(keep) == (if keep(cur) { seq![cur] } else { Seq::<Seq<char>>::empty() }),
{
    lemma_ld_pos_at(cur, -1);
    assert(split_ld(cur) == seq![cur]);
    lemma_filter_single(cur, keep);
}

/// Whether an `LD_PRELOAD` character separates entries.
fn is_ld_sep(c: char) -> (r: bool)
    ensures
        r == ld_sep(c),
{
    c == ':' || c == ' ' || c == '\t' || c == '\n' || c == '\x0C' || c == '\r'
}

/// Appends `cur` to `kept` when it is an entry that stays.
fn keep_entry(kept: &mut Vec<Vec<char>>, cur: Vec<char>, cef: &Vec<char>)
    ensures
        views(final(kept)@) == views(old(kept)@) + (if cur@.len() > 0 && cur@ != cef@ {
            seq![cur@]
        } else {
            Seq::<Seq<char>>::empty()
        }),
{
    let ghost prev = kept@;
    let ghost c = cur@;
    let is_cef = chars_eq(&cur, cef);
    if cur.len() > 0 && !is_cef {
        kept.push(cur);
        assert(views(kept@) =~= views(prev) + seq![c]);
    } else {
        assert(views(kept@) =~= views(prev) + Seq::<Seq<char>>::empty());
    }
}

/// The entries of `v` that stay, as character vectors.
fn kept_entries(v: &Vec<char>, cef: &Vec<char>) -> (kept: Vec<Vec<char>>)
    ensures
        views(kept@) == kept_preloads(v@, cef@),
{
    let mut kept: Vec<Vec<char>> = Vec::new();
    let mut cur: Vec<char> = Vec::new();
    let mut i: usize = 0;
    let ghost keep = |e: Seq<char>| e.len() > 0 && e != cef@;
    proof {
        assert(cur@ + v@.skip(0) =~= v@);
        assert(views(kept@) =~= Seq::<Seq<char>>::empty());
        assert(kept_preloads(v@, cef@) =~= views(kept@) + split_ld(cur@ + v@.skip(0)).filter(keep));
    }
    while i < v.len()
        invariant
            i <= v.len(),
            keep == (|e: Seq<char>| e.len() > 0 && e != cef@),
            forall|j: int| 0 <= j < cur@.len() ==> !ld_sep(#[trigger] cur@[j]),
            kept_preloads(v@, cef@) == views(kept@) + split_ld(cur@ + v@.skip(i as int)).filter(keep),
        decreases v.len() - i,
    {
        let c = v[i];
        let ghost tail = split_ld(v@.skip(i + 1)).filter(keep);
        let ghost prev = views(kept@);
        let ghost old_cur = cur@;
        if is_ld_sep(c) {
            proof {
                assert(v@.skip(i as int).skip(1) =~= v@.skip(i + 1));
                lemma_split_at_sep(cur@, v@.skip(i as int), keep);
            }
            keep_entry(&mut kept, cur, cef);
            cur = Vec::new();
            proof {
                assert(cur@ + v@.skip(i + 1) =~= v@.skip(i + 1));
                assert(views(kept@) + tail =~= prev + ((if keep(old_cur) { seq![old_cur] } else { Seq::<Seq<char>>::empty() }) + tail));
            }
        } else {
            cur.push(c);
            proof {
                assert(v@.skip(i as int) =~= seq![c] + v@.skip(i + 1));
                assert(cur@ + v@.skip(i + 1) =~= old_cur + v@.skip(i as int));
            }
        }
        i = i + 1;
    }
    proof {
        assert(cur@ + v@.skip(v.len() as int) =~= cur@);
        lemma_split_no_sep(cur@, keep);
    }
    keep_entry(&mut kept, cur, cef);
    kept
}

/// Removes the packaged CEF library from an `LD_PRELOAD` value.
pub fn cleaned_ld_preload(current: &str, cef_preload: &str) -> (r: Option<String>)
    ensures
        opt_string_view(r) == cleaned_ld_preload_spec(current@, cef_preload@),
{
    let v = chars_of(current);
    let cef = chars_of(cef_preload);
    let kept = kept_entries(&v, &cef);
    if kept.len() == 0 {
        return None;
    }
    let space: Vec<char> = vec![' '];
    assert(space@ == seq![' ']);
    let joined = join_chars(&kept, &space);
    Some(string_from_chars(&joined))
}

} // verus!

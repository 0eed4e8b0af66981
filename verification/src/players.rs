//! Choosing a player runtime: the bundled libmpv's place beside the
//! application, the configured player path, and SVP 4's installation.
use vstd::prelude::*;

use crate::text::{
    chars_of, eq_ignore_case, starts_with_ignore_case, string_from_chars, to_owned, trim,
    trim_chars, trim_end_char, trim_end_chars, trim_start_char, trim_start_chars, trim_str,
    opt_string_view, opt_view,
};

verus! {

/// How mpv runs: as a separate process or as a library in this one.
#[derive(Debug, Clone, Copy, PartialEq, Eq)]
pub enum MpvRuntimeKind {
    External,
    Library,
}

/// The player backend chosen in the settings.
#[derive(Debug, Clone, Copy, PartialEq, Eq)]
pub enum PlayerBackendKind {
    Libmpv,
    Mpv,
    Mpchc,
}

/// `Path::join` of a relative path onto `base`: `rel` alone when `base` is
/// empty, else the two with one `/` between them.
pub open spec fn join_path(base: Seq<char>, rel: Seq<char>) -> Seq<char> {
    if base.len() == 0 {
        rel
    } else if base.last() == '/' {
        base + rel
    } else {
        base + seq!['/'] + rel
    }
}

/// Joins the relative path `rel` onto `base`.
pub fn join_path_str(base: &str, rel: &str) -> (r: String)
    ensures
        r@ == join_path(base@, rel@),
{
    let b = chars_of(base);
    if b.len() == 0 {
        return to_owned(rel);
    }
    let mut out = to_owned(base);
    if b[b.len() - 1] != '/' {
        crate::text::push_char(&mut out, '/');
    }
    crate::text::push_str(&mut out, rel);
    out
}

/// The operating systems the player runs on.
#[derive(Debug, Clone, Copy, PartialEq, Eq)]
pub enum TargetOs {
    Windows,
    Linux,
    Macos,
}

/// Where the bundled libmpv may lie on `os`, in the order searched: beside
/// the application first, then the other names and folders that system's
/// builds use.
pub open spec fn libmpv_candidates_spec(os: TargetOs, app_dir: Seq<char>) -> Seq<Seq<char>> {
    match os {
        TargetOs::Windows => seq![
            join_path(app_dir, "libmpv-2.dll"@),
            join_path(join_path(app_dir, "libmpv"@), "libmpv-2.dll"@),
            join_path(join_path(app_dir, "libmpv-windows-x64"@), "libmpv-2.dll"@),
        ],
        TargetOs::Linux => seq![
            join_path(app_dir, "libmpv.so.2"@),
            join_path(app_dir, "libmpv.so"@),
            join_path(join_path(app_dir, "libmpv"@), "libmpv.so.2"@),
        ],
        TargetOs::Macos => seq![
            join_path(app_dir, "libmpv.2.dylib"@),
            join_path(app_dir, "libmpv.dylib"@),
            join_path(app_dir, "../Frameworks/libmpv.2.dylib"@),
        ],
    }
}

/// The places searched on `os` for the bundled libmpv, given the
/// application's folder.
pub fn libmpv_candidates(os: TargetOs, app_dir: &str) -> (r: Vec<String>)
    ensures
        r@.map_values(|p: String| p@) == libmpv_candidates_spec(os, app_dir@),
{
    let mut out: Vec<String> = Vec::new();
    match os {
        TargetOs::Windows => {
            out.push(join_path_str(app_dir, "libmpv-2.dll"));
            let folder = join_path_str(app_dir, "libmpv");
            out.push(join_path_str(folder.as_str(), "libmpv-2.dll"));
            let folder = join_path_str(app_dir, "libmpv-windows-x64");
            out.push(join_path_str(folder.as_str(), "libmpv-2.dll"));
        },
        TargetOs::Linux => {
            out.push(join_path_str(app_dir, "libmpv.so.2"));
            out.push(join_path_str(app_dir, "libmpv.so"));
            let folder = join_path_str(app_dir, "libmpv");
            out.push(join_path_str(folder.as_str(), "libmpv.so.2"));
        },
        TargetOs::Macos => {
            out.push(join_path_str(app_dir, "libmpv.2.dylib"));
            out.push(join_path_str(app_dir, "libmpv.dylib"));
            out.push(join_path_str(app_dir, "../Frameworks/libmpv.2.dylib"));
        },
    }
    assert(out@.map_values(|p: String| p@) =~= libmpv_candidates_spec(os, app_dir@));
    out
}

/// The path the selected backend runs: the bundled libmpv for the library
/// backend (`bundled_libmpv`, as found on disk), else the configured player.
pub fn configured_player_path(
    backend: PlayerBackendKind,
    player_path: Option<&str>,
    bundled_libmpv: Option<String>,
) -> (r: Option<String>)
    ensures
        opt_string_view(r) == (match backend {
            PlayerBackendKind::Libmpv => opt_string_view(bundled_libmpv),
            _ => opt_view(player_path),
        }),
{
    match backend {
        PlayerBackendKind::Libmpv => bundled_libmpv,
        _ => match player_path {
            Some(p) => Some(to_owned(p)),
            None => None,
        },
    }
}

/// Whether an installed program's display name is SVP 4's: `svp 4` alone
/// or followed by a space, ASCII case ignored, surrounding white space
/// ignored.
pub open spec fn is_svp_display_name_spec(name: Seq<char>) -> bool {
    eq_ignore_case(trim(name), "svp 4"@) || starts_with_ignore_case(trim(name), "svp 4 "@)
}

/// Whether `display_name` names an SVP 4 product.
pub fn is_svp_display_name(display_name: &str) -> (r: bool)
    ensures
        r == is_svp_display_name_spec(display_name@),
{
    let t = chars_of(trim_str(display_name));
    let whole = chars_of("svp 4");
    let prefix = chars_of("svp 4 ");
    if crate::text::chars_eq_ignore_case(&t, &whole) {
        return true;
    }
    if t.len() < prefix.len() {
        return false;
    }
    let head = crate::text::slice_chars(&t, 0, prefix.len());
    assert(head@ =~= t@.take(prefix@.len() as int));
    crate::text::chars_eq_ignore_case(&head, &prefix)
}

/// A registry path value without surrounding white space and quotes; none
/// when nothing is left.
pub open spec fn clean_registry_path_spec(value: Seq<char>) -> Option<Seq<char>> {
    let t = trim(trim_end_char(trim_start_char(trim(value), '"'), '"'));
    if t.len() > 0 {
        Some(t)
    } else {
        None
    }
}

/// Cleans a path read from the registry.
pub fn clean_registry_path(value: &str) -> (r: Option<String>)
    ensures
        opt_string_view(r) == clean_registry_path_spec(value@),
{
    let v = chars_of(trim_str(value));
    let a = trim_start_chars(&v, '"');
    let b = trim_end_chars(&a, '"');
    let t = trim_chars(&b);
    if t.len() > 0 {
        Some(string_from_chars(&t))
    } else {
        None
    }
}

} // verus!

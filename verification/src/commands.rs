//! The `loadfile` command that hands a playback request to a running mpv.
use vstd::prelude::*;

use crate::headers::{
    filtered, mpv_headers, mpv_headers_spec, mpv_string_list, sanitize_option, string_list_spec, CharFilter,
};
use crate::model::{header_views, opt_str, PlaybackRequest};
use crate::numbers::{decimal, i64_to_string};
use crate::text::{non_empty, non_empty_spec, opt_string_view, push_str, to_owned};
use crate::url::{media_url_without_fragment, without_fragment};

verus! {

/// A `loadfile` command: the command name, the media URL, the load mode,
/// the playlist index, the per-file options in order, and the id mpv echoes
/// in its reply.
#[derive(Debug, Clone)]
pub struct LoadfileCommand {
    pub name: String,
    pub url: String,
    pub mode: String,
    pub index: i64,
    pub options: Vec<(String, String)>,
    pub request_id: i64,
}

/// The texts of a list of string pairs.
pub open spec fn option_views(values: Seq<(String, String)>) -> Seq<(Seq<char>, Seq<char>)> {
    values.map_values(|p: (String, String)| (p.0@, p.1@))
}

/// The `sid` option: `no` when an external subtitle will be added (so no
/// embedded one shows first), else the selected mpv track or `no` for a
/// track id that is not positive, else nothing.
pub open spec fn sid_option(launch: PlaybackRequest) -> Option<Seq<char>> {
    if non_empty_spec(opt_string_view(launch.subtitle_url)) is Some {
        Some("no"@)
    } else {
        match launch.subtitle_mpv_id {
            Some(id) => if id > 0 {
                Some(decimal(id as int))
            } else {
                Some("no"@)
            },
            None => None,
        }
    }
}

/// One `name: value` line of the header option.
pub open spec fn header_line(h: (Seq<char>, Seq<char>)) -> Seq<char> {
    h.0 + ": "@ + h.1
}

/// The per-file options for `launch`, in order: the media title (sanitized)
/// when not blank, the audio track when positive, the subtitle track, and
/// the forwarded headers as an mpv string list when there are any. No start
/// position: resuming is a seek after the file loads.
pub open spec fn loadfile_options_spec(launch: PlaybackRequest) -> Seq<(Seq<char>, Seq<char>)> {
    let title = match non_empty_spec(opt_string_view(launch.title)) {
        Some(t) => seq![("force-media-title"@, filtered(t, CharFilter::ArgValue))],
        None => Seq::empty(),
    };
    let aid = match launch.audio_mpv_id {
        Some(id) => if id > 0 {
            seq![("aid"@, decimal(id as int))]
        } else {
            Seq::empty()
        },
        None => Seq::empty(),
    };
    let sid = match sid_option(launch) {
        Some(v) => seq![("sid"@, v)],
        None => Seq::empty(),
    };
    let headers = mpv_headers_spec(launch, false);
    let header_opt = if headers.len() > 0 {
        seq![("http-header-fields"@, string_list_spec(headers.map_values(|h: (Seq<char>, Seq<char>)| header_line(h))))]
    } else {
        Seq::empty()
    };
    title + aid + sid + header_opt
}

/// The `name: value` lines of `headers`.
fn header_lines(headers: &Vec<crate::model::HttpHeader>) -> (r: Vec<String>)
    ensures
        r@.map_values(|s: String| s@) == header_views(headers@).map_values(
            |h: (Seq<char>, Seq<char>)| header_line(h),
        ),
{
    let mut out: Vec<String> = Vec::new();
    let mut i: usize = 0;
    while i < headers.len()
        invariant
            i <= headers.len(),
            out@.map_values(|s: String| s@) == header_views(headers@).take(i as int).map_values(
                |h: (Seq<char>, Seq<char>)| header_line(h),
            ),
        decreases headers.len() - i,
    {
        let mut line = to_owned(headers[i].name.as_str());
        push_str(&mut line, ": ");
        push_str(&mut line, headers[i].value.as_str());
        let ghost prev = out@;
        out.push(line);
        proof {
            let hv = header_views(headers@);
            assert(hv.take(i + 1) =~= hv.take(i as int).push(hv[i as int]));
            assert(out@.map_values(|s: String| s@) =~= prev.map_values(|s: String| s@).push(line@));
            assert(hv.take(i + 1).map_values(|h: (Seq<char>, Seq<char>)| header_line(h)) =~= hv.take(
                i as int,
            ).map_values(|h: (Seq<char>, Seq<char>)| header_line(h)).push(header_line(hv[i as int])));
        }
        i = i + 1;
    }
    assert(header_views(headers@).take(headers.len() as int) =~= header_views(headers@));
    out
}

/// The `loadfile` command for `launch` with reply id `request_id`: its URL
/// without the fragment replaces whatever mpv plays (index -1), with its
/// per-file options.
pub fn loadfile_command(launch: &PlaybackRequest, request_id: i64) -> (r: LoadfileCommand)
    ensures
        r.name@ == "loadfile"@,
        r.url@ == without_fragment(launch.media_url@),
        r.mode@ == "replace"@,
        r.index == -1,
        r.request_id == request_id,
        option_views(r.options@) == loadfile_options_spec(*launch),
{
    let mut options: Vec<(String, String)> = Vec::new();
    if let Some(title) = non_empty(opt_str(&launch.title)) {
        options.push((to_owned("force-media-title"), sanitize_option(title)));
    }
    let ghost after_title = option_views(options@);
    if let Some(id) = launch.audio_mpv_id {
        if id > 0 {
            options.push((to_owned("aid"), i64_to_string(id)));
        }
    }
    let ghost after_aid = option_views(options@);
    if non_empty(opt_str(&launch.subtitle_url)).is_some() {
        options.push((to_owned("sid"), to_owned("no")));
    } else if let Some(id) = launch.subtitle_mpv_id {
        let value = if id > 0 {
            i64_to_string(id)
        } else {
            to_owned("no")
        };
        options.push((to_owned("sid"), value));
    }
    let ghost after_sid = option_views(options@);
    let headers = mpv_headers(launch, false);
    if headers.len() > 0 {
        let lines = header_lines(&headers);
        let list = mpv_string_list(&lines);
        proof {
            assert(crate::headers::string_views(lines@) =~= lines@.map_values(|s: String| s@));
        }
        options.push((to_owned("http-header-fields"), list));
    }
    proof {
        let spec = loadfile_options_spec(*launch);
        assert(option_views(options@) =~= spec);
    }
    LoadfileCommand {
        name: to_owned("loadfile"),
        url: media_url_without_fragment(launch.media_url.as_str()),
        mode: to_owned("replace"),
        index: -1,
        options,
        request_id,
    }
}

/// A command of the player UI for mpv whose arguments are flags, track ids
/// or text.
#[derive(Debug, Clone, PartialEq, Eq)]
pub enum DiscreteCommand {
    SetPause(bool),
    SetMute(bool),
    SetAudioTrack(i64),
    /// A subtitle track, or none to hide subtitles.
    SetSubtitleTrack(Option<i64>),
    /// An external subtitle to add and select, by URL.
    AddSubtitle(String),
    ToggleSubtitleVisibility,
    ToggleFullscreen,
    Stop,
}

/// One argument of an mpv IPC command.
#[derive(Debug, Clone, PartialEq, Eq)]
pub enum IpcArg {
    Text(String),
    Int(i64),
    Flag(bool),
}

/// An argument as its value.
pub ghost enum ArgValue {
    Text(Seq<char>),
    Int(i64),
    Flag(bool),
}

/// The value of an argument.
pub open spec fn arg_value(a: IpcArg) -> ArgValue {
    match a {
        IpcArg::Text(t) => ArgValue::Text(t@),
        IpcArg::Int(i) => ArgValue::Int(i),
        IpcArg::Flag(b) => ArgValue::Flag(b),
    }
}

/// The values of the arguments of an optional command.
pub open spec fn args_value(args: Option<Vec<IpcArg>>) -> Option<Seq<ArgValue>> {
    match args {
        Some(a) => Some(a@.map_values(|x: IpcArg| arg_value(x))),
        None => None,
    }
}

/// `set_property` of `name` to `value`.
pub open spec fn set_property_spec(name: Seq<char>, value: ArgValue) -> Seq<ArgValue> {
    seq![ArgValue::Text("set_property"@), ArgValue::Text(name), value]
}

/// The mpv IPC command for `command`: none for a track id that is not
/// positive and for a blank subtitle URL. A subtitle track that is not
/// positive, or none, hides subtitles; a subtitle URL is added trimmed.
pub open spec fn control_args_spec(command: DiscreteCommand) -> Option<Seq<ArgValue>> {
    match command {
        DiscreteCommand::SetPause(p) => Some(set_property_spec("pause"@, ArgValue::Flag(p))),
        DiscreteCommand::SetMute(m) => Some(set_property_spec("mute"@, ArgValue::Flag(m))),
        DiscreteCommand::SetAudioTrack(id) => if id <= 0 {
            None
        } else {
            Some(set_property_spec("aid"@, ArgValue::Int(id)))
        },
        DiscreteCommand::SetSubtitleTrack(id) => match id {
            Some(i) if i > 0 => Some(set_property_spec("sid"@, ArgValue::Int(i))),
            _ => Some(set_property_spec("sid"@, ArgValue::Text("no"@))),
        },
        DiscreteCommand::AddSubtitle(url) => match non_empty_spec(Some(url@)) {
            Some(u) => Some(seq![ArgValue::Text("sub-add"@), ArgValue::Text(u), ArgValue::Text("select"@)]),
            None => None,
        },
        DiscreteCommand::ToggleSubtitleVisibility => Some(
            seq![ArgValue::Text("cycle"@), ArgValue::Text("sub-visibility"@)],
        ),
        DiscreteCommand::ToggleFullscreen => Some(seq![ArgValue::Text("cycle"@), ArgValue::Text("fullscreen"@)]),
        DiscreteCommand::Stop => Some(seq![ArgValue::Text("stop"@)]),
    }
}

/// A text argument.
fn text_arg(t: &str) -> (r: IpcArg)
    ensures
        arg_value(r) == ArgValue::Text(t@),
{
    IpcArg::Text(to_owned(t))
}

/// `set_property` of `name` to `value`.
fn set_property(name: &str, value: IpcArg) -> (r: Vec<IpcArg>)
    ensures
        r@.map_values(|x: IpcArg| arg_value(x)) == set_property_spec(name@, arg_value(value)),
{
    let v = vec![text_arg("set_property"), text_arg(name), value];
    assert(v@.map_values(|x: IpcArg| arg_value(x)) =~= set_property_spec(name@, arg_value(value)));
    v
}

/// The mpv IPC command arguments for `command`; none for one mpv cannot take.
pub fn control_args(command: &DiscreteCommand) -> (r: Option<Vec<IpcArg>>)
    ensures
        args_value(r) == control_args_spec(*command),
{
    match command {
        DiscreteCommand::SetPause(p) => Some(set_property("pause", IpcArg::Flag(*p))),
        DiscreteCommand::SetMute(m) => Some(set_property("mute", IpcArg::Flag(*m))),
        DiscreteCommand::SetAudioTrack(id) => {
            if *id <= 0 {
                None
            } else {
                Some(set_property("aid", IpcArg::Int(*id)))
            }
        },
        DiscreteCommand::SetSubtitleTrack(id) => match id {
            Some(i) if *i > 0 => Some(set_property("sid", IpcArg::Int(*i))),
            _ => Some(set_property("sid", text_arg("no"))),
        },
        DiscreteCommand::AddSubtitle(url) => match non_empty(Some(url.as_str())) {
            Some(u) => {
                let v = vec![text_arg("sub-add"), text_arg(u), text_arg("select")];
                proof {
                    reveal_strlit("sub-add");
                }
                assert(v@.map_values(|x: IpcArg| arg_value(x)) =~= seq![
                    ArgValue::Text("sub-add"@),
                    ArgValue::Text(u@),
                    ArgValue::Text("select"@),
                ]);
                Some(v)
            },
            None => None,
        },
        DiscreteCommand::ToggleSubtitleVisibility => {
            let v = vec![text_arg("cycle"), text_arg("sub-visibility")];
            assert(v@.map_values(|x: IpcArg| arg_value(x)) =~= seq![
                ArgValue::Text("cycle"@),
                ArgValue::Text("sub-visibility"@),
            ]);
            Some(v)
        },
        DiscreteCommand::ToggleFullscreen => {
            let v = vec![text_arg("cycle"), text_arg("fullscreen")];
            assert(v@.map_values(|x: IpcArg| arg_value(x)) =~= seq![
                ArgValue::Text("cycle"@),
                ArgValue::Text("fullscreen"@),
            ]);
            Some(v)
        },
        DiscreteCommand::Stop => {
            let v = vec![text_arg("stop")];
            assert(v@.map_values(|x: IpcArg| arg_value(x)) =~= seq![ArgValue::Text("stop"@)]);
            Some(v)
        },
    }
}

/// A positive subtitle track id selects that track by number; only no id
/// or one that is not positive turns subtitles off. Likewise a positive
/// audio track id selects that track, and any other id gives no command.
/// Pause and mute set their property to the flag given.
pub proof fn law_track_commands_select_the_track(id: i64, flag: bool)
    ensures
        id > 0 ==> control_args_spec(DiscreteCommand::SetSubtitleTrack(Some(id))) == Some(
            seq![ArgValue::Text("set_property"@), ArgValue::Text("sid"@), ArgValue::Int(id)],
        ),
        id <= 0 ==> control_args_spec(DiscreteCommand::SetSubtitleTrack(Some(id))) == Some(
            seq![ArgValue::Text("set_property"@), ArgValue::Text("sid"@), ArgValue::Text("no"@)],
        ),
        control_args_spec(DiscreteCommand::SetSubtitleTrack(None)) == Some(
            seq![ArgValue::Text("set_property"@), ArgValue::Text("sid"@), ArgValue::Text("no"@)],
        ),
        id > 0 ==> control_args_spec(DiscreteCommand::SetAudioTrack(id)) == Some(
            seq![ArgValue::Text("set_property"@), ArgValue::Text("aid"@), ArgValue::Int(id)],
        ),
        id <= 0 ==> control_args_spec(DiscreteCommand::SetAudioTrack(id)) is None,
        control_args_spec(DiscreteCommand::SetPause(flag)) == Some(
            seq![ArgValue::Text("set_property"@), ArgValue::Text("pause"@), ArgValue::Flag(flag)],
        ),
        control_args_spec(DiscreteCommand::SetMute(flag)) == Some(
            seq![ArgValue::Text("set_property"@), ArgValue::Text("mute"@), ArgValue::Flag(flag)],
        ),
{
}

} // verus!

use mediaflick_playback::ipc::{
    command_reply_result, equivalent_mpv_path, normalize_mpv_path_for_compare, FailureKind, IdCounter,
    IpcCommandFailure, ReplyErrorKind,
};
use mediaflick_playback::model::{HttpHeader, PlaybackRequest, ReportingState};
use mediaflick_playback::mpchc::{class_name, last_field, parse_i64};
use mediaflick_playback::properties::{PropertyData, PropertyEffect};
use mediaflick_playback::startup::{
    after_startup_seek_sent, defer_startup_position_update, due_startup_seek, queue_startup_seek, SeekOutcome,
};

// The replies `{"request_id": 42, "error": "success"}` and
// `{"request_id": 43, "error": "property unavailable"}`.
#[test]
fn command_replies_surface_mpv_rejections() {
    assert!(command_reply_result(Some("success"), 42).is_ok());
    let error = command_reply_result(Some("property unavailable"), 43).expect_err("rejected command");
    assert!(error.message.contains("property unavailable"));
}

#[test]
fn replies_without_a_status_are_invalid_data() {
    let error = command_reply_result(None, -7).expect_err("no status");
    assert_eq!(error.kind, ReplyErrorKind::InvalidData);
    assert_eq!(error.message, "mpv reply for request -7 did not contain an error status");
    let error = command_reply_result(Some("Success"), 9).expect_err("case matters");
    assert_eq!(error.kind, ReplyErrorKind::Other);
    assert_eq!(error.message, "mpv rejected request 9: Success");
}

#[test]
fn failures_keep_their_kind_under_context() {
    let failure = IpcCommandFailure {
        kind: FailureKind::Transport,
        message: "broken pipe".to_string(),
    };
    assert!(failure.is_transport());
    let failure = failure.with_context("loadfile");
    assert!(failure.is_transport());
    assert_eq!(failure.message, "loadfile: broken pipe");
    let rejected = IpcCommandFailure {
        kind: FailureKind::Rejected,
        message: "x".to_string(),
    };
    assert!(!rejected.is_transport());
}

#[test]
fn ids_count_up_and_wrap() {
    let mut ids = IdCounter::new(100);
    assert_eq!(ids.next_id(), 100);
    assert_eq!(ids.next_id(), 101);
    let mut last = IdCounter::new(i64::MAX);
    assert_eq!(last.next_id(), i64::MAX);
    assert_eq!(last.next_id(), i64::MIN);
}

#[test]
fn player_paths_compare_without_quotes_and_spaces() {
    assert_eq!(normalize_mpv_path_for_compare("  \"/usr/bin/mpv\" "), "/usr/bin/mpv");
    assert!(equivalent_mpv_path("/usr/bin/mpv", " \"/usr/bin/mpv\""));
    assert!(!equivalent_mpv_path("/usr/bin/mpv", "/usr/local/bin/mpv"));
}

#[test]
fn payload_numbers_parse_like_i64_and_default_to_zero() {
    assert_eq!(parse_i64(" 42 "), 42);
    assert_eq!(parse_i64("-17"), -17);
    assert_eq!(parse_i64("+5"), 5);
    assert_eq!(parse_i64("9223372036854775807"), i64::MAX);
    assert_eq!(parse_i64("-9223372036854775808"), i64::MIN);
    assert_eq!(parse_i64("9223372036854775808"), 0);
    assert_eq!(parse_i64(""), 0);
    assert_eq!(parse_i64("-"), 0);
    assert_eq!(parse_i64("12a"), 0);
    assert_eq!(parse_i64("1 2"), 0);
}

#[test]
fn last_field_is_after_the_last_pipe() {
    assert_eq!(last_field("title|path| 120.5 ").as_deref(), Some("120.5"));
    assert_eq!(last_field("no pipes").as_deref(), Some("no pipes"));
    assert_eq!(last_field("ends|").as_deref(), Some(""));
}

#[test]
fn class_name_is_nul_terminated_utf16() {
    let name = class_name();
    assert_eq!(name.last(), Some(&0));
    assert_eq!(String::from_utf16(&name[..name.len() - 1]).unwrap(), "MediaFlickDesktopMpcHcSlave");
}

#[test]
fn merging_fills_only_what_is_missing() {
    let mut target = PlaybackRequest::new("  ");
    target.item_id = Some("kept".to_string());
    let mut other = PlaybackRequest::new("https://host/video.mkv");
    other.item_id = Some("other".to_string());
    other.title = Some("Title".to_string());
    other.runtime_ticks = Some(5);
    other.headers = vec![HttpHeader {
        name: "Cookie".to_string(),
        value: "a=b".to_string(),
    }];
    target.merge_missing_from(&other);
    assert_eq!(target.media_url, "https://host/video.mkv");
    assert_eq!(target.item_id.as_deref(), Some("kept"));
    assert_eq!(target.title.as_deref(), Some("Title"));
    assert_eq!(target.runtime_ticks, Some(5));
    assert_eq!(target.headers, other.headers);
    let once = target.clone();
    target.merge_missing_from(&other);
    assert_eq!(target, once);
}

fn data(ticks: Option<i64>, rounded: Option<i64>, flag: Option<bool>) -> PropertyData {
    PropertyData { ticks, rounded, flag }
}

#[test]
fn properties_update_the_playstate() {
    let mut state = ReportingState::default();
    assert_eq!(
        state.apply_property("time-pos", data(Some(50), None, None)),
        PropertyEffect::PositionSample(50)
    );
    assert_eq!(state.position_ticks, 0);
    assert_eq!(state.record_position(50), 0);
    assert_eq!(state.position_ticks, 50);
    assert_eq!(state.apply_property("pause", data(None, None, Some(true))), PropertyEffect::Published);
    assert!(state.pause);
    assert_eq!(state.apply_property("pause", data(None, None, None)), PropertyEffect::Ignored);
    assert!(state.pause);
    assert_eq!(state.apply_property("duration", data(None, None, None)), PropertyEffect::Published);
    assert_eq!(state.duration_ticks, None);
    assert_eq!(state.apply_property("volume", data(None, Some(80), None)), PropertyEffect::Published);
    assert_eq!(state.volume, Some(80));
    assert_eq!(state.apply_property("eof-reached", data(None, None, None)), PropertyEffect::Updated);
    assert!(!state.eof_reached);
    assert_eq!(state.apply_property("seeking", data(None, None, Some(false))), PropertyEffect::Seeking(false));
    assert_eq!(state.apply_property("playback-abort", data(None, None, Some(true))), PropertyEffect::Ignored);
}

#[test]
fn resume_seek_waits_then_retries_until_the_position_arrives() {
    const RESUME_TICKS: i64 = 900_000_000;
    assert_eq!(queue_startup_seek(0, 10), None);
    let mut seek = queue_startup_seek(RESUME_TICKS, 1_000);
    assert_eq!(due_startup_seek(&seek, 1_499), None);
    assert_eq!(due_startup_seek(&seek, 1_500), Some(RESUME_TICKS));
    let (next, lost) = after_startup_seek_sent(seek, SeekOutcome::Sent, 1_500);
    assert!(!lost);
    seek = next;
    assert_eq!(seek.map(|s| s.sent_at_ms), Some(Some(1_500)));
    assert!(defer_startup_position_update(&mut seek, 0));
    assert_eq!(due_startup_seek(&seek, 2_499), None);
    assert_eq!(due_startup_seek(&seek, 2_500), Some(RESUME_TICKS));
    let (next, lost) = after_startup_seek_sent(seek, SeekOutcome::Rejected, 2_500);
    assert!(!lost);
    seek = next;
    assert!(seek.is_some());
    assert!(defer_startup_position_update(&mut seek, RESUME_TICKS - 30_000_001));
    assert!(!defer_startup_position_update(&mut seek, RESUME_TICKS - 30_000_000));
    assert!(seek.is_none());
    let (gone, lost) = after_startup_seek_sent(queue_startup_seek(5, 0), SeekOutcome::TransportFailed, 0);
    assert!(lost);
    assert!(gone.is_some());
}

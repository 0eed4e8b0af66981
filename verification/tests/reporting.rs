use mediaflick_playback::commands::{control_args, loadfile_command, DiscreteCommand, IpcArg, LoadfileCommand};
use mediaflick_playback::context::{
    update_identity_from_context, Identity, PlaybackContext, PlaybackContextRegistry, DEFAULT_CONTEXT_TTL_MS,
};
use mediaflick_playback::model::{HttpHeader, PlaybackRequest};
use mediaflick_playback::players::{clean_registry_path, configured_player_path, join_path_str, PlayerBackendKind};
use mediaflick_playback::reporter::{
    estimate_position_ticks, join_api_url, progress_body, server_base_url, stop_body, PlaybackSession, Report,
    ReportKind, ReporterState, StatusTicks,
};

fn option<'a>(command: &'a LoadfileCommand, name: &str) -> Option<&'a str> {
    command
        .options
        .iter()
        .find(|(key, _)| key == name)
        .map(|(_, value)| value.as_str())
}

fn check_loadfile_shape() {
    let mut launch = PlaybackRequest::new("https://example.test/video.mkv");
    launch.start_time_ticks = Some(20_000_000);
    launch.title = Some("A Movie".to_string());

    let command = loadfile_command(&launch, 100);
    assert_eq!(command.name, "loadfile");
    assert_eq!(command.url, "https://example.test/video.mkv");
    assert_eq!(command.mode, "replace");
    assert_eq!(command.index, -1);
    assert_eq!(command.request_id, 100);
    assert!(option(&command, "start").is_none());
    assert_eq!(option(&command, "force-media-title"), Some("A Movie"));
}

#[test]
fn commands_loadfile_command_contains_url_replace_options_and_request_id() {
    check_loadfile_shape();
}

#[test]
fn controller_loadfile_command_contains_url_replace_options_and_request_id() {
    check_loadfile_shape();
}

#[test]
fn mpv_controller_loadfile_command_contains_url_replace_options_and_request_id() {
    check_loadfile_shape();
}

fn check_selected_tracks() {
    let mut launch = PlaybackRequest::new("https://example.test/video.mkv");
    launch.audio_stream_index = Some(3);
    launch.subtitle_stream_index = Some(5);
    launch.audio_mpv_id = Some(2);
    launch.subtitle_mpv_id = Some(1);

    let command = loadfile_command(&launch, 101);
    assert_eq!(option(&command, "aid"), Some("2"));
    assert_eq!(option(&command, "sid"), Some("1"));
}

#[test]
fn commands_loadfile_command_applies_selected_tracks() {
    check_selected_tracks();
}

#[test]
fn controller_loadfile_command_applies_selected_tracks() {
    check_selected_tracks();
}

fn check_external_subtitle_disables_embedded() {
    let mut launch = PlaybackRequest::new("https://example.test/video.mkv");
    launch.subtitle_stream_index = Some(7);
    launch.subtitle_url = Some("https://example.test/subtitle.srt".to_string());

    let command = loadfile_command(&launch, 102);
    assert_eq!(option(&command, "sid"), Some("no"));
}

#[test]
fn commands_loadfile_command_disables_embedded_subtitles_for_external_subtitle() {
    check_external_subtitle_disables_embedded();
}

#[test]
fn controller_loadfile_command_disables_embedded_subtitles_for_external_subtitle() {
    check_external_subtitle_disables_embedded();
}

fn check_header_escaping() {
    let mut launch = PlaybackRequest::new("https://example.test/video.mkv");
    launch.headers = vec![
        HttpHeader {
            name: "Authorization".to_string(),
            value: "MediaBrowser Client=\"Jellyfin Web\", Token=\"abc,def\"".to_string(),
        },
        HttpHeader {
            name: "Host".to_string(),
            value: "evil.test".to_string(),
        },
    ];

    let command = loadfile_command(&launch, 103);
    let headers = option(&command, "http-header-fields").expect("header list");
    assert!(headers.contains("Authorization: MediaBrowser Client=\"Jellyfin Web\"\\, Token=\"abc\\,def\""));
    assert!(!headers.contains("Host:"));
}

#[test]
fn commands_loadfile_filters_and_escapes_headers_for_mpv_string_list() {
    check_header_escaping();
}

#[test]
fn controller_loadfile_filters_and_escapes_headers_for_mpv_string_list() {
    check_header_escaping();
}

#[test]
fn mpv_controller_loadfile_filters_and_escapes_headers_for_mpv_string_list() {
    check_header_escaping();
}

fn check_token_header_from_url() {
    let launch = PlaybackRequest::new("https://example.test/video.mkv?ApiKey=secret");
    let command = loadfile_command(&launch, 104);
    let headers = option(&command, "http-header-fields").expect("header list");
    assert_eq!(headers, "X-Emby-Token: secret");
}

#[test]
fn commands_loadfile_adds_token_header_from_url_when_missing() {
    check_token_header_from_url();
}

#[test]
fn controller_loadfile_adds_token_header_from_url_when_missing() {
    check_token_header_from_url();
}

#[test]
fn mpv_controller_loadfile_adds_token_header_from_url_when_missing() {
    check_token_header_from_url();
}

fn check_fragment_stripped() {
    let mut launch = PlaybackRequest::new("https://example.test/video.mkv?ApiKey=secret#t=30");
    launch.start_time_ticks = Some(300_000_000);

    let command = loadfile_command(&launch, 105);
    assert_eq!(command.url, "https://example.test/video.mkv?ApiKey=secret");
    assert!(option(&command, "start").is_none());
}

#[test]
fn commands_loadfile_strips_media_fragment_from_url() {
    check_fragment_stripped();
}

#[test]
fn controller_loadfile_strips_media_fragment_from_url() {
    check_fragment_stripped();
}

#[test]
fn mpv_controller_loadfile_strips_media_fragment_from_url() {
    check_fragment_stripped();
}

#[test]
fn server_base_url_edges() {
    assert_eq!(server_base_url("example.test/Videos/x"), None);
    assert_eq!(server_base_url("https:///Videos/x"), None);
    assert_eq!(
        server_base_url("http://host:8096/Audio/abc/universal").as_deref(),
        Some("http://host:8096")
    );
    assert_eq!(
        server_base_url("https://host/media//audio/abc").as_deref(),
        Some("https://host/media")
    );
    assert_eq!(server_base_url("https://host").as_deref(), Some("https://host"));
    assert_eq!(server_base_url("https://host/other/path").as_deref(), Some("https://host"));
}

#[test]
fn api_urls_join_with_one_slash() {
    assert_eq!(join_api_url("https://h/base/", "/Sessions/Playing"), "https://h/base/Sessions/Playing");
    assert_eq!(join_api_url("https://h", "Sessions/Playing/Stopped"), "https://h/Sessions/Playing/Stopped");
}

#[test]
fn position_estimate_adds_elapsed_ticks_and_saturates() {
    assert_eq!(estimate_position_ticks(5, 1_500), 15_000_005);
    assert_eq!(estimate_position_ticks(i64::MAX - 1, 1), i64::MAX);
    assert_eq!(estimate_position_ticks(-20_000, 1), -10_000);
    assert_eq!(estimate_position_ticks(0, u64::MAX), i64::MAX);
}

fn reportable_launch() -> PlaybackRequest {
    let mut launch = PlaybackRequest::new("https://example.test/jf/Videos/item/stream.mkv?api_key=secret");
    launch.item_id = Some(" item ".to_string());
    launch.play_session_id = Some("session".to_string());
    launch.media_source_id = Some("   ".to_string());
    launch.runtime_ticks = Some(0);
    launch
}

#[test]
fn sessions_need_an_item_a_server_and_a_credential() {
    let launch = reportable_launch();
    let session = PlaybackSession::from_launch_at(&launch, Some(40_000), 77).expect("session");
    assert_eq!(session.base_url, "https://example.test/jf");
    assert_eq!(session.item_id, "item");
    assert_eq!(session.media_source_id, None);
    assert_eq!(session.play_session_id.as_deref(), Some("session"));
    assert_eq!(session.start_position_ticks, 40_000);
    assert_eq!(session.runtime_ticks, None);
    assert_eq!(session.playback_start_time_ticks, 77);
    assert!(!session.auth_headers.is_empty());

    let mut no_item = reportable_launch();
    no_item.item_id = Some("  ".to_string());
    assert!(PlaybackSession::from_launch_at(&no_item, None, 0).is_none());

    let no_token = PlaybackRequest {
        media_url: "https://example.test/Videos/item/stream.mkv".to_string(),
        item_id: Some("item".to_string()),
        ..PlaybackRequest::default()
    };
    assert!(PlaybackSession::from_launch_at(&no_token, None, 0).is_none());

    let mut negative_start = reportable_launch();
    negative_start.start_time_ticks = Some(-5);
    let session = PlaybackSession::from_launch_at(&negative_start, Some(40_000), 0).expect("session");
    assert_eq!(session.start_position_ticks, 0);
}

#[test]
fn report_bodies_clamp_negative_positions() {
    let session = PlaybackSession::from_launch_at(&reportable_launch(), None, 9).expect("session");
    let progress = progress_body(&session, Some(100), -3, true);
    assert_eq!(progress.position_ticks, 0);
    assert!(progress.can_seek);
    assert!(progress.is_paused);
    assert!(!progress.is_muted);
    assert_eq!(progress.play_method, "DirectPlay");
    assert_eq!(progress.volume_level, 100);
    assert_eq!(progress.playback_start_time_ticks, 9);
    assert!(!progress_body(&session, None, 5, false).can_seek);
    let stop = stop_body(&session, -1);
    assert_eq!(stop.position_ticks, 0);
    assert!(!stop.failed);
    assert_eq!(stop.item_id, "item");
}

fn status(position_ticks: Option<i64>, pause: Option<bool>, duration_ticks: Option<i64>) -> Option<StatusTicks> {
    Some(StatusTicks {
        position_ticks,
        pause,
        duration_ticks,
    })
}

#[test]
fn monitor_reports_start_after_grace_then_progress_and_one_stop() {
    let session = PlaybackSession::from_launch_at(&reportable_launch(), Some(1_000), 0).expect("session");
    let mut state = ReporterState::new(&session);

    assert_eq!(state.poll(1_000, status(Some(10), Some(false), Some(500))), None);
    assert_eq!(state.runtime_ticks, Some(500));
    assert_eq!(
        state.poll(2_000, status(Some(20), None, None)),
        Some(Report {
            kind: ReportKind::Start,
            position_ticks: 20,
            is_paused: false
        })
    );
    assert_eq!(state.poll(3_000, status(Some(30), None, None)), None);
    assert_eq!(
        state.poll(4_000, status(None, Some(true), None)),
        Some(Report {
            kind: ReportKind::Progress,
            position_ticks: 30,
            is_paused: true
        })
    );
    assert_eq!(state.poll(13_999, None), None);
    assert_eq!(
        state.poll(14_000, None),
        Some(Report {
            kind: ReportKind::Progress,
            position_ticks: 30,
            is_paused: true
        })
    );
    let reports = state.finish(status(Some(40), Some(false), None));
    assert_eq!(
        reports,
        vec![Report {
            kind: ReportKind::Stopped,
            position_ticks: 40,
            is_paused: false
        }]
    );
}

#[test]
fn monitor_estimates_position_without_answers_and_reports_start_at_exit() {
    let session = PlaybackSession::from_launch_at(&reportable_launch(), Some(1_000), 0).expect("session");
    let mut state = ReporterState::new(&session);
    assert_eq!(state.poll(500, None), None);
    assert_eq!(state.last_position_ticks, 1_000 + 500 * 10_000);
    let reports = state.finish(None);
    assert_eq!(reports.len(), 2);
    assert_eq!(reports[0].kind, ReportKind::Start);
    assert_eq!(reports[1].kind, ReportKind::Stopped);
    assert_eq!(reports[1].position_ticks, 1_000 + 500 * 10_000);
}

fn context(item: &str) -> PlaybackContext {
    PlaybackContext {
        item_id: Some(item.to_string()),
        ..Default::default()
    }
}

#[test]
fn registry_keeps_fresh_contexts_in_order() {
    let mut registry = PlaybackContextRegistry::new(1_000);
    registry.remember_at(context("a"), 0);
    registry.remember_at(context("b"), 500);
    registry.remember_at(context("c"), 1_200);
    assert_eq!(registry.len(), 2);
    assert_eq!(registry.entry(0).context.item_id.as_deref(), Some("b"));
    assert_eq!(registry.entry(1).context.item_id.as_deref(), Some("c"));
    registry.prune_at(1_500);
    assert_eq!(registry.len(), 2);
    registry.prune_at(1_501);
    assert_eq!(registry.len(), 1);
    assert_eq!(registry.entry(0).seen_at_ms, 1_200);
    registry.prune_at(1_200);
    assert_eq!(registry.len(), 1);
}

#[test]
fn registry_defaults_to_fifteen_minutes_and_remembers_now() {
    assert_eq!(DEFAULT_CONTEXT_TTL_MS, 15 * 60 * 1_000);
    let mut registry = PlaybackContextRegistry::default();
    registry.remember(context("item"));
    registry.prune();
    assert_eq!(registry.len(), 1);
}

#[test]
fn identity_update_fills_only_missing_fields() {
    let mut identity = Identity {
        playback_id: 4,
        item_id: Some("item".to_string()),
        media_source_id: None,
        play_session_id: None,
    };
    let ctx = PlaybackContext {
        item_id: Some("other".to_string()),
        media_source_id: Some("source".to_string()),
        play_session_id: None,
        title: None,
        runtime_ticks: None,
    };
    update_identity_from_context(&mut identity, &ctx);
    assert_eq!(identity.playback_id, 4);
    assert_eq!(identity.item_id.as_deref(), Some("item"));
    assert_eq!(identity.media_source_id.as_deref(), Some("source"));
    assert_eq!(identity.play_session_id, None);
}

#[test]
fn player_path_and_registry_values() {
    assert_eq!(
        configured_player_path(PlayerBackendKind::Libmpv, Some("/usr/bin/mpv"), Some("/opt/libmpv.so.2".to_string())),
        Some("/opt/libmpv.so.2".to_string())
    );
    assert_eq!(
        configured_player_path(PlayerBackendKind::Mpv, Some("/usr/bin/mpv"), None),
        Some("/usr/bin/mpv".to_string())
    );
    assert_eq!(configured_player_path(PlayerBackendKind::Mpchc, None, Some("x".to_string())), None);
    assert_eq!(join_path_str("", "libmpv.so"), "libmpv.so");
    assert_eq!(join_path_str("app/", "libmpv.so"), "app/libmpv.so");
    assert_eq!(clean_registry_path("  \"C:\\SVP 4\\\"  ").as_deref(), Some("C:\\SVP 4\\"));
    assert_eq!(clean_registry_path(" \"\" "), None);
}

fn text(value: &str) -> IpcArg {
    IpcArg::Text(value.to_string())
}

#[test]
fn discrete_commands_map_to_mpv_ipc_commands() {
    assert_eq!(
        control_args(&DiscreteCommand::SetPause(true)),
        Some(vec![text("set_property"), text("pause"), IpcArg::Flag(true)])
    );
    assert_eq!(
        control_args(&DiscreteCommand::SetAudioTrack(2)),
        Some(vec![text("set_property"), text("aid"), IpcArg::Int(2)])
    );
    assert_eq!(control_args(&DiscreteCommand::SetAudioTrack(0)), None);
    assert_eq!(
        control_args(&DiscreteCommand::SetSubtitleTrack(None)),
        Some(vec![text("set_property"), text("sid"), text("no")])
    );
    assert_eq!(
        control_args(&DiscreteCommand::SetSubtitleTrack(Some(-1))),
        Some(vec![text("set_property"), text("sid"), text("no")])
    );
    assert_eq!(
        control_args(&DiscreteCommand::AddSubtitle("  https://host/sub.srt ".to_string())),
        Some(vec![text("sub-add"), text("https://host/sub.srt"), text("select")])
    );
    assert_eq!(control_args(&DiscreteCommand::AddSubtitle("   ".to_string())), None);
    assert_eq!(control_args(&DiscreteCommand::Stop), Some(vec![text("stop")]));
    assert_eq!(
        control_args(&DiscreteCommand::ToggleFullscreen),
        Some(vec![text("cycle"), text("fullscreen")])
    );
}

use mediaflick_playback::context::{Identity, PlaybackContext};
use mediaflick_playback::coordinator::PlayerPathChoice;
use mediaflick_playback::model::{PlaybackRequest, PlayerTrackKind, StopReason};
use mediaflick_playback::mpchc_skip::MpcSkipper;
use mediaflick_playback::properties::PropertyData;
use mediaflick_playback::segments::{SegmentSkipConfig, SegmentSkipMode, SegmentType, SkipSegment};
use mediaflick_playback::session::{
    mpv_event_from_line, mpv_start_decision, ControlDecision, ControlKind, IpcLine, LoadGate, MpvEvent, MpvSession,
    MpvStart,
};
use mediaflick_playback::skipper::SkipperAction;
use mediaflick_playback::startup::SeekOutcome;
use mediaflick_playback::tracks::{playback_tracks, RawTrack};
use mediaflick_playback::transition::{PendingPlayback, TransitionEvent};

const NOW: u64 = 10_000;
const TICKS_PER_SECOND: f64 = 10_000_000.0;

fn pending_for(launch: &PlaybackRequest) -> PendingPlayback {
    PendingPlayback {
        key: "test-load".to_string(),
        requested_at_ms: NOW,
        identity: Identity::from_launch(1, launch),
        start_ticks: launch.start_time_ticks.unwrap_or(0),
        runtime_ticks: launch.runtime_ticks,
        has_reporter: false,
    }
}

fn controller_with_pending_load(start_time_ticks: Option<i64>) -> MpvSession {
    let mut launch = PlaybackRequest::new("https://example.test/video.mkv?ApiKey=secret");
    launch.start_time_ticks = start_time_ticks;
    let mut state = MpvSession::new(SegmentSkipConfig::default());
    state.transitions.pending = Some(pending_for(&launch));
    state
}

fn add_prompt_credits_segment(state: &mut MpvSession) {
    state.skipper.segments = vec![SkipSegment {
        segment_type: SegmentType::Outro,
        start_ticks: 100_000_000,
        end_ticks: 200_000_000,
        triggered: false,
    }];
}

fn flag(value: bool) -> PropertyData {
    PropertyData { ticks: None, rounded: None, flag: Some(value) }
}

/// A number of seconds as mpv sends it, converted as the controller does.
fn seconds(value: f64) -> PropertyData {
    PropertyData { ticks: Some((value * TICKS_PER_SECOND).round() as i64), rounded: Some(value.round() as i64), flag: None }
}

fn event(name: &str, property: Option<&str>, data: PropertyData) -> MpvEvent {
    MpvEvent {
        name: name.to_string(),
        reason: None,
        property: property.map(str::to_string),
        data,
        args: Vec::new(),
    }
}

fn no_data() -> PropertyData {
    PropertyData { ticks: None, rounded: None, flag: None }
}

fn ticks_to_ms(ticks: i64) -> f64 {
    ticks as f64 / 10_000.0
}

fn check_playback_abort_does_not_fail_pending_load() {
    let mut state = controller_with_pending_load(Some(20_000_000));

    state.apply_property("playback-abort", flag(true), NOW);

    assert!(state.transitions.pending.is_some());
    state.activate_pending(NOW);
    assert!(state.transitions.pending.is_none());
    assert_eq!(state.startup_seek.map(|seek| ticks_to_ms(seek.target_ticks)), Some(2000.0));
    assert_eq!(state.transitions.position_ticks, 20_000_000);
}

#[test]
fn controller_playback_abort_snapshot_does_not_fail_pending_load() {
    check_playback_abort_does_not_fail_pending_load();
}

#[test]
fn mpv_controller_playback_abort_snapshot_does_not_fail_pending_load() {
    check_playback_abort_does_not_fail_pending_load();
}

fn check_zero_start() {
    let mut state = controller_with_pending_load(None);

    state.activate_pending(NOW);

    assert!(state.transitions.pending.is_none());
    assert!(state.startup_seek.is_none());
    assert_eq!(state.transitions.position_ticks, 0);
}

#[test]
fn controller_zero_start_does_not_queue_startup_seek() {
    check_zero_start();
}

#[test]
fn mpv_controller_zero_start_does_not_queue_startup_seek() {
    check_zero_start();
}

fn check_startup_seek_holds_resume_position() {
    let mut state = controller_with_pending_load(Some(1_000_000_000));

    state.activate_pending(NOW);
    assert_eq!(state.transitions.position_ticks, 1_000_000_000);
    assert!(state.startup_seek.is_some());

    state.apply_property("time-pos", seconds(0.0), NOW);
    assert_eq!(state.transitions.position_ticks, 1_000_000_000);
    assert!(state.startup_seek.is_some());

    state.apply_property("time-pos", seconds(98.0), NOW);
    assert_eq!(state.transitions.position_ticks, 980_000_000);
    assert!(state.startup_seek.is_none());
}

#[test]
fn controller_startup_seek_holds_resume_position_until_mpv_reaches_resume_range() {
    check_startup_seek_holds_resume_position();
}

#[test]
fn mpv_controller_startup_seek_holds_resume_position_until_mpv_reaches_resume_range() {
    check_startup_seek_holds_resume_position();
}

#[test]
fn tests_startup_seek_holds_resume_position_until_mpv_reaches_resume_range() {
    check_startup_seek_holds_resume_position();
}

fn check_end_file_error_fails_pending_load() {
    let mut state = controller_with_pending_load(None);

    state.finish_active(Some("error"), NOW);

    assert!(state.transitions.pending.is_none());
}

#[test]
fn controller_end_file_error_still_fails_pending_load() {
    check_end_file_error_fails_pending_load();
}

#[test]
fn mpv_controller_end_file_error_still_fails_pending_load() {
    check_end_file_error_fails_pending_load();
}

#[test]
fn native_seek_event_records_prompt_segment_start_before_seeking_property() {
    let mut state = controller_with_pending_load(None);
    add_prompt_credits_segment(&mut state);
    state.transitions.position_ticks = 150_000_000;

    state.handle_seek_event();
    state.transitions.position_ticks = 155_000_000;
    state.skipper.handle_seeking_property(true, state.transitions.position_ticks, NOW);

    assert_eq!(state.skipper.seek_started_at_ticks, Some(150_000_000));
}

#[test]
fn native_seek_waits_for_position_update_when_seeking_false_is_early() {
    let mut state = controller_with_pending_load(None);
    add_prompt_credits_segment(&mut state);
    state.transitions.position_ticks = 150_000_000;

    state.handle_seek_event();
    state.skipper.handle_seeking_property(false, state.transitions.position_ticks, NOW);
    assert_eq!(state.skipper.seek_started_at_ticks, Some(150_000_000));

    state.skipper.maybe_accept_pending_native_seek(145_000_000, NOW);
    assert_eq!(state.skipper.seek_started_at_ticks, None);
}

#[test]
fn controller_always_skip_starts_countdown_without_immediate_trigger() {
    let mut state = controller_with_pending_load(None);
    state.skipper.config.credits = SegmentSkipMode::Always;
    add_prompt_credits_segment(&mut state);

    state.skipper.update_skip_segment_state(150_000_000, NOW);

    assert_eq!(state.skipper.state.pending_segment(), Some(0));
    assert!(!state.skipper.segments[0].triggered);
}

#[test]
fn controller_always_skip_countdown_cancels_after_leaving_segment() {
    let mut state = controller_with_pending_load(None);
    state.skipper.config.credits = SegmentSkipMode::Always;
    add_prompt_credits_segment(&mut state);

    state.skipper.update_skip_segment_state(150_000_000, NOW);
    state.skipper.update_skip_segment_state(250_000_000, NOW);

    assert!(state.skipper.state.pending_segment().is_none());
    assert!(!state.skipper.segments[0].triggered);
}

#[test]
fn late_playback_context_updates_active_identity() {
    let mut state = controller_with_pending_load(None);
    let pending = state.transitions.pending.as_mut().expect("pending");
    let mut launch = PlaybackRequest::new("https://example.test/video.mkv?ApiKey=secret");
    launch.item_id = Some("item-1".to_string());
    launch.media_source_id = Some("source-1".to_string());
    pending.identity = Identity::from_launch(1, &launch);

    state.activate_pending(NOW);
    state.transitions.update_active_playback_context(&PlaybackContext {
        item_id: Some("item-1".to_string()),
        media_source_id: Some("source-1".to_string()),
        play_session_id: Some("session-1".to_string()),
        ..Default::default()
    });

    assert_eq!(
        state
            .transitions
            .playback_identity
            .as_ref()
            .and_then(|identity| identity.play_session_id.as_deref()),
        Some("session-1")
    );
    assert_eq!(
        state
            .transitions
            .current_identity()
            .and_then(|identity| identity.play_session_id.as_deref()),
        Some("session-1")
    );
}

#[test]
fn pending_load_blocks_different_replacement_until_file_loaded() {
    let mut state = controller_with_pending_load(None);
    let pending_key = state.transitions.pending.as_ref().expect("pending load").key.clone();
    let mut launch = PlaybackRequest::new("https://example.test/next-video.mkv?ApiKey=secret");
    launch.item_id = Some("next-item".to_string());
    launch.media_source_id = Some("next-source".to_string());

    let (gate, events) = state.load_gate(&launch.dedupe_key(), NOW);

    assert_eq!(gate, LoadGate::Busy);
    assert!(events.is_empty());
    assert_eq!(
        state.transitions.pending.as_ref().map(|pending| pending.key.as_str()),
        Some(pending_key.as_str())
    );
}

fn check_pending_preparation(check_ticks: bool) {
    let mut state = controller_with_pending_load(None);
    state.transitions.pending.as_mut().expect("pending").runtime_ticks = Some(300_000_000);
    state.transitions.position_ticks = 120_000_000;
    state.transitions.duration_ticks = Some(120_000_000);
    state.transitions.pause = true;
    state.transitions.eof_reached = true;

    state.transitions.prepare_pending_playback_state();

    assert!(state.transitions.snapshot_active());
    assert_eq!(ticks_to_ms(state.transitions.position_ticks), 0.0);
    assert_eq!(state.transitions.duration_ticks.map(ticks_to_ms), Some(30_000.0));
    assert!(!state.transitions.pause);
    if check_ticks {
        assert_eq!(state.transitions.position_ticks, 0);
        assert_eq!(state.transitions.duration_ticks, Some(300_000_000));
        assert!(!state.transitions.eof_reached);
    }
}

#[test]
fn controller_pending_preparation_resets_previous_playback_snapshot_state() {
    check_pending_preparation(true);
}

#[test]
fn tests_pending_preparation_resets_previous_playback_snapshot_state() {
    check_pending_preparation(false);
}

#[test]
fn watched_next_command_reports_the_runtime_as_final_position() {
    let mut state = controller_with_pending_load(None);
    state.transitions.pending.as_mut().expect("pending playback").runtime_ticks = Some(300_000_000);
    state.transitions.mpv_playback_active = true;

    state.mark_watched_and_play_next(NOW);

    assert_eq!(state.transitions.position_ticks, 300_000_000);
}

#[test]
fn external_watched_next_message_uses_the_completion_handoff() {
    let mut state = controller_with_pending_load(None);
    state.transitions.pending.as_mut().expect("pending playback").runtime_ticks = Some(300_000_000);
    state.transitions.mpv_playback_active = true;
    let active_session = Some(1);
    let message = MpvEvent {
        name: "client-message".to_string(),
        reason: None,
        property: None,
        data: no_data(),
        args: vec!["mediaflick-desktop".to_string(), "mark-watched-next".to_string()],
    };

    state.handle_session_event(active_session, 2, &message, NOW);
    assert!(state.transitions.pending.is_some());
    let outcome = state.handle_session_event(active_session, 1, &message, NOW);

    assert!(state.transitions.pending.is_none());
    assert!(matches!(
        outcome.events.last(),
        Some(TransitionEvent::Stopped { stop_reason: Some(StopReason::WatchedNext), .. })
    ));
}

#[test]
fn track_list_keeps_selectable_audio_and_subtitle_tracks() {
    let track_list = vec![
        RawTrack { id: Some(1), kind: Some("video".to_string()), selected: Some(true), ..Default::default() },
        RawTrack {
            id: Some(2),
            kind: Some("audio".to_string()),
            lang: Some("jpn".to_string()),
            title: Some("Surround".to_string()),
            codec: Some("dts".to_string()),
            selected: Some(true),
            ..Default::default()
        },
        RawTrack {
            id: Some(3),
            kind: Some("sub".to_string()),
            lang: Some("eng".to_string()),
            title: Some("English SDH".to_string()),
            external: Some(true),
            selected: Some(false),
            ..Default::default()
        },
    ];

    let tracks = playback_tracks(&track_list);

    assert_eq!(tracks.len(), 2);
    assert_eq!(tracks[0].id, 2);
    assert_eq!(tracks[0].kind, PlayerTrackKind::Audio);
    assert!(tracks[0].selected);
    assert_eq!(tracks[1].title.as_deref(), Some("English SDH"));
    assert!(tracks[1].external);
}

#[test]
fn an_end_file_error_ends_a_pending_replacement_load() {
    let mut state = controller_with_pending_load(None);
    state.transitions.replacement_end_pending = true;
    let end_file = MpvEvent {
        name: "end-file".to_string(),
        reason: Some("error".to_string()),
        property: None,
        data: no_data(),
        args: Vec::new(),
    };

    let outcome = state.handle_session_event(Some(1), 1, &end_file, NOW);

    assert!(state.transitions.pending.is_none());
    assert!(!state.transitions.snapshot_active());
    assert!(matches!(
        outcome.events.last(),
        Some(TransitionEvent::Stopped { stop_reason: Some(StopReason::Error), .. })
    ));
}

#[test]
fn library_resume_waits_for_file_loaded_and_holds_reported_position() {
    let mut state = controller_with_pending_load(Some(200_000_000));
    assert!(state.startup_seek.is_none());
    state.activate_pending(NOW);
    assert_eq!(state.startup_seek.as_ref().map(|seek| ticks_to_ms(seek.target_ticks)), Some(20_000.0));
    state.apply_property("time-pos", seconds(0.5), NOW);
    assert_eq!(state.transitions.position_ticks, 200_000_000);
}

/// 90 s into the item.
const RESUME_TICKS: i64 = 900_000_000;

fn due_at(state: &MpvSession) -> u64 {
    state.startup_seek.expect("startup seek pending").due_at_ms
}

#[test]
fn startup_seek_waits_for_its_delay_then_retries_until_the_position_arrives() {
    let mut state = controller_with_pending_load(Some(RESUME_TICKS));
    state.activate_pending(NOW);

    assert_eq!(state.startup_seek_due(NOW), None);
    assert!(state.startup_seek.expect("queued").sent_at_ms.is_none(), "the seek waits for the file to settle");

    let due = due_at(&state);
    let target = state.startup_seek_due(due).expect("due");
    assert_eq!(target as f64 / TICKS_PER_SECOND, 90.0);
    assert!(!state.startup_seek_sent(SeekOutcome::Sent, due));

    // mpv still reports the start of the file: the server keeps the resume
    // position, and the seek goes out again once the retry is due.
    assert!(state.apply_property("time-pos", seconds(0.0), due).is_none());
    assert_eq!(state.transitions.position_ticks, RESUME_TICKS);
    let retry = due_at(&state);
    assert!(retry > due);
    assert_eq!(state.startup_seek_due(retry).map(|t| t as f64 / TICKS_PER_SECOND), Some(90.0));
    assert!(!state.startup_seek_sent(SeekOutcome::Sent, retry));

    state.apply_property("time-pos", seconds(90.0), retry);
    assert!(state.startup_seek.is_none(), "the seek landed");
    assert_eq!(state.transitions.position_ticks, RESUME_TICKS);
}

#[test]
fn a_rejected_startup_seek_is_retried_without_resetting_mpv() {
    let mut state = controller_with_pending_load(Some(RESUME_TICKS));
    state.activate_pending(NOW);

    let due = due_at(&state);
    assert_eq!(state.startup_seek_due(due).map(|t| t as f64 / TICKS_PER_SECOND), Some(90.0));
    let lost = state.startup_seek_sent(SeekOutcome::Rejected, due);

    assert!(state.startup_seek.is_some(), "still pending after the rejection");
    assert!(!lost, "a rejection keeps the mpv session");
    state.apply_property("time-pos", seconds(0.0), due);
    assert_eq!(state.transitions.position_ticks, RESUME_TICKS, "the resume position is held");
}

/// The prompt reads "Seek to Skip Credits": a native forward seek inside the
/// segment skips to its end, while rewinding inside it does not. mpv can
/// report `seeking=false` before the new position, so the decision waits for it.
#[test]
fn a_native_forward_seek_accepts_the_skip_prompt_and_a_rewind_does_not() {
    const SESSION: u64 = 1;
    let mut state = controller_with_pending_load(None);
    add_prompt_credits_segment(&mut state);
    let live = Some(SESSION);
    let time_pos = |state: &mut MpvSession, secs: f64| {
        state.handle_session_event(live, SESSION, &event("property-change", Some("time-pos"), seconds(secs)), NOW).skip
    };
    let credits_triggered = |state: &MpvSession| state.skipper.segments[0].triggered;

    time_pos(&mut state, 15.0);
    state.handle_session_event(live, SESSION, &event("seek", None, no_data()), NOW);
    let rewind = time_pos(&mut state, 12.0);
    assert!(!matches!(rewind, Some(SkipperAction::SeekPast { .. })));
    assert!(!credits_triggered(&state), "a rewind inside credits is not a skip");

    state.handle_session_event(live, SESSION, &event("seek", None, no_data()), NOW);
    let early = state.handle_session_event(live, SESSION, &event("property-change", Some("seeking"), flag(false)), NOW);
    assert!(early.skip.is_none());
    assert!(!credits_triggered(&state), "no decision before the new position");
    let skip = time_pos(&mut state, 13.0);

    let Some(SkipperAction::SeekPast { index, target_ticks }) = skip else {
        panic!("expected a seek past the credits, got {skip:?}");
    };
    assert_eq!(target_ticks as f64 / TICKS_PER_SECOND, 20.0);
    state.skipper.skip_done(index);
    assert!(credits_triggered(&state));
}

fn credits_segment() -> SkipSegment {
    SkipSegment { segment_type: SegmentType::Outro, start_ticks: 100_000_000, end_ticks: 200_000_000, triggered: false }
}

fn mpc_state() -> MpcSkipper {
    let mut state = MpcSkipper::new(SegmentSkipConfig::default());
    state.segments = vec![credits_segment()];
    state
}

#[test]
fn segment_skip_always_skip_starts_countdown_without_immediate_trigger() {
    let mut state = mpc_state();
    state.config.credits = SegmentSkipMode::Always;

    state.update_skip_state(150_000_000, NOW);

    assert_eq!(state.state.pending_segment(), Some(0));
    assert!(!state.segments[0].triggered);
}

#[test]
fn segment_skip_always_skip_countdown_cancels_after_leaving_segment() {
    let mut state = mpc_state();
    state.config.credits = SegmentSkipMode::Always;
    state.update_skip_state(150_000_000, NOW);

    state.update_skip_state(250_000_000, NOW);

    assert!(state.state.pending_segment().is_none());
    assert!(!state.segments[0].triggered);
}

/// Sends the planned seek over a transport that works or not; true when
/// the segment was skipped.
fn handle_prompt_skip(state: &mut MpcSkipper, current: i64, position_ms: f64, transport_works: bool) -> bool {
    let requested = (position_ms / 1000.0 * TICKS_PER_SECOND).round() as i64;
    match state.handle_prompt_skip(current, requested, NOW) {
        Some((index, _target)) if transport_works => {
            state.skip_sent(index, NOW);
            true
        }
        _ => false,
    }
}

#[test]
fn prompt_skip_accepts_only_forward_seeks() {
    let mut state = mpc_state();
    let position = 150_000_000;

    assert!(!handle_prompt_skip(&mut state, position, 14_000.0, true));
    assert!(!state.segments[0].triggered);
    assert!(handle_prompt_skip(&mut state, position, 16_000.0, true));
    assert!(state.segments[0].triggered);
}

#[test]
fn failed_transport_send_leaves_segment_for_retry() {
    let mut state = mpc_state();
    let position = 150_000_000;

    assert!(!handle_prompt_skip(&mut state, position, 16_000.0, false));
    assert!(!state.segments[0].triggered);
}

#[test]
fn a_sent_load_is_debounced_then_accepted_again() {
    let mut launch = PlaybackRequest::new("https://example.test/video.mkv");
    launch.item_id = Some("item".to_string());
    let key = launch.dedupe_key();
    let mut state = MpvSession::new(SegmentSkipConfig::default());
    let mut pending = pending_for(&launch);
    pending.key = key.clone();

    assert_eq!(state.load_gate(&key, NOW).0, LoadGate::Proceed);
    state.load_accepted(pending, false, NOW);
    assert_eq!(state.load_gate(&key, NOW + 100).0, LoadGate::Duplicate);
    state.activate_pending(NOW + 200);
    assert_eq!(state.load_gate(&key, NOW + 2_000).0, LoadGate::Duplicate);
    assert_eq!(state.load_gate("other", NOW + 2_000).0, LoadGate::Proceed);
    assert_eq!(state.load_gate(&key, NOW + 2_001).0, LoadGate::Proceed);
    assert!(state.recent_loads.is_empty());
}

#[test]
fn a_pending_load_that_never_loads_fails_after_the_timeout() {
    let mut state = controller_with_pending_load(None);

    let (_, events) = state.load_gate("other", NOW + 60_000);
    assert!(events.is_empty());
    assert!(state.transitions.pending.is_some());

    let (gate, events) = state.load_gate("other", NOW + 60_001);
    assert_eq!(gate, LoadGate::Proceed);
    assert!(state.transitions.pending.is_none());
    assert!(matches!(
        events.last(),
        Some(TransitionEvent::Stopped { stop_reason: Some(StopReason::Error), .. })
    ));
}

#[test]
fn shutdown_finishes_as_quit_and_resets() {
    let mut state = controller_with_pending_load(Some(50_000_000));
    add_prompt_credits_segment(&mut state);
    state.activate_pending(NOW);

    let outcome = state.handle_event(&event("shutdown", None, no_data()), NOW);

    assert!(outcome.restart);
    assert!(state.startup_seek.is_none());
    assert!(state.skipper.segments.is_empty());
    assert!(!state.transitions.snapshot_active());
    assert!(matches!(
        outcome.events.last(),
        Some(TransitionEvent::Stopped { stop_reason: Some(StopReason::Quit), .. })
    ));
}

#[test]
fn segments_of_a_finished_playback_are_ignored() {
    let mut state = controller_with_pending_load(None);
    state.transitions.position_ticks = 150_000_000;

    let stale = state.media_segments_fetched(7, vec![credits_segment()], NOW);
    assert!(stale.is_none());
    assert!(state.skipper.segments.is_empty());

    let current = state.media_segments_fetched(1, vec![credits_segment()], NOW);
    assert_eq!(current, Some(SkipperAction::Prompt(0)));
    assert_eq!(state.skipper.segments.len(), 1);
}

#[test]
fn volume_and_mute_follow_their_properties() {
    let mut state = MpvSession::new(SegmentSkipConfig::default());
    state.apply_property("volume", seconds(72.6), NOW);
    state.apply_property("mute", flag(true), NOW);
    let playstate = state.playstate();
    assert_eq!(playstate.volume, Some(73));
    assert_eq!(playstate.mute, Some(true));
}

#[test]
fn progress_is_reported_every_interval_and_on_pause_changes() {
    let mut state = controller_with_pending_load(None);
    state.transitions.pending.as_mut().expect("pending").has_reporter = true;
    state.activate_pending(NOW);

    assert_eq!(state.maybe_report_progress(NOW + 9_999), None);
    assert_eq!(state.maybe_report_progress(NOW + 10_000), Some(1));
    assert_eq!(state.maybe_report_progress(NOW + 10_001), None);
    state.apply_property("pause", flag(true), NOW + 10_002);
    assert_eq!(state.maybe_report_progress(NOW + 10_003), Some(1));
    assert_eq!(state.maybe_report_progress(NOW + 10_004), None);
}

#[test]
fn a_pending_restart_does_not_reconfigure_the_running_backend() {
    let mut paths = PlayerPathChoice::new();
    paths.warm("startup-player");

    let opened = paths.path_for_open("saved-for-next-launch");

    assert_eq!(opened, "startup-player");
    paths.replace();
    assert_eq!(paths.path_for_open("saved-for-next-launch"), "saved-for-next-launch");
}

#[test]
fn stop_is_dropped_while_the_next_episode_loads() {
    let mut state = controller_with_pending_load(None);
    state.transitions.handoff_until_ms = Some(NOW + 1_000);

    assert_eq!(state.control(ControlKind::Stop, NOW), ControlDecision::Ignore);
    assert_eq!(state.control(ControlKind::Stop, NOW + 1_001), ControlDecision::Send);
    assert!(state.transitions.handoff_until_ms.is_none());
    assert_eq!(state.control(ControlKind::Other, NOW), ControlDecision::Send);
}

#[test]
fn a_forward_seek_in_a_prompt_segment_skips_it() {
    let mut state = controller_with_pending_load(None);
    add_prompt_credits_segment(&mut state);
    state.transitions.position_ticks = 150_000_000;

    assert_eq!(state.control(ControlKind::Seek(140_000_000), NOW), ControlDecision::Send);
    assert_eq!(
        state.control(ControlKind::Seek(160_000_000), NOW),
        ControlDecision::Skip(SkipperAction::SeekPast { index: 0, target_ticks: 200_000_000 })
    );
}

#[test]
fn finishing_a_playback_drops_its_queued_resume_seek() {
    let mut state = controller_with_pending_load(Some(RESUME_TICKS));
    state.activate_pending(NOW);
    let due = due_at(&state);

    state.finish_active(Some("quit"), NOW);

    assert!(state.startup_seek.is_none());
    assert_eq!(state.startup_seek_due(due), None);
}

#[test]
fn marking_watched_drops_the_queued_resume_seek() {
    let mut state = controller_with_pending_load(Some(RESUME_TICKS));
    state.activate_pending(NOW);

    state.mark_watched_and_play_next(NOW);

    assert!(state.startup_seek.is_none());
}

#[test]
fn new_skip_settings_take_the_current_position_again() {
    let mut state = controller_with_pending_load(None);
    add_prompt_credits_segment(&mut state);
    state.transitions.position_ticks = 150_000_000;

    let always = SegmentSkipConfig { credits: SegmentSkipMode::Always, ..SegmentSkipConfig::default() };
    let action = state.apply_segment_skip_config(always, NOW);

    assert_eq!(action, Some(SkipperAction::Countdown { segment_index: 0, remaining_seconds: 3 }));
    assert_eq!(state.skipper.state.pending_segment(), Some(0));
    assert_eq!(state.skipper.config, always);
}

#[test]
fn disabling_every_skip_type_forgets_the_segments() {
    let mut state = controller_with_pending_load(None);
    add_prompt_credits_segment(&mut state);
    state.transitions.position_ticks = 150_000_000;
    state.skipper.seek_started_at_ticks = Some(150_000_000);

    let off = SegmentSkipConfig {
        intro: SegmentSkipMode::Disabled,
        credits: SegmentSkipMode::Disabled,
        recap: SegmentSkipMode::Disabled,
        commercial: SegmentSkipMode::Disabled,
    };
    assert_eq!(state.apply_segment_skip_config(off, NOW), None);
    assert!(state.skipper.segments.is_empty());
    assert!(state.skipper.state.pending_segment().is_none());
    assert!(state.skipper.seek_started_at_ticks.is_none());
}

#[test]
fn rejected_replacement_stops_replacement_identity_before_failing() {
    let mut state = controller_with_pending_load(None);
    state.transitions.pending = None;
    state.transitions.mpv_playback_active = true;
    state.transitions.replacement_end_pending = true;
    let mut replacement = PlaybackRequest::new("https://example.test/replacement.mkv");
    replacement.item_id = Some("replacement-item".to_string());
    replacement.media_source_id = Some("replacement-source".to_string());
    replacement.play_session_id = Some("replacement-session".to_string());
    let replacement_identity = Identity::from_launch(2, &replacement);

    let events = state.load_rejected(true, replacement_identity);

    let (playback_id, stop_reason) = match &events[0] {
        TransitionEvent::Stopped { playback_id, stop_reason } => (*playback_id, *stop_reason),
        TransitionEvent::Failed => panic!("failure event arrived before stopped event"),
        _ => unreachable!(),
    };
    assert!(!state.transitions.snapshot_active());
    assert_eq!(stop_reason, Some(StopReason::Error));
    assert_eq!(playback_id, Some(2));
    let identity = state.transitions.current_identity().expect("identity");
    assert_eq!(identity.item_id.as_deref(), Some("replacement-item"));
    assert_eq!(identity.media_source_id.as_deref(), Some("replacement-source"));
    assert_eq!(identity.play_session_id.as_deref(), Some("replacement-session"));
    assert!(matches!(events[1], TransitionEvent::Failed));
    assert_eq!(events.len(), 2);
}

#[test]
fn active_replacement_ignores_old_end_file_without_next_episode_handoff() {
    let mut state = controller_with_pending_load(None);
    state.transitions.replacement_end_pending = true;

    state.finish_active(Some("stop"), NOW);

    assert!(state.transitions.pending.is_some());
    state.activate_pending(NOW);
    assert!(state.transitions.pending.is_none());
    assert!(state.transitions.snapshot_active());
}

#[test]
fn the_replaced_file_ends_only_once() {
    let mut state = controller_with_pending_load(None);
    state.transitions.replacement_end_pending = true;

    assert!(state.finish_active(Some("stop"), NOW).is_empty());
    assert!(state.transitions.pending.is_some());
    state.finish_active(Some("stop"), NOW);
    assert!(state.transitions.pending.is_none());
}

#[test]
fn a_rejected_first_load_only_fails() {
    let mut state = MpvSession::new(SegmentSkipConfig::default());
    let launch = PlaybackRequest::new("https://example.test/video.mkv");
    assert!(!state.replacing_active_file());

    let events = state.load_rejected(false, Identity::from_launch(1, &launch));

    assert_eq!(events.len(), 1);
    assert!(matches!(events[0], TransitionEvent::Failed));
    assert!(!state.transitions.snapshot_active());
}

#[test]
fn mpv_is_reused_only_when_it_fits() {
    assert_eq!(mpv_start_decision(true, true, true, true), MpvStart::Refuse);
    assert_eq!(mpv_start_decision(false, true, true, true), MpvStart::Reuse);
    assert_eq!(mpv_start_decision(false, true, false, true), MpvStart::Restart);
    assert_eq!(mpv_start_decision(false, true, true, false), MpvStart::Restart);
    assert_eq!(mpv_start_decision(false, false, true, true), MpvStart::Start);
}

#[test]
fn restarting_mpv_ends_playback_as_quit() {
    let mut state = controller_with_pending_load(Some(RESUME_TICKS));
    state.activate_pending(NOW);

    let events = state.prepare_mpv_start(MpvStart::Restart, NOW);

    assert!(state.startup_seek.is_none());
    assert!(!state.transitions.snapshot_active());
    assert!(matches!(
        events.last(),
        Some(TransitionEvent::Stopped { stop_reason: Some(StopReason::Quit), .. })
    ));
    assert!(state.prepare_mpv_start(MpvStart::Reuse, NOW).is_empty());
}

#[test]
fn a_command_reply_carries_no_event() {
    let reply = IpcLine { event: None, reason: None, name: None, data: no_data(), args: None };
    assert!(mpv_event_from_line(reply).is_none());

    let message = IpcLine {
        event: Some("client-message".to_string()),
        reason: None,
        name: None,
        data: no_data(),
        args: Some(vec![Some("mediaflick-mark-watched-next".to_string()), None, Some("x".to_string())]),
    };
    let event = mpv_event_from_line(message).expect("event");
    assert_eq!(event.name, "client-message");
    assert_eq!(event.args, vec!["mediaflick-mark-watched-next".to_string(), "x".to_string()]);
}

#[test]
fn preference_changes_reach_the_running_backend() {
    let disabled = SegmentSkipConfig {
        intro: SegmentSkipMode::Disabled,
        credits: SegmentSkipMode::Disabled,
        recap: SegmentSkipMode::Disabled,
        commercial: SegmentSkipMode::Disabled,
    };
    let mut running = MpvSession::new(disabled);

    running.apply_segment_skip_config(SegmentSkipConfig::default(), NOW);

    assert_eq!(running.skipper.config, SegmentSkipConfig::default());
}

use mediaflick_playback::context::Identity;
use mediaflick_playback::model::{PlaybackRequest, StopReason};
use mediaflick_playback::transition::{PendingPlayback, TransitionEvent, Transitions};

const NOW_MS: u64 = 5_000;

fn pending_for(launch: &PlaybackRequest) -> PendingPlayback {
    PendingPlayback {
        key: "test-load".to_string(),
        requested_at_ms: 0,
        identity: Identity::from_launch(1, launch),
        start_ticks: launch.start_time_ticks.unwrap_or(0),
        runtime_ticks: launch.runtime_ticks,
        has_reporter: false,
    }
}

fn controller_with_pending_load(start_time_ticks: Option<i64>) -> Transitions {
    let mut launch = PlaybackRequest::new("https://example.test/video.mkv?ApiKey=secret");
    launch.start_time_ticks = start_time_ticks;
    let mut state = Transitions::new();
    state.pending = Some(pending_for(&launch));
    state
}

#[test]
fn activation_without_start_resets_previous_playback_state() {
    let mut state = controller_with_pending_load(None);
    state.position_ticks = 42_000_000;
    state.duration_ticks = Some(120_000_000);
    state.eof_reached = true;

    state.activate_pending();

    assert_eq!(state.position_ticks, 0);
    assert_eq!(state.duration_ticks, None);
    assert!(!state.eof_reached);
}

fn check_activation_without_reporter_still_marks_mpv_snapshot_active() {
    let mut state = controller_with_pending_load(None);

    state.activate_pending();

    assert!(state.active.is_none());
    assert!(state.snapshot_active());
}

fn check_finish_without_reporter_marks_mpv_snapshot_inactive() {
    let mut state = controller_with_pending_load(None);

    state.activate_pending();
    state.finish_active(Some("quit"), NOW_MS);

    assert!(state.active.is_none());
    assert!(!state.snapshot_active());
}

fn check_finish_without_reporter_emits_stopped_event() {
    let mut launch = PlaybackRequest::new("https://example.test/video.mkv?ApiKey=secret");
    launch.item_id = Some("item-1".to_string());
    let mut state = Transitions::new();
    state.pending = Some(pending_for(&launch));

    state.activate_pending();
    let events = state.finish_active(Some("quit"), NOW_MS);

    let identity = state.current_identity().expect("identity");
    assert!(matches!(
        events.last(),
        Some(TransitionEvent::Stopped { playback_id: Some(1), stop_reason: Some(StopReason::Quit) })
    ));
    assert!(!state.snapshot_active());
    assert_eq!(identity.item_id.as_deref(), Some("item-1"));
}

#[test]
fn eof_stop_reason_is_preserved_in_snapshot() {
    let mut state = controller_with_pending_load(None);

    state.activate_pending();
    let events = state.finish_active(Some("eof"), NOW_MS);

    assert!(matches!(
        events.last(),
        Some(TransitionEvent::Stopped { stop_reason: Some(StopReason::Eof), .. })
    ));
}

#[test]
fn next_playback_handoff_suppresses_stop_while_replacement_is_pending() {
    let mut state = controller_with_pending_load(None);
    state.handoff_until_ms = Some(NOW_MS + 1_000);

    assert!(state.should_suppress_stop_during_next_playback_handoff(NOW_MS));

    state.activate_pending();

    assert!(!state.should_suppress_stop_during_next_playback_handoff(NOW_MS));
}

fn check_next_playback_handoff_ignores_old_end_file_while_replacement_is_pending() {
    let mut state = controller_with_pending_load(None);
    state.handoff_until_ms = Some(NOW_MS + 1_000);

    state.finish_active(Some("stop"), NOW_MS);

    assert!(state.pending.is_some());
}

fn check_eof_arms_next_playback_handoff() {
    let mut state = controller_with_pending_load(None);
    state.activate_pending();
    state.mpv_playback_active = true;
    state.duration_ticks = Some(120_000_000);

    state.finish_active(Some("eof"), NOW_MS);

    assert!(state.handoff_until_ms.is_some());
    assert_eq!(state.position_ticks, 120_000_000);
}

fn check_eof_uses_runtime_when_mpv_duration_is_missing() {
    let mut state = controller_with_pending_load(None);
    state.pending.as_mut().expect("pending").runtime_ticks = Some(240_000_000);
    state.activate_pending();
    state.mpv_playback_active = true;

    state.finish_active(Some("eof"), NOW_MS);

    assert_eq!(state.duration_ticks, Some(240_000_000));
    assert_eq!(state.position_ticks, 240_000_000);
}

#[test]
fn stale_stop_after_the_window_closes_ends_the_pending_load() {
    let mut state = controller_with_pending_load(None);
    state.handoff_until_ms = Some(NOW_MS);

    let events = state.finish_active(Some("stop"), NOW_MS + 1);

    assert!(state.pending.is_none());
    assert!(state.handoff_until_ms.is_none());
    assert!(matches!(
        events.last(),
        Some(TransitionEvent::Stopped { stop_reason: Some(StopReason::Stop), .. })
    ));
}

#[test]
fn activation_with_a_reporter_reports_the_start_position() {
    let mut launch = PlaybackRequest::new("https://example.test/video.mkv");
    launch.start_time_ticks = Some(50_000_000);
    launch.runtime_ticks = Some(600_000_000);
    let mut state = Transitions::new();
    let mut pending = pending_for(&launch);
    pending.has_reporter = true;
    state.pending = Some(pending);

    let events = state.activate_pending();

    assert!(matches!(
        events.as_slice(),
        [TransitionEvent::ReportStart { playback_id: 1, position_ticks: 50_000_000 }]
    ));
    assert_eq!(state.active.as_ref().map(|a| a.runtime_ticks), Some(Some(600_000_000)));
    assert_eq!(state.playback_runtime_ticks, Some(600_000_000));

    let events = state.finish_active(Some("error"), NOW_MS);
    assert!(matches!(
        events.as_slice(),
        [
            TransitionEvent::ReportStopped { playback_id: 1, failed: true, .. },
            TransitionEvent::Stopped { stop_reason: Some(StopReason::Error), .. }
        ]
    ));
    assert!(state.handoff_until_ms.is_none());
}

#[test]
fn mark_watched_reports_the_runtime_as_the_final_position() {
    let mut launch = PlaybackRequest::new("https://example.test/video.mkv");
    launch.runtime_ticks = Some(300_000_000);
    let mut state = Transitions::new();
    let mut pending = pending_for(&launch);
    pending.has_reporter = true;
    state.pending = Some(pending);
    state.activate_pending();

    let events = state.mark_watched_and_play_next(NOW_MS);

    assert!(matches!(
        events.as_slice(),
        [
            TransitionEvent::ReportStopped { playback_id: 1, position_ticks: 300_000_000, failed: false },
            TransitionEvent::Stopped { stop_reason: Some(StopReason::WatchedNext), .. }
        ]
    ));
    assert_eq!(state.handoff_until_ms, Some(NOW_MS + 60_000));
}

#[test]
fn mark_watched_while_idle_does_nothing() {
    let mut state = Transitions::new();
    assert!(state.mark_watched_and_play_next(NOW_MS).is_empty());
    assert!(state.handoff_until_ms.is_none());
}

#[test]
fn controller_finish_without_reporter_emits_stopped_event() {
    check_finish_without_reporter_emits_stopped_event();
}

#[test]
fn tests_finish_without_reporter_emits_stopped_event() {
    check_finish_without_reporter_emits_stopped_event();
}

#[test]
fn controller_next_playback_handoff_ignores_old_end_file_while_replacement_is_pending() {
    check_next_playback_handoff_ignores_old_end_file_while_replacement_is_pending();
}

#[test]
fn tests_next_playback_handoff_ignores_old_end_file_while_replacement_is_pending() {
    check_next_playback_handoff_ignores_old_end_file_while_replacement_is_pending();
}

#[test]
fn controller_eof_arms_next_playback_handoff() {
    check_eof_arms_next_playback_handoff();
}

#[test]
fn tests_eof_arms_next_playback_handoff() {
    check_eof_arms_next_playback_handoff();
}

#[test]
fn controller_eof_uses_runtime_when_mpv_duration_is_missing() {
    check_eof_uses_runtime_when_mpv_duration_is_missing();
}

#[test]
fn tests_eof_uses_runtime_when_mpv_duration_is_missing() {
    check_eof_uses_runtime_when_mpv_duration_is_missing();
}

#[test]
fn controller_activation_without_reporter_still_marks_mpv_snapshot_active() {
    check_activation_without_reporter_still_marks_mpv_snapshot_active();
}

#[test]
fn mpv_controller_activation_without_reporter_still_marks_mpv_snapshot_active() {
    check_activation_without_reporter_still_marks_mpv_snapshot_active();
}

#[test]
fn controller_finish_without_reporter_marks_mpv_snapshot_inactive() {
    check_finish_without_reporter_marks_mpv_snapshot_inactive();
}

#[test]
fn mpv_controller_finish_without_reporter_marks_mpv_snapshot_inactive() {
    check_finish_without_reporter_marks_mpv_snapshot_inactive();
}

#[test]
fn mpv_controller_finish_without_reporter_emits_stopped_event() {
    check_finish_without_reporter_emits_stopped_event();
}

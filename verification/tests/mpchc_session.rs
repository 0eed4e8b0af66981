use mediaflick_playback::context::Identity;
use mediaflick_playback::model::PlaybackRequest;
use mediaflick_playback::mpchc::{MLS_FAILING, MLS_LOADED, PS_PAUSE, PS_PLAY};
use mediaflick_playback::mpchc_session::{MpcAction, MpcActive, MpcInbound, MpcSession, MpcStopReason};

fn launch() -> PlaybackRequest {
    PlaybackRequest {
        media_url: "https://host/Videos/abc/stream.mkv?static=true".to_string(),
        item_id: Some("item".to_string()),
        audio_mpv_id: Some(2),
        subtitle_mpv_id: Some(1),
        ..PlaybackRequest::default()
    }
}

#[test]
fn a_load_opens_once_connected_and_activates_once_loaded() {
    let mut session = MpcSession::new();
    let actions = session.load(launch(), "key", 7, true, Some(50_000_000), true, true, 1_000);
    assert_eq!(actions, vec![MpcAction::FetchSegments(7)]);
    assert!(session.awaiting_open);
    assert!(session.playback_active);
    assert_eq!(session.state.position_ticks, 50_000_000);

    let actions = session.handle_inbound(MpcInbound::Connect { hwnd: 42 });
    assert_eq!(actions, vec![MpcAction::SetTarget(42), MpcAction::Open]);
    assert!(!session.awaiting_open);
    assert_eq!(
        session.open_url().as_deref(),
        Some("https://host/Videos/abc/stream.mkv?static=true")
    );

    let actions = session.handle_inbound(MpcInbound::State(MLS_LOADED));
    assert_eq!(
        actions,
        vec![
            MpcAction::ReportStart(7),
            MpcAction::GetNowPlaying,
            MpcAction::SetAudioTrack(1),
            MpcAction::SetSubtitleTrack(0),
            MpcAction::ToggleFullscreen,
            MpcAction::Seek(50_000_000),
        ]
    );
    assert!(session.pending.is_none());
    assert!(session.active.is_some());
    assert!(session.seeking_osd);

    assert_eq!(
        session.handle_inbound(MpcInbound::PlayMode(PS_PAUSE)),
        vec![MpcAction::ReportProgress(7)]
    );
    assert!(session.handle_inbound(MpcInbound::PlayMode(PS_PAUSE)).is_empty());
    assert_eq!(
        session.handle_inbound(MpcInbound::NotifySeek(Some(60_000_000))),
        vec![
            MpcAction::ClearSeekingOsd,
            MpcAction::PositionChanged {
                previous: 50_000_000,
                current: 60_000_000,
                user_seek: true
            }
        ]
    );
    assert_eq!(
        session.handle_inbound(MpcInbound::EndOfStream),
        vec![MpcAction::ReportStopped(7, false), MpcAction::Stopped(MpcStopReason::Eof)]
    );
    assert!(!session.playback_active);
    assert!(session.identity.is_none());
    assert_eq!(session.state.position_ticks, 0);
    assert_eq!(session.state.volume, Some(100));
    assert_eq!(MpcStopReason::Eof.as_str(), "eof");
}

#[test]
fn duplicate_loads_are_ignored_within_the_debounce() {
    let mut session = MpcSession::new();
    session.connected = true;
    let first = session.load(launch(), "key", 1, false, None, false, true, 10_000);
    assert_eq!(first, vec![MpcAction::Open, MpcAction::FetchSegments(1)]);
    assert!(session.load(launch(), "key", 2, false, None, false, true, 11_999).is_empty());
    assert_eq!(session.identity.as_ref().map(|i| i.playback_id), Some(1));
    let replaced = session.load(launch(), "key", 3, false, None, false, true, 12_000);
    assert_eq!(
        replaced,
        vec![
            MpcAction::Stopped(MpcStopReason::Replaced),
            MpcAction::Open,
            MpcAction::FetchSegments(3)
        ]
    );
}

#[test]
fn loads_fail_without_mpc_hc_and_failures_end_playback() {
    let mut session = MpcSession::new();
    assert_eq!(
        session.load(launch(), "key", 1, true, None, false, false, 0),
        vec![MpcAction::StartFailed]
    );
    assert!(session.pending.is_none());
    session.load(launch(), "key", 2, true, None, false, true, 0);
    assert_eq!(
        session.handle_inbound(MpcInbound::State(MLS_FAILING)),
        vec![MpcAction::Stopped(MpcStopReason::Error)]
    );
    assert!(session.handle_inbound(MpcInbound::PlayMode(PS_PLAY)).is_empty());
    assert!(session.handle_inbound(MpcInbound::Ignored(0xDEAD_BEEF)).is_empty());
}

#[test]
fn disconnecting_clears_the_target_and_stops() {
    let mut session = MpcSession::new();
    session.connected = true;
    session.load(launch(), "key", 4, true, None, false, true, 0);
    session.handle_inbound(MpcInbound::State(MLS_LOADED));
    assert_eq!(
        session.handle_inbound(MpcInbound::Disconnect),
        vec![
            MpcAction::ClearTarget,
            MpcAction::ReportStopped(4, false),
            MpcAction::Stopped(MpcStopReason::Quit)
        ]
    );
    assert!(!session.connected);
    let mut idle = MpcSession::new();
    assert_eq!(idle.stop(), vec![MpcAction::StopPlayer]);
}

#[test]
fn position_polls_and_progress_reports_follow_their_intervals() {
    let mut session = MpcSession::new();
    assert!(!session.position_poll_due(0, 5_000));
    session.connected = true;
    session.playback_active = true;
    assert!(!session.position_poll_due(1_000, 1_999));
    assert!(session.position_poll_due(1_000, 2_000));

    assert_eq!(session.progress_due(0, 20_000), None);
    session.active = Some(MpcActive { identity: Identity::from_launch(7, &launch()), has_reporter: true });
    assert_eq!(session.progress_due(1_000, 10_999), None);
    assert_eq!(session.progress_due(1_000, 11_000), Some(7));
    session.active.as_mut().expect("active").has_reporter = false;
    assert_eq!(session.progress_due(1_000, 11_000), None);
}

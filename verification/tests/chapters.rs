use mediaflick_playback::chapters::{ChapterMarkers, CHAPTER_MARKER_MAX_ATTEMPTS};
use mediaflick_playback::context::{Identity, PlaybackContext};
use mediaflick_playback::ipc::{observe_commands, IdCounter, OBSERVED_PROPERTY_COUNT};
use mediaflick_playback::markers::Chapter;
use mediaflick_playback::model::PlaybackRequest;
use mediaflick_playback::mpchc_session::MpcSession;
use mediaflick_playback::segments::{SegmentType, SkipSegment};

fn chapter(title: &str, seconds: i64) -> Chapter {
    Chapter { time_ticks: seconds * 10_000_000, title: title.to_string() }
}

fn titles(chapters: &[Chapter]) -> Vec<&str> {
    chapters.iter().map(|c| c.title.as_str()).collect()
}

fn intro() -> Vec<SkipSegment> {
    vec![SkipSegment {
        segment_type: SegmentType::Intro,
        start_ticks: 100_000_000,
        end_ticks: 300_000_000,
        triggered: false,
    }]
}

const DURATION: Option<i64> = Some(1_500_000_000);

#[test]
fn markers_wait_for_the_file_chapters_and_a_duration() {
    let mut markers = ChapterMarkers::new();
    assert!(markers.refresh_chapter_markers(true, &intro(), DURATION, 0).is_none());
    assert!(markers.pending.is_none());

    assert!(markers.handle_chapter_list_event(vec![chapter("Part 1", 0), chapter("Part 2", 120)]));
    assert!(markers.refresh_chapter_markers(true, &intro(), None, 0).is_none());
    assert!(markers.pending.is_none());
    assert!(markers.refresh_chapter_markers(false, &intro(), DURATION, 0).is_none());
    assert!(markers.pending.is_none());

    assert!(markers.refresh_chapter_markers(true, &intro(), DURATION, 5).is_none());
    let pending = markers.pending.as_ref().expect("merged list waits");
    assert_eq!(titles(pending), vec!["Part 1", "Intro", "Intro End", "Part 2"]);
    assert_eq!(markers.next_attempt_at_ms, Some(5));
}

#[test]
fn a_sent_list_is_recognised_when_mpv_reports_it_back() {
    let mut markers = ChapterMarkers::new();
    markers.handle_chapter_list_event(vec![chapter("Part 1", 0)]);
    markers.refresh_chapter_markers(true, &intro(), DURATION, 0);

    let sent = markers.maybe_apply_chapter_markers(true, 0).expect("sent at once");
    assert_eq!(markers.attempts, 1);
    assert_eq!(markers.next_attempt_at_ms, Some(1_000));
    assert!(markers.maybe_apply_chapter_markers(true, 999).is_none());

    assert!(!markers.handle_chapter_list_event(sent.clone()));
    assert!(markers.pending.is_none());
    assert_eq!(titles(markers.file_chapters.as_ref().expect("file chapters")), vec!["Part 1"]);
    assert_eq!(markers.last_sent.as_ref().map(|l| titles(l)), Some(titles(&sent)));

    markers.refresh_chapter_markers(true, &intro(), DURATION, 2_000);
    assert!(markers.pending.is_none(), "the same list is not queued again");
}

#[test]
fn markers_go_away_with_the_segments() {
    let mut markers = ChapterMarkers::new();
    markers.handle_chapter_list_event(vec![chapter("Part 1", 0)]);
    markers.refresh_chapter_markers(true, &intro(), DURATION, 0);
    markers.maybe_apply_chapter_markers(true, 0);

    let restored = markers.refresh_chapter_markers(true, &[], DURATION, 10).expect("file chapters sent back");
    assert_eq!(titles(&restored), vec!["Part 1"]);
    assert!(markers.injected.is_empty());
    assert!(markers.last_sent.is_none());
    assert!(markers.refresh_chapter_markers(true, &[], DURATION, 20).is_none());
}

#[test]
fn sending_gives_up_after_the_last_attempt() {
    let mut markers = ChapterMarkers::new();
    markers.handle_chapter_list_event(vec![chapter("Part 1", 0)]);
    markers.refresh_chapter_markers(true, &intro(), DURATION, 0);

    let mut now = 0;
    for _ in 0..CHAPTER_MARKER_MAX_ATTEMPTS {
        assert!(markers.maybe_apply_chapter_markers(true, now).is_some());
        now += 1_000;
    }
    assert!(markers.maybe_apply_chapter_markers(true, now).is_none());
    assert!(markers.pending.is_none());
    assert!(markers.next_attempt_at_ms.is_none());
}

#[test]
fn observers_register_every_property_with_fresh_ids() {
    let mut ids = IdCounter::new(i64::MAX - 1);
    let commands = observe_commands(&mut ids);
    assert_eq!(commands.len(), OBSERVED_PROPERTY_COUNT);
    let names: Vec<&str> = commands.iter().map(|c| c.property).collect();
    assert_eq!(
        names,
        vec![
            "pause",
            "time-pos",
            "playback-time",
            "duration",
            "volume",
            "mute",
            "eof-reached",
            "seeking",
            "playback-abort",
            "chapter-list"
        ]
    );
    assert_eq!(commands[0].observer_id, i64::MAX - 1);
    assert_eq!(commands[0].request_id, i64::MAX);
    assert_eq!(commands[1].observer_id, i64::MIN);
    assert_eq!(commands[1].request_id, i64::MIN + 1);
    assert_eq!(ids.next_id(), i64::MIN + 18);
}

#[test]
fn mpc_context_fills_only_matching_identities() {
    let mut launch = PlaybackRequest::new("https://example.test/video.mkv");
    launch.item_id = Some("item".to_string());
    let mut session = MpcSession::new();
    session.identity = Some(Identity::from_launch(3, &launch));

    let other = session.update_context(&PlaybackContext {
        item_id: Some("other".to_string()),
        play_session_id: Some("session".to_string()),
        ..Default::default()
    });
    assert!(!other.current);
    assert_eq!(session.identity.as_ref().and_then(|i| i.play_session_id.clone()), None);

    let same = session.update_context(&PlaybackContext {
        item_id: Some("item".to_string()),
        play_session_id: Some("session".to_string()),
        ..Default::default()
    });
    assert!(same.current);
    assert!(!same.active && !same.pending);
    assert_eq!(session.identity.as_ref().and_then(|i| i.play_session_id.as_deref()), Some("session"));
}

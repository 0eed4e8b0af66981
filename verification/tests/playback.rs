use mediaflick_playback::external::cleaned_ld_preload;
use mediaflick_playback::input::{section_contents, MpvInputBindings, MARK_WATCHED_NEXT_COMMAND};
use mediaflick_playback::model::StopReason;
use mediaflick_playback::playback::{display_row, visible_bands, NativeOverlayFrame};
use mediaflick_playback::players::{is_svp_display_name, libmpv_candidates, TargetOs};
use mediaflick_playback::segments::{
    active_segment_at, prompt_segment_at, SegmentSkipAction, SegmentSkipConfig, SegmentSkipMode, SegmentSkipState,
    SegmentType, SkipSegment,
};

fn segment(segment_type: SegmentType, start: i64, end: i64) -> SkipSegment {
    SkipSegment {
        segment_type,
        start_ticks: start,
        end_ticks: end,
        triggered: false,
    }
}

#[test]
fn native_frame_rejects_invalid_dimensions_and_truncated_buffers() {
    for (width, height, length) in [(0, 1, 0), (1, 0, 0), (2, 2, 15), (16385, 1, 0)] {
        let frame = NativeOverlayFrame {
            width,
            height,
            pixels: vec![0; length],
        };
        assert!(frame.validate().is_err());
    }
}

#[test]
fn fullscreen_gate_distinguishes_catalog_from_transparent_playback() {
    let mut frame = NativeOverlayFrame {
        width: 2,
        height: 1,
        pixels: vec![255; 8],
    };
    assert!(frame.validate().is_ok());
    assert!(!frame.exposes_video());
    frame.pixels[4..8].fill(0);
    assert!(frame.exposes_video());
}

#[test]
fn hidden_controls_skip_transparent_pixels_and_menus_preserve_all_rows() {
    let mut frame = NativeOverlayFrame {
        width: 4,
        height: 3,
        pixels: vec![0; 48],
    };
    assert_eq!(visible_bands(&frame), (None, None));
    frame.pixels[3] = 255;
    frame.pixels[47] = 255;
    assert_eq!(visible_bands(&frame), (Some((0, 1)), Some((2, 3))));
    frame.pixels.fill(255);
    assert_eq!(visible_bands(&frame), (Some((0, 2)), Some((2, 3))));
    assert_eq!(display_row(2, 3, 5), 3);
    assert_eq!(display_row(3, 3, 5), 5);
}

#[test]
fn active_segment_respects_bounds_and_triggered() {
    let mut segments = vec![segment(SegmentType::Intro, 100, 200)];
    assert_eq!(active_segment_at(&segments, 99), None);
    assert_eq!(active_segment_at(&segments, 100), Some(0));
    assert_eq!(active_segment_at(&segments, 199), Some(0));
    assert_eq!(active_segment_at(&segments, 200), None);
    segments[0].triggered = true;
    assert_eq!(active_segment_at(&segments, 150), None);
}

#[test]
fn prompt_segment_only_matches_prompt_mode() {
    let segments = vec![segment(SegmentType::Intro, 100, 200)];
    let prompt = SegmentSkipConfig {
        intro: SegmentSkipMode::Prompt,
        ..SegmentSkipConfig::default()
    };
    let always = SegmentSkipConfig {
        intro: SegmentSkipMode::Always,
        ..SegmentSkipConfig::default()
    };
    assert_eq!(prompt_segment_at(&segments, &prompt, 150), Some(0));
    assert_eq!(prompt_segment_at(&segments, &always, 150), None);
}

#[test]
fn automatic_skip_counts_down_then_fires() {
    let segments = vec![segment(SegmentType::Intro, 100, 200)];
    let config = SegmentSkipConfig {
        intro: SegmentSkipMode::Always,
        ..SegmentSkipConfig::default()
    };
    let started: u64 = 1_000;
    let mut state = SegmentSkipState::default();

    assert_eq!(
        state.update(&segments, &config, 150, started),
        Some(SegmentSkipAction::Countdown {
            segment_index: 0,
            remaining_seconds: 3,
        })
    );
    assert_eq!(
        state.tick(&segments, &config, 150, started + 3_000),
        Some(SegmentSkipAction::Skip(0))
    );
}

#[test]
fn bundled_library_search_starts_beside_the_app() {
    for os in [TargetOs::Windows, TargetOs::Linux, TargetOs::Macos] {
        let candidates = libmpv_candidates(os, "app");
        assert!(std::path::Path::new(&candidates[0]).starts_with("app"));
    }
    let candidates = libmpv_candidates(TargetOs::Windows, "app");
    assert_eq!(std::path::Path::new(&candidates[2]), std::path::Path::new("app/libmpv-windows-x64/libmpv-2.dll"));
}

#[test]
fn each_system_searches_its_own_library_names() {
    assert_eq!(
        libmpv_candidates(TargetOs::Linux, "/opt/app"),
        vec!["/opt/app/libmpv.so.2", "/opt/app/libmpv.so", "/opt/app/libmpv/libmpv.so.2"]
    );
    assert_eq!(
        libmpv_candidates(TargetOs::Macos, "/App/MacOS"),
        vec!["/App/MacOS/libmpv.2.dylib", "/App/MacOS/libmpv.dylib", "/App/MacOS/../Frameworks/libmpv.2.dylib"]
    );
    assert_eq!(libmpv_candidates(TargetOs::Windows, "C:/app")[1], "C:/app/libmpv/libmpv-2.dll");
}

#[test]
fn only_svp_four_product_names_are_accepted() {
    assert!(is_svp_display_name("SVP 4 Pro"));
    assert!(is_svp_display_name("SVP 4"));
    assert!(!is_svp_display_name("SVP 3"));
    assert!(!is_svp_display_name("SVP 40"));
}

#[test]
fn removes_packaged_cef_preload_from_ld_preload() {
    assert_eq!(
        cleaned_ld_preload("/app/libcef.so /usr/lib/libtrace.so", "/app/libcef.so"),
        Some("/usr/lib/libtrace.so".to_string())
    );
    assert_eq!(
        cleaned_ld_preload("/usr/lib/liba.so:/app/libcef.so:/usr/lib/libb.so", "/app/libcef.so"),
        Some("/usr/lib/liba.so /usr/lib/libb.so".to_string())
    );
    assert_eq!(cleaned_ld_preload("/app/libcef.so", "/app/libcef.so"), None);
}

#[test]
fn binds_stop_and_the_watched_key() {
    let section = section_contents(Some("w"));

    for line in [
        "w script-message mediaflick-desktop mark-watched-next",
        "q stop",
        "Q stop",
    ] {
        assert!(section.contains(line), "{line}");
    }
}

#[test]
fn a_disabled_or_unusable_binding_leaves_only_stop_and_seek() {
    for binding in [None, Some(""), Some("two words"), Some("tab\tkey")] {
        let section = section_contents(binding);
        assert!(!section.contains(MARK_WATCHED_NEXT_COMMAND), "{binding:?}");
        assert!(section.contains("q stop"));
    }
}

// The bindings file `{}` holds neither key.
#[test]
fn defaults_to_watched_skip_on_w() {
    let bindings = MpvInputBindings::from_lookups(None, None);

    assert_eq!(bindings.mark_watched_next.as_deref(), Some("w"));
    assert_eq!(
        bindings.section_contents().as_deref(),
        Some("w script-message mediaflick-desktop mark-watched-next")
    );
}

// The bindings file `{"bindings": {"mark_watched_next": "W"}}`.
#[test]
fn reads_nested_binding() {
    let bindings = MpvInputBindings::from_lookups(Some(Some("W")), None);

    assert_eq!(bindings.mark_watched_next.as_deref(), Some("W"));
    assert!(bindings.section_contents().unwrap().contains(MARK_WATCHED_NEXT_COMMAND));
}

// The bindings file `{"mark_watched_next": ""}`.
#[test]
fn blank_binding_disables_command() {
    let bindings = MpvInputBindings::from_lookups(Some(Some("")), None);

    assert_eq!(bindings.mark_watched_next, None);
    assert_eq!(bindings.section_contents(), None);
}

#[test]
fn stop_reasons_the_ui_keys_on_keep_their_wire_names() {
    for (reason, wire) in [(StopReason::Eof, "eof"), (StopReason::WatchedNext, "watched-next")] {
        assert_eq!(reason.as_str(), wire);
    }
}

fn marker(title: &str, seconds: i64) -> mediaflick_playback::markers::Chapter {
    mediaflick_playback::markers::Chapter {
        time_ticks: seconds * 10_000_000,
        title: title.to_string(),
    }
}

#[test]
fn segment_chapter_markers_bound_each_segment_and_drop_out_of_range() {
    let segments = vec![
        SkipSegment {
            segment_type: SegmentType::Intro,
            start_ticks: 100_000_000,
            end_ticks: 300_000_000,
            triggered: false,
        },
        SkipSegment {
            segment_type: SegmentType::Outro,
            start_ticks: 1_400_000_000,
            end_ticks: 1_500_000_000,
            triggered: false,
        },
    ];

    let markers = mediaflick_playback::markers::build_segment_chapter_markers(&segments, 150 * 10_000_000);

    assert_eq!(
        markers,
        vec![marker("Intro", 10), marker("Intro End", 30), marker("Credits", 140)]
    );
}

#[test]
fn merge_chapter_markers_preserves_embedded_chapters_and_sorts_by_time() {
    let base = vec![marker("Part 1", 0), marker("Part 2", 120)];
    let markers = vec![marker("Intro", 10), marker("Intro End", 30)];

    let merged = mediaflick_playback::markers::merge_chapter_markers(base, markers);

    assert_eq!(
        merged,
        vec![
            marker("Part 1", 0),
            marker("Intro", 10),
            marker("Intro End", 30),
            marker("Part 2", 120),
        ]
    );
}

#[test]
fn merge_chapter_markers_drops_marker_coinciding_with_embedded_chapter() {
    let base = vec![marker("Chapter", 10)];
    let markers = vec![marker("Intro", 10)];

    let merged = mediaflick_playback::markers::merge_chapter_markers(base, markers);

    assert_eq!(merged, vec![marker("Chapter", 10)]);
}

#[test]
fn markers_closer_than_a_millisecond_keep_the_first() {
    let chapters = vec![
        mediaflick_playback::markers::Chapter { time_ticks: 50_000, title: "b".to_string() },
        mediaflick_playback::markers::Chapter { time_ticks: 40_001, title: "a".to_string() },
        mediaflick_playback::markers::Chapter { time_ticks: 60_000, title: "c".to_string() },
    ];
    let merged = mediaflick_playback::markers::merge_chapter_markers(chapters, Vec::new());
    let titles: Vec<&str> = merged.iter().map(|c| c.title.as_str()).collect();
    assert_eq!(titles, vec!["a", "c"]);
}

#[test]
fn display_rows_of_a_negative_height_round_toward_zero() {
    assert_eq!(display_row(2, 3, -5), -3);
    assert_eq!(display_row(1, 3, -5), -1);
    assert_eq!(display_row(0, 3, -5), 0);
}

#[test]
fn stop_reasons_read_without_case_or_surrounding_space() {
    assert_eq!(StopReason::parse(" EOF "), Some(StopReason::Eof));
    assert_eq!(StopReason::parse("Watched-Next"), Some(StopReason::WatchedNext));
    assert_eq!(StopReason::parse("bogus"), Some(StopReason::Unknown));
    assert_eq!(StopReason::parse("  "), None);
    assert_eq!(StopReason::parse("\tQuit\n"), StopReason::parse("quit"));
}

use mediaflick_playback::headers::{
    auth_parameter, authorization_value_sliceable, mpv_string_list, token_from_authorization, token_from_launch,
};
use mediaflick_playback::model::{HttpHeader, PlaybackRequest};
use mediaflick_playback::mpchc::{apply_subtitle_burn_in, audio_index, media_url, subtitle_index, track_selection};
use mediaflick_playback::reporter::server_base_url;
use mediaflick_playback::url::{query_has_key, remove_query_keys};

fn external_subtitle_launch() -> PlaybackRequest {
    PlaybackRequest {
        media_url: "https://host/Videos/abc/stream.mkv?static=true&MediaSourceId=src".to_string(),
        subtitle_stream_index: Some(3),
        subtitle_url: Some("https://host/Videos/abc/sub.srt".to_string()),
        ..PlaybackRequest::default()
    }
}

fn check_string_list_escaping() {
    assert_eq!(
        mpv_string_list(&vec!["a,b".to_string(), r"c\d".to_string()]),
        r"a\,b,c\\d"
    );
}

#[test]
fn controller_escapes_mpv_string_list_commas_and_backslashes() {
    check_string_list_escaping();
}

#[test]
fn mpv_controller_escapes_mpv_string_list_commas_and_backslashes() {
    check_string_list_escaping();
}

#[test]
fn commands_escapes_mpv_string_list_commas_and_backslashes() {
    check_string_list_escaping();
}

#[test]
fn extracts_server_base_with_subpath() {
    assert_eq!(
        server_base_url("https://example.test/jellyfin/Videos/abc/stream.mkv?api_key=x").as_deref(),
        Some("https://example.test/jellyfin")
    );
}

#[test]
fn extracts_token_from_mediabrowser_authorization() {
    assert_eq!(
        token_from_authorization("MediaBrowser Client=\"Jellyfin Web\", DeviceId=\"dev\", Token=\"secret\"")
            .as_deref(),
        Some("secret")
    );
    assert_eq!(
        auth_parameter("MediaBrowser DeviceId=dev, Token=secret", "DeviceId").as_deref(),
        Some("dev")
    );
}

#[test]
fn extracts_token_from_jellyfin_apikey_query() {
    let launch = PlaybackRequest::new("https://example.test/Videos/item/stream.mkv?ApiKey=secret");
    assert_eq!(token_from_launch(&launch).as_deref(), Some("secret"));
}

fn check_burn_in_drops_static() {
    let url = apply_subtitle_burn_in(external_subtitle_launch().media_url, &external_subtitle_launch());
    assert!(!query_has_key(&url, "static"));
    assert!(url.contains("SubtitleStreamIndex=3"));
    assert!(url.contains("SubtitleMethod=Encode"));
    assert!(url.contains("MediaSourceId=src"));
}

#[test]
fn controller_burn_in_drops_static_and_requests_encoded_subtitle() {
    check_burn_in_drops_static();
}

#[test]
fn request_burn_in_drops_static_and_requests_encoded_subtitle() {
    check_burn_in_drops_static();
}

fn check_burn_in_skipped_for_embedded() {
    let launch = PlaybackRequest {
        subtitle_url: None,
        ..external_subtitle_launch()
    };
    let original = launch.media_url.clone();
    assert_eq!(apply_subtitle_burn_in(original.clone(), &launch), original);
}

#[test]
fn controller_burn_in_skipped_for_embedded_subtitle() {
    check_burn_in_skipped_for_embedded();
}

#[test]
fn request_burn_in_skipped_for_embedded_subtitle() {
    check_burn_in_skipped_for_embedded();
}

fn check_burn_in_skipped_without_index() {
    let launch = PlaybackRequest {
        subtitle_stream_index: None,
        ..external_subtitle_launch()
    };
    let original = launch.media_url.clone();
    assert_eq!(apply_subtitle_burn_in(original.clone(), &launch), original);
}

#[test]
fn controller_burn_in_skipped_without_subtitle_index() {
    check_burn_in_skipped_without_index();
}

#[test]
fn request_burn_in_skipped_without_subtitle_index() {
    check_burn_in_skipped_without_index();
}

fn check_burn_in_idempotent() {
    let launch = external_subtitle_launch();
    let once = apply_subtitle_burn_in(launch.media_url.clone(), &launch);
    let twice = apply_subtitle_burn_in(once.clone(), &launch);
    assert_eq!(once, twice);
}

#[test]
fn controller_burn_in_is_idempotent() {
    check_burn_in_idempotent();
}

#[test]
fn request_burn_in_is_idempotent() {
    check_burn_in_idempotent();
}

fn check_token_after_burn_in() {
    let launch = PlaybackRequest {
        headers: vec![HttpHeader {
            name: "X-Emby-Token".to_string(),
            value: "secret".to_string(),
        }],
        ..external_subtitle_launch()
    };
    let url = media_url(&launch);
    assert!(url.contains("SubtitleMethod=Encode"));
    assert!(url.contains("api_key=secret"));
}

#[test]
fn controller_media_url_appends_token_after_burn_in() {
    check_token_after_burn_in();
}

#[test]
fn request_media_url_appends_token_after_burn_in() {
    check_token_after_burn_in();
}

fn check_remove_query_keys() {
    assert_eq!(
        remove_query_keys("https://host/x?a=1&static=true&b=2#frag", &["static"]),
        "https://host/x?a=1&b=2#frag"
    );
    assert_eq!(remove_query_keys("https://host/x?static=true", &["static"]), "https://host/x");
}

#[test]
fn controller_remove_query_keys_preserves_fragment_and_other_pairs() {
    check_remove_query_keys();
}

#[test]
fn request_remove_query_keys_preserves_fragment_and_other_pairs() {
    check_remove_query_keys();
}

fn check_audio_index() {
    assert_eq!(audio_index(1), Some(0));
    assert_eq!(audio_index(3), Some(2));
    assert_eq!(audio_index(0), None);
    assert_eq!(audio_index(-1), None);
}

#[test]
fn controller_audio_index_is_zero_based_and_drops_non_tracks() {
    check_audio_index();
}

#[test]
fn request_audio_index_is_zero_based_and_drops_non_tracks() {
    check_audio_index();
}

fn check_subtitle_index() {
    assert_eq!(subtitle_index(Some(1)), 0);
    assert_eq!(subtitle_index(Some(5)), 4);
    assert_eq!(subtitle_index(Some(-1)), -1);
    assert_eq!(subtitle_index(Some(0)), -1);
    assert_eq!(subtitle_index(None), -1);
}

#[test]
fn controller_subtitle_index_is_zero_based_with_off_sentinel() {
    check_subtitle_index();
}

#[test]
fn request_subtitle_index_is_zero_based_with_off_sentinel() {
    check_subtitle_index();
}

fn check_track_selection_converts() {
    let launch = PlaybackRequest {
        audio_mpv_id: Some(2),
        subtitle_mpv_id: Some(5),
        ..PlaybackRequest::default()
    };
    let selection = track_selection(&launch);
    assert_eq!(selection.audio_index, Some(1));
    assert_eq!(selection.subtitle_index, Some(4));
}

#[test]
fn controller_track_selection_converts_embedded_tracks() {
    check_track_selection_converts();
}

#[test]
fn request_track_selection_converts_embedded_tracks() {
    check_track_selection_converts();
}

fn check_track_selection_external() {
    let launch = PlaybackRequest {
        subtitle_mpv_id: Some(3),
        subtitle_url: Some("https://host/sub.srt".to_string()),
        ..PlaybackRequest::default()
    };
    assert_eq!(track_selection(&launch).subtitle_index, Some(-1));
}

#[test]
fn controller_track_selection_disables_embedded_subtitle_for_external() {
    check_track_selection_external();
}

#[test]
fn request_track_selection_disables_embedded_subtitle_for_external() {
    check_track_selection_external();
}

fn check_track_selection_unset() {
    let selection = track_selection(&PlaybackRequest::default());
    assert_eq!(selection.audio_index, None);
    assert_eq!(selection.subtitle_index, None);
}

#[test]
fn controller_track_selection_leaves_unset_tracks_alone() {
    check_track_selection_unset();
}

#[test]
fn request_track_selection_leaves_unset_tracks_alone() {
    check_track_selection_unset();
}

#[test]
fn authorization_values_are_read_only_where_they_slice_cleanly() {
    assert!(authorization_value_sliceable("abc"));
    assert!(authorization_value_sliceable("Bearer token"));
    assert!(authorization_value_sliceable("  ab€cd€  "));
    assert!(!authorization_value_sliceable("€€€"));
}

#[test]
fn removing_query_keys_twice_changes_nothing_more() {
    let url = "https://host/v.mkv?a=1&STATIC=true&b=2#frag";
    let once = remove_query_keys(url, &["static"]);
    assert_eq!(once, "https://host/v.mkv?a=1&b=2#frag");
    assert_eq!(remove_query_keys(&once, &["static"]), once);

    let only = remove_query_keys("https://host/v.mkv?static=true", &["static"]);
    assert_eq!(only, "https://host/v.mkv");
    assert_eq!(remove_query_keys(&only, &["static"]), only);
}

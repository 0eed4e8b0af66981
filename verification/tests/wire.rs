use mediaflick_playback::context::{
    identity_matches_context, Identity, PlaybackContext, PLAYSTATE_SHUTDOWN_FLUSH_TIMEOUT_MS,
    SHUTDOWN_ACK_TIMEOUT_MS, SHUTDOWN_SEND_TIMEOUT_MS,
};
use mediaflick_playback::headers::{mpv_headers, playback_auth_headers};
use mediaflick_playback::model::{HttpHeader, PlaybackRequest};
use mediaflick_playback::mpchc::{
    coalesce, osd_message_bytes, parse_inbound, wide_payload, InboundMessage, Outbound, CMD_CONNECT,
    CMD_CURRENTPOSITION, CMD_GETCURRENTPOSITION, CMD_NOTIFYENDOFSTREAM, CMD_NOTIFYSEEK, CMD_NOWPLAYING,
    CMD_PAUSE, CMD_PLAY, CMD_SETPOSITION, CMD_STATE, MLS_LOADED, OSD_TOPLEFT,
};

fn cmd(command: u32) -> Outbound {
    Outbound {
        command,
        bytes: Vec::new(),
    }
}

fn commands(batch: &[Outbound]) -> Vec<u32> {
    batch.iter().map(|outbound| outbound.command).collect()
}

#[test]
fn wide_payload_is_nul_terminated() {
    assert_eq!(wide_payload("ab"), vec![0x61, 0x62, 0x00]);
}

#[test]
fn osd_bytes_layout_is_packed_264_bytes() {
    let bytes = osd_message_bytes(OSD_TOPLEFT, 3000, "Hi");
    assert_eq!(bytes.len(), 8 + 128 * 2);
    assert_eq!(&bytes[0..4], &1i32.to_le_bytes());
    assert_eq!(&bytes[4..8], &3000i32.to_le_bytes());
    assert_eq!(&bytes[8..10], &[b'H', 0]);
    assert_eq!(&bytes[10..12], &[b'i', 0]);
    assert_eq!(&bytes[12..14], &[0, 0]);
}

#[test]
fn coalesce_keeps_only_latest_setposition() {
    let mut batch = vec![
        Outbound::command(CMD_SETPOSITION, "10.000"),
        Outbound::command(CMD_SETPOSITION, "20.000"),
        Outbound::command(CMD_SETPOSITION, "30.000"),
    ];
    coalesce(&mut batch);
    assert_eq!(commands(&batch), vec![CMD_SETPOSITION]);
    assert_eq!(batch[0].bytes, Outbound::command(0, "30.000").bytes);
}

#[test]
fn coalesce_preserves_other_commands_and_order() {
    let mut batch = vec![cmd(CMD_SETPOSITION), cmd(CMD_PAUSE), cmd(CMD_SETPOSITION), cmd(CMD_PLAY)];
    coalesce(&mut batch);
    assert_eq!(commands(&batch), vec![CMD_PAUSE, CMD_SETPOSITION, CMD_PLAY]);
}

#[test]
fn coalesce_collapses_position_polls() {
    let mut batch = vec![
        cmd(CMD_GETCURRENTPOSITION),
        cmd(CMD_GETCURRENTPOSITION),
        cmd(CMD_GETCURRENTPOSITION),
    ];
    coalesce(&mut batch);
    assert_eq!(commands(&batch), vec![CMD_GETCURRENTPOSITION]);
}

#[test]
fn coalesce_leaves_singletons_untouched() {
    let mut batch = vec![cmd(CMD_PAUSE), cmd(CMD_SETPOSITION)];
    coalesce(&mut batch);
    assert_eq!(commands(&batch), vec![CMD_PAUSE, CMD_SETPOSITION]);
}

#[test]
fn playback_context_must_match_the_active_identity() {
    let identity = Identity {
        playback_id: 1,
        item_id: Some("current".to_string()),
        media_source_id: Some("source".to_string()),
        play_session_id: None,
    };
    assert!(identity_matches_context(
        &identity,
        &PlaybackContext {
            item_id: Some("current".to_string()),
            ..Default::default()
        }
    ));
    assert!(!identity_matches_context(
        &identity,
        &PlaybackContext {
            item_id: Some("next".to_string()),
            ..Default::default()
        }
    ));
}

#[test]
fn shutdown_ack_deadline_includes_playstate_flush_and_player_close() {
    assert!(SHUTDOWN_ACK_TIMEOUT_MS > PLAYSTATE_SHUTDOWN_FLUSH_TIMEOUT_MS.saturating_add(SHUTDOWN_SEND_TIMEOUT_MS));
}

#[test]
fn coalescing_twice_changes_nothing_more() {
    let mut batch = vec![
        Outbound::command(CMD_SETPOSITION, "1.000"),
        cmd(CMD_PAUSE),
        Outbound::command(CMD_SETPOSITION, "2.000"),
        cmd(CMD_GETCURRENTPOSITION),
        cmd(CMD_PLAY),
        cmd(CMD_GETCURRENTPOSITION),
    ];
    coalesce(&mut batch);
    assert_eq!(
        commands(&batch),
        vec![CMD_PAUSE, CMD_SETPOSITION, CMD_PLAY, CMD_GETCURRENTPOSITION]
    );
    let once = batch.clone();
    coalesce(&mut batch);
    assert_eq!(batch, once);
}

#[test]
fn header_lists_name_each_header_once() {
    let mut launch = PlaybackRequest::new("https://host/Videos/x/stream?api_key=tok");
    launch.headers = vec![
        HttpHeader { name: "Cookie".to_string(), value: "a=1".to_string() },
        HttpHeader { name: "cookie".to_string(), value: "b=2".to_string() },
        HttpHeader { name: "X-Emby-Token".to_string(), value: " abc ".to_string() },
    ];
    let headers = mpv_headers(&launch, true);
    let names: Vec<&str> = headers.iter().map(|h| h.name.as_str()).collect();
    assert_eq!(names, vec!["Cookie", "X-Emby-Token"]);
    assert_eq!(headers[1].value, "abc");
    let auth = playback_auth_headers(&launch);
    let mut lowered: Vec<String> = auth.iter().map(|h| h.name.to_ascii_lowercase()).collect();
    let count = lowered.len();
    lowered.sort();
    lowered.dedup();
    assert_eq!(lowered.len(), count);
}

/// A decimal payload read as the controller reads it: a finite number.
fn seconds(text: &str) -> Option<f64> {
    text.trim().parse::<f64>().ok().filter(|value| value.is_finite())
}

#[test]
fn parses_connect_handle() {
    assert_eq!(parse_inbound(CMD_CONNECT, "12345"), InboundMessage::Connect { hwnd: 12345 });
}

#[test]
fn parses_nowplaying_duration_from_last_field() {
    let message = parse_inbound(CMD_NOWPLAYING, "Title|Author|Desc|C:\\a|b.mkv|1325.5");
    let InboundMessage::NowPlaying { duration_text } = message else {
        panic!("expected now playing, got {message:?}");
    };
    assert_eq!(duration_text.as_deref().and_then(seconds), Some(1325.5));
}

#[test]
fn parses_position_and_seek() {
    let InboundMessage::CurrentPosition(position) = parse_inbound(CMD_CURRENTPOSITION, "42.250") else {
        panic!("expected a position");
    };
    assert_eq!(seconds(&position).unwrap_or(0.0), 42.25);
    let InboundMessage::NotifySeek(seek) = parse_inbound(CMD_NOTIFYSEEK, "10") else {
        panic!("expected a seek");
    };
    assert_eq!(seconds(&seek).unwrap_or(0.0), 10.0);
}

#[test]
fn parses_state_and_endofstream() {
    assert_eq!(parse_inbound(CMD_STATE, "2"), InboundMessage::State(MLS_LOADED));
    assert_eq!(parse_inbound(CMD_NOTIFYENDOFSTREAM, ""), InboundMessage::EndOfStream);
}

#[test]
fn unknown_command_is_ignored() {
    assert_eq!(parse_inbound(0xDEAD_BEEF, "x"), InboundMessage::Ignored(0xDEAD_BEEF));
}

#[test]
fn a_long_osd_message_is_cut_to_127_units_and_ends_in_nul() {
    let message = "x".repeat(200);
    let bytes = osd_message_bytes(OSD_TOPLEFT, 1000, &message);
    assert_eq!(bytes.len(), 264);
    for k in 0..127 {
        assert_eq!(&bytes[8 + 2 * k..10 + 2 * k], &[b'x', 0]);
    }
    assert_eq!(&bytes[262..264], &[0, 0]);
}

#[test]
fn repeated_other_commands_are_all_kept() {
    let mut batch = vec![cmd(CMD_PAUSE), cmd(CMD_PLAY), cmd(CMD_PAUSE)];
    coalesce(&mut batch);
    assert_eq!(commands(&batch), vec![CMD_PAUSE, CMD_PLAY, CMD_PAUSE]);
}

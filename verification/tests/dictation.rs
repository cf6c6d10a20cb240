use whispr::client::StreamEvent;
use whispr::config::AppConfig;
use whispr::dictation::{
    dot_icon_rgba, hud_position, on_stream_event, start_message, tray_dot_color, tray_tooltip,
    LatestTranscript, TrayStatus, UiAction,
};
use whispr::dictionary::{Snippet, SnippetEngine};
use whispr::protocol::{encode_client_message, ClientMessage};

fn engine() -> SnippetEngine {
    SnippetEngine::new(vec![Snippet { trigger: "brb".into(), expansion: "Be right back!".into() }])
}

fn final_event(text: &str) -> StreamEvent {
    StreamEvent::Final { text: text.into(), raw_text: "raw".into(), duration_ms: 7 }
}

#[test]
fn final_transcript_is_expanded_remembered_and_inserted() {
    let acts = on_stream_event(final_event("brb"), &engine(), true, true);
    match acts.as_slice() {
        [UiAction::RememberLatest(a), UiAction::Final { text, raw_text, duration_ms }, UiAction::FinishSession, UiAction::Insert(b), UiAction::HideHudLater] =>
        {
            assert_eq!(a, "Be right back!");
            assert_eq!(text, "Be right back!");
            assert_eq!(raw_text, "raw");
            assert_eq!(*duration_ms, 7);
            assert_eq!(b, "Be right back!");
        }
        other => panic!("{other:?}"),
    }
}

#[test]
fn empty_final_is_neither_remembered_nor_inserted() {
    let acts = on_stream_event(final_event(""), &engine(), false, true);
    assert!(matches!(acts.as_slice(), [UiAction::Final { .. }, UiAction::FinishSession]));
    let acts = on_stream_event(final_event(""), &engine(), true, false);
    assert_eq!(acts.len(), 2);
}

#[test]
fn other_events() {
    assert!(matches!(on_stream_event(StreamEvent::Ready, &engine(), false, false).as_slice(), [UiAction::Ready]));
    match on_stream_event(StreamEvent::Partial("hel".into()), &engine(), false, false).as_slice() {
        [UiAction::Partial(t)] => assert_eq!(t, "hel"),
        other => panic!("{other:?}"),
    }
    match on_stream_event(StreamEvent::Error("boom".into()), &engine(), false, false).as_slice() {
        [UiAction::Error(m), UiAction::FinishSession] => assert_eq!(m, "boom"),
        other => panic!("{other:?}"),
    }
    assert!(matches!(on_stream_event(StreamEvent::Closed, &engine(), true, true).as_slice(), [UiAction::FinishSession]));
}

#[test]
fn start_message_follows_the_config() {
    let cfg = AppConfig {
        language: "ru".into(),
        polish_mode: "full".into(),
        dictionary: vec!["Whispr".into()],
        ..AppConfig::default()
    };
    let msg = start_message(&cfg);
    assert!(matches!(msg, ClientMessage::Start { .. }));
    assert_eq!(
        encode_client_message(&msg),
        r#"{"type":"start","audio":{"format":"pcm_s16le","sample_rate":16000,"channels":1},"language":"ru","context":{},"dictionary":["Whispr"],"polish":{"mode":"full"}}"#
    );
}

#[test]
fn latest_transcript_keeps_last_nonempty() {
    let mut latest = LatestTranscript::new();
    assert_eq!(latest.for_copy(), None);
    latest.record("first");
    latest.record("");
    assert_eq!(latest.for_copy(), Some("first".to_string()));
    latest.record("second");
    assert_eq!(latest.for_copy(), Some("second".to_string()));
}

#[test]
fn tray_presentation() {
    assert_eq!(tray_tooltip(TrayStatus::Idle), "Whispr — voice to text anywhere");
    assert_eq!(tray_tooltip(TrayStatus::Recording), "Whispr — recording… (press the hotkey to stop)");
    assert_eq!(tray_tooltip(TrayStatus::Transcribing), "Whispr — transcribing…");
    assert_eq!(tray_dot_color(TrayStatus::Idle), None);
    assert_eq!(tray_dot_color(TrayStatus::Recording), Some([0xE5, 0x3E, 0x3E]));
    assert_eq!(tray_dot_color(TrayStatus::Transcribing), Some([0xF0, 0xA8, 0x2E]));
}

#[test]
fn dot_icon_matches_the_float_disc() {
    let rgb = [1u8, 2, 3];
    let px = dot_icon_rgba(rgb);
    assert_eq!(px.len(), 32 * 32 * 4);
    let center = (32f32 - 1.0) / 2.0;
    let radius = 32f32 * 0.42;
    for y in 0..32usize {
        for x in 0..32usize {
            let dx = x as f32 - center;
            let dy = y as f32 - center;
            let inside = dx * dx + dy * dy <= radius * radius;
            let i = (y * 32 + x) * 4;
            let expected: [u8; 4] = if inside { [1, 2, 3, 0xFF] } else { [0, 0, 0, 0] };
            assert_eq!(&px[i..i + 4], &expected, "pixel ({x}, {y})");
        }
    }
    assert_eq!(&px[0..4], &[0, 0, 0, 0]);
    assert_eq!(&px[(16 * 32 + 16) * 4..(16 * 32 + 16) * 4 + 4], &[1, 2, 3, 0xFF]);
}

#[test]
fn hud_sits_centred_above_the_bottom() {
    assert_eq!(hud_position(1920, 1080, 560, 104), (680, 896));
    assert_eq!(hud_position(400, 100, 560, 104), (0, 0));
}

use whispr::dictation::{Lifecycle, Notice, Press};

#[test]
fn hotkey_lifecycle_follows_the_tray() {
    let mut l = Lifecycle::new();
    assert!(!l.is_active());

    // First press asks for a session; a failed start only reports the error.
    let (press, notices) = l.press();
    assert_eq!(press, Press::StartSession);
    assert!(notices.is_empty());
    let notices = l.started(Err("microphone unavailable: no input audio device found".into()));
    assert_eq!(
        notices,
        vec![Notice::Error("microphone unavailable: no input audio device found".into())]
    );
    assert!(!l.is_active());

    // A successful start records, shown in red.
    let (press, _) = l.press();
    assert_eq!(press, Press::StartSession);
    assert_eq!(
        l.started(Ok(())),
        vec![Notice::Recording(true), Notice::Tray(TrayStatus::Recording)]
    );
    assert!(l.is_active());

    // The next press stops it; the transcript is on its way.
    let (press, notices) = l.press();
    assert_eq!(press, Press::StopSession);
    assert_eq!(
        notices,
        vec![Notice::Recording(false), Notice::Tray(TrayStatus::Transcribing)]
    );
    assert!(!l.is_active());

    // The final transcript lands.
    assert_eq!(
        l.finish(),
        vec![Notice::Recording(false), Notice::Tray(TrayStatus::Idle)]
    );
}

#[test]
fn stream_error_or_close_finishes_a_running_session() {
    for event in [StreamEvent::Error("websocket error".into()), StreamEvent::Closed] {
        let mut l = Lifecycle::new();
        l.press();
        l.started(Ok(()));
        assert!(l.is_active());
        let acts = on_stream_event(event, &engine(), false, false);
        assert!(matches!(acts.last(), Some(UiAction::FinishSession)));
        // The app performs FinishSession with the common finalizer.
        assert_eq!(
            l.finish(),
            vec![Notice::Recording(false), Notice::Tray(TrayStatus::Idle)]
        );
        assert!(!l.is_active());
        let (press, _) = l.press();
        assert_eq!(press, Press::StartSession);
    }
}

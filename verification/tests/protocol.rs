use whispr::protocol::{
    encode_client_message, AudioSpec, ClientMessage, PolishOptions, SessionContext, AUDIO_FORMAT,
};

fn start(context: SessionContext, dictionary: Vec<String>, language: &str) -> ClientMessage {
    ClientMessage::Start {
        audio: AudioSpec::default(),
        language: language.to_string(),
        context,
        dictionary,
        polish: PolishOptions::default(),
    }
}

#[test]
fn defaults_match_the_wire_format() {
    let a = AudioSpec::default();
    assert_eq!(a.format, "pcm_s16le");
    assert_eq!(AUDIO_FORMAT, "pcm_s16le");
    assert_eq!(a.sample_rate, 16000);
    assert_eq!(a.channels, 1);
    assert_eq!(PolishOptions::default().mode, "fillers");
    let c = SessionContext::default();
    assert!(c.app.is_none() && c.style.is_none());
}

#[test]
fn start_message_is_tagged_json_in_field_order() {
    let msg = start(
        SessionContext::default(),
        vec!["Whispr".to_string(), "Grigorov".to_string()],
        "auto",
    );
    assert_eq!(
        encode_client_message(&msg),
        r#"{"type":"start","audio":{"format":"pcm_s16le","sample_rate":16000,"channels":1},"language":"auto","context":{},"dictionary":["Whispr","Grigorov"],"polish":{"mode":"fillers"}}"#
    );
}

#[test]
fn context_leaves_out_absent_fields() {
    let app_only = start(
        SessionContext { app: Some("whispr-cli".into()), style: None },
        vec![],
        "en",
    );
    assert_eq!(
        encode_client_message(&app_only),
        r#"{"type":"start","audio":{"format":"pcm_s16le","sample_rate":16000,"channels":1},"language":"en","context":{"app":"whispr-cli"},"dictionary":[],"polish":{"mode":"fillers"}}"#
    );
    let both = start(
        SessionContext { app: Some("com.example.editor".into()), style: Some("default".into()) },
        vec!["x".into()],
        "ru",
    );
    assert_eq!(
        encode_client_message(&both),
        r#"{"type":"start","audio":{"format":"pcm_s16le","sample_rate":16000,"channels":1},"language":"ru","context":{"app":"com.example.editor","style":"default"},"dictionary":["x"],"polish":{"mode":"fillers"}}"#
    );
    let style_only = start(SessionContext { app: None, style: Some("s".into()) }, vec![], "auto");
    assert!(encode_client_message(&style_only).contains(r#""context":{"style":"s"}"#));
}

#[test]
fn stop_message() {
    assert_eq!(encode_client_message(&ClientMessage::Stop), r#"{"type":"stop"}"#);
}

#[test]
fn strings_are_escaped_as_serde_json_does() {
    let tricky = "say \"hi\"\\\n\t\u{1}é";
    let msg = start(SessionContext::default(), vec![tricky.to_string()], tricky);
    let encoded = encode_client_message(&msg);
    let quoted = serde_json::to_string(tricky).unwrap();
    assert_eq!(quoted, "\"say \\\"hi\\\"\\\\\\n\\t\\u0001é\"");
    assert!(encoded.contains(&format!("\"language\":{quoted}")));
    assert!(encoded.contains(&format!("\"dictionary\":[{quoted}]")));
    // The frame is valid JSON that reads back to the same values.
    let v: serde_json::Value = serde_json::from_str(&encoded).unwrap();
    assert_eq!(v["language"], tricky);
    assert_eq!(v["type"], "start");
    assert_eq!(v["audio"]["sample_rate"], 16000);
}

#[test]
fn custom_audio_spec_numbers() {
    let msg = ClientMessage::Start {
        audio: AudioSpec { format: "pcm_s16le".into(), sample_rate: 48000, channels: 2 },
        language: "auto".into(),
        context: SessionContext::default(),
        dictionary: vec![],
        polish: PolishOptions { mode: "none".into() },
    };
    let s = encode_client_message(&msg);
    assert!(s.contains(r#""audio":{"format":"pcm_s16le","sample_rate":48000,"channels":2}"#));
    assert!(s.ends_with(r#""polish":{"mode":"none"}}"#));
}

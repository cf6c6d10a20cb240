use whispr::client::{
    handle_server_message, pcm_to_bytes, send_failure, Outgoing, SessionAction, SessionInput,
    SessionPhase, StreamError, StreamEvent, StreamSession,
};
use whispr::protocol::{AudioSpec, ClientMessage, PolishOptions, ServerMessage, SessionContext};

fn start_msg() -> ClientMessage {
    ClientMessage::Start {
        audio: AudioSpec::default(),
        language: "auto".into(),
        context: SessionContext::default(),
        dictionary: vec![],
        polish: PolishOptions::default(),
    }
}

fn final_msg() -> ServerMessage {
    ServerMessage::Final {
        text: "Hello world.".into(),
        raw_text: "um hello world".into(),
        duration_ms: 1840,
    }
}

#[test]
fn pcm_is_little_endian_s16() {
    assert_eq!(pcm_to_bytes(&[]), Vec::<u8>::new());
    assert_eq!(pcm_to_bytes(&[1, -1, 0x1234, i16::MIN]), vec![1, 0, 0xff, 0xff, 0x34, 0x12, 0x00, 0x80]);
    let samples: Vec<i16> = (-300..300).map(|i| i * 97).collect();
    let expected: Vec<u8> = samples.iter().flat_map(|s| s.to_le_bytes()).collect();
    assert_eq!(pcm_to_bytes(&samples), expected);
}

#[test]
fn server_messages_map_to_events() {
    assert!(matches!(handle_server_message(ServerMessage::Ready), (StreamEvent::Ready, false)));
    match handle_server_message(ServerMessage::Partial { text: "hello wor".into() }) {
        (StreamEvent::Partial(t), false) => assert_eq!(t, "hello wor"),
        other => panic!("{other:?}"),
    }
    match handle_server_message(final_msg()) {
        (StreamEvent::Final { text, raw_text, duration_ms }, true) => {
            assert_eq!(text, "Hello world.");
            assert_eq!(raw_text, "um hello world");
            assert_eq!(duration_ms, 1840);
        }
        other => panic!("{other:?}"),
    }
    match handle_server_message(ServerMessage::Error { message: "boom".into() }) {
        (StreamEvent::Error(m), false) => assert_eq!(m, "boom"),
        other => panic!("{other:?}"),
    }
}

#[test]
fn session_streams_audio_then_stops_and_drains_final() {
    let (mut s, first) = StreamSession::open(&start_msg());
    match first {
        Outgoing::Start(json) => assert!(json.starts_with(r#"{"type":"start","#)),
        other => panic!("{other:?}"),
    }
    assert_eq!(s.phase(), SessionPhase::Streaming);

    let r = s.step(SessionInput::ServerText(ServerMessage::Ready));
    assert!(r.outcome.is_none());
    assert!(matches!(r.actions.as_slice(), [SessionAction::Emit(StreamEvent::Ready)]));

    let r = s.step(SessionInput::Audio(vec![1, 2]));
    match r.actions.as_slice() {
        [SessionAction::Send(Outgoing::Audio(b))] => assert_eq!(b, &vec![1, 0, 2, 0]),
        other => panic!("{other:?}"),
    }

    let r = s.step(SessionInput::StopRequested);
    match r.actions.as_slice() {
        [SessionAction::Send(Outgoing::Stop(j))] => assert_eq!(j, r#"{"type":"stop"}"#),
        other => panic!("{other:?}"),
    }
    assert_eq!(s.phase(), SessionPhase::Draining);

    // Audio is no longer forwarded while draining.
    let r = s.step(SessionInput::Audio(vec![5]));
    assert!(r.actions.is_empty() && r.outcome.is_none());

    let r = s.step(SessionInput::ServerText(final_msg()));
    assert!(matches!(r.outcome, Some(Ok(()))));
    assert!(matches!(
        r.actions.as_slice(),
        [
            SessionAction::Emit(StreamEvent::Final { .. }),
            SessionAction::Send(Outgoing::Close),
            SessionAction::Emit(StreamEvent::Closed)
        ]
    ));
    assert_eq!(s.phase(), SessionPhase::Finished);

    let r = s.step(SessionInput::ServerText(final_msg()));
    assert!(r.actions.is_empty() && r.outcome.is_none());
}

#[test]
fn final_while_streaming_skips_stop() {
    let (mut s, _) = StreamSession::open(&start_msg());
    let r = s.step(SessionInput::ServerText(final_msg()));
    assert!(matches!(r.outcome, Some(Ok(()))));
    assert_eq!(r.actions.len(), 3);
    assert!(s.step(SessionInput::AudioEnded).actions.is_empty());
}

#[test]
fn server_close_while_streaming_reports_closed() {
    let (mut s, _) = StreamSession::open(&start_msg());
    let r = s.step(SessionInput::ServerClosed);
    assert!(matches!(r.outcome, Some(Ok(()))));
    assert!(matches!(r.actions.as_slice(), [SessionAction::Emit(StreamEvent::Closed)]));
}

#[test]
fn drain_close_and_timeout_report_errors() {
    let (mut s, _) = StreamSession::open(&start_msg());
    s.step(SessionInput::AudioEnded);
    let r = s.step(SessionInput::ServerClosed);
    match r.actions.as_slice() {
        [SessionAction::Emit(StreamEvent::Error(m)), SessionAction::Send(Outgoing::Close), SessionAction::Emit(StreamEvent::Closed)] => {
            assert_eq!(m, "connection closed before final transcript")
        }
        other => panic!("{other:?}"),
    }

    let (mut s, _) = StreamSession::open(&start_msg());
    s.step(SessionInput::StopRequested);
    s.step(SessionInput::OtherFrame);
    let r = s.step(SessionInput::DrainTimedOut);
    match r.actions.as_slice() {
        [SessionAction::Emit(StreamEvent::Error(m)), SessionAction::Send(Outgoing::Close), SessionAction::Emit(StreamEvent::Closed)] => {
            assert_eq!(m, "timed out waiting for final transcript")
        }
        other => panic!("{other:?}"),
    }
}

#[test]
fn failures_end_the_session_with_errors() {
    let (mut s, _) = StreamSession::open(&start_msg());
    let r = s.step(SessionInput::BadServerText("{nope".into()));
    match r.outcome {
        Some(Err(e)) => assert_eq!(e.message(), "bad server message: {nope"),
        other => panic!("{other:?}"),
    }
    assert!(r.actions.is_empty());

    let (mut s, _) = StreamSession::open(&start_msg());
    match s.step(SessionInput::SocketError("reset".into())).outcome {
        Some(Err(e)) => assert_eq!(e.message(), "websocket error"),
        other => panic!("{other:?}"),
    }

    let (mut s, _) = StreamSession::open(&start_msg());
    s.step(SessionInput::StopRequested);
    match s.step(SessionInput::SocketError("reset".into())).outcome {
        Some(Err(e)) => assert_eq!(e.message(), "websocket error while draining"),
        other => panic!("{other:?}"),
    }
}

#[test]
fn send_failures_and_messages() {
    let e = send_failure(&Outgoing::Audio(vec![]), "broken pipe".into()).unwrap();
    assert_eq!(e.message(), "failed to send audio frame");
    let e = send_failure(&Outgoing::Start(String::new()), "x".into()).unwrap();
    assert_eq!(e.message(), "failed to send start message");
    let e = send_failure(&Outgoing::Stop(String::new()), "x".into()).unwrap();
    assert_eq!(e.message(), "failed to send stop message");
    assert!(send_failure(&Outgoing::Close, "x".into()).is_none());
    let e = StreamError::Connect { url: "ws://127.0.0.1:8765/v1/stream".into(), detail: "refused".into() };
    assert_eq!(e.message(), "failed to connect to gateway at ws://127.0.0.1:8765/v1/stream");
}

#[test]
fn audio_frames_carry_two_bytes_per_sample() {
    // 100 ms and 200 ms of 16 kHz mono audio: 3 200 and 6 400 bytes.
    assert_eq!(pcm_to_bytes(&vec![7i16; 1600]).len(), 3200);
    assert_eq!(pcm_to_bytes(&vec![-7i16; 3200]).len(), 6400);
}

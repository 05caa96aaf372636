use renderrelay::client::{join_message, start_message, ClientState, ClientStep};
use renderrelay::error::RrpError;
use renderrelay::message::RrpMessage;
use renderrelay::server::{init_message, requested_extensions, ServerState, ServerStep, StreamRequest};
use renderrelay::session::{close_step, poll_step, receive_frame, Frame, ReadFailure, ReadOutcome};
use renderrelay::types::{AuthMode, InputCaps, KeyState, Severity, StreamCaps, StreamFormat, StreamSelection};
use renderrelay::{JoinConfig, RendererConfig};

fn text(msg: &RrpMessage) -> Frame {
    Frame::Text(msg.to_json().unwrap())
}

fn config() -> RendererConfig {
    RendererConfig {
        name: Some("Sim".into()),
        supported_versions: vec!["0.1.0".into(), "0.2.0".into()],
        auth: AuthMode::NotRequired,
        auth_endpoint: None,
        stream: StreamCaps {
            supported: vec![StreamFormat::LlHls],
        },
        input: InputCaps {
            keys: vec!["ok".into()],
        },
        extensions: Some(vec!["golf.frp".into(), "other.ext".into()]),
    }
}

fn join() -> JoinConfig {
    JoinConfig {
        format: StreamFormat::LlHls,
        extensions: Some(vec!["golf.frp".into()]),
        token: None,
    }
}

#[test]
fn start_and_join_messages() {
    assert_eq!(
        start_message("tv", &["0.2.0", "0.1.0"]),
        RrpMessage::Start {
            version: vec!["0.2.0".into(), "0.1.0".into()],
            name: Some("tv".into())
        }
    );
    assert_eq!(
        join_message(join()),
        RrpMessage::Join {
            stream: StreamSelection {
                selected: StreamFormat::LlHls
            },
            extensions: Some(vec!["golf.frp".into()]),
            token: None
        }
    );
}

#[test]
fn client_full_handshake() {
    let state = ClientState::new(join());
    let init = init_message(&config(), "0.1.0".into());
    let state = match state.on_frame(text(&init)) {
        ClientStep::Send(msg, next) => {
            assert_eq!(msg, join_message(join()));
            next
        }
        other => panic!("expected Send, got {other:?}"),
    };
    let state = match state.on_frame(Frame::Other) {
        ClientStep::Continue(next) => next,
        other => panic!("expected Continue, got {other:?}"),
    };
    let warn = RrpMessage::Alert {
        severity: Severity::Warn,
        message: "slow".into(),
    };
    let state = match state.on_frame(text(&warn)) {
        ClientStep::Continue(next) => next,
        other => panic!("expected Continue, got {other:?}"),
    };
    let ready = RrpMessage::StreamReady {
        format: StreamFormat::LlHls,
        url: "http://h/s.m3u8".into(),
        extensions: None,
    };
    match state.on_frame(text(&ready)) {
        ClientStep::Established(session) => {
            assert_eq!(session.version(), "0.1.0");
            assert_eq!(session.stream_url(), "http://h/s.m3u8");
            assert_eq!(session.stream_format(), StreamFormat::LlHls);
            assert!(session.active_extensions().is_empty());
            assert_eq!(session.peer_name(), None);
        }
        other => panic!("expected Established, got {other:?}"),
    }
}

#[test]
fn client_critical_alert_fails_handshake() {
    let alert = RrpMessage::Alert {
        severity: Severity::Critical,
        message: "Authentication required".into(),
    };
    match ClientState::new(join()).on_frame(text(&alert)) {
        ClientStep::Failed(RrpError::Handshake(m)) => assert_eq!(m, "Authentication required"),
        other => panic!("expected Handshake failure, got {other:?}"),
    }
}

#[test]
fn client_close_and_bad_text_fail() {
    assert!(matches!(
        ClientState::new(join()).on_frame(Frame::Close),
        ClientStep::Failed(RrpError::Closed)
    ));
    assert!(matches!(
        ClientState::new(join()).on_frame(Frame::Text("{".into())),
        ClientStep::Failed(RrpError::Json(_))
    ));
}

#[test]
fn server_full_handshake() {
    let cfg = config();
    let start = RrpMessage::Start {
        version: vec!["0.1.0".into(), "0.2.0".into(), "9.9.9".into()],
        name: Some("roku".into()),
    };
    let state = ServerState::new();
    let state = match state.on_frame(&cfg, Frame::Text("garbage".into())) {
        ServerStep::Continue(next) => next,
        other => panic!("expected Continue, got {other:?}"),
    };
    let state = match state.on_frame(&cfg, text(&start)) {
        ServerStep::Send(init, next) => {
            assert_eq!(init, init_message(&cfg, "0.2.0".into()));
            next
        }
        other => panic!("expected Send, got {other:?}"),
    };
    let join_msg = RrpMessage::Join {
        stream: StreamSelection {
            selected: StreamFormat::LlHls,
        },
        extensions: Some(vec!["unknown.ext".into(), "golf.frp".into()]),
        token: Some("tok".into()),
    };
    let request = match state.on_frame(&cfg, text(&join_msg)) {
        ServerStep::Provide(request) => request,
        other => panic!("expected Provide, got {other:?}"),
    };
    assert_eq!(request.format, StreamFormat::LlHls);
    assert_eq!(request.extensions, vec!["golf.frp".to_string()]);
    assert_eq!(request.client_name.as_deref(), Some("roku"));
    let (ready, session) = request.ready("http://h/s.m3u8".into(), vec!["golf.frp".into()]);
    assert_eq!(
        ready,
        RrpMessage::StreamReady {
            format: StreamFormat::LlHls,
            url: "http://h/s.m3u8".into(),
            extensions: Some(vec!["golf.frp".into()])
        }
    );
    assert_eq!(session.version(), "0.2.0");
    assert_eq!(session.peer_name(), Some("roku"));
}

#[test]
fn server_rejects_without_common_version() {
    let start = RrpMessage::Start {
        version: vec!["5.0".into()],
        name: None,
    };
    match ServerState::new().on_frame(&config(), text(&start)) {
        ServerStep::Reject(alert, RrpError::Handshake(reason)) => {
            assert_eq!(reason, "No compatible RRP version");
            assert_eq!(
                alert,
                RrpMessage::Alert {
                    severity: Severity::Critical,
                    message: "No compatible RRP version".into()
                }
            );
        }
        other => panic!("expected Reject, got {other:?}"),
    }
}

#[test]
fn server_close_fails() {
    assert!(matches!(
        ServerState::new().on_frame(&config(), Frame::Close),
        ServerStep::Failed(RrpError::Closed)
    ));
}

#[test]
fn stream_ready_without_extensions_lists_none() {
    let request = StreamRequest {
        version: "0.1.0".into(),
        client_name: None,
        format: StreamFormat::Hls,
        extensions: vec![],
    };
    let (ready, session) = request.ready("u".into(), vec![]);
    assert_eq!(
        ready,
        RrpMessage::StreamReady {
            format: StreamFormat::Hls,
            url: "u".into(),
            extensions: None
        }
    );
    assert!(session.active_extensions().is_empty());
}

#[test]
fn requested_extensions_keep_viewer_order() {
    let server = Some(vec!["b".to_string(), "a".to_string()]);
    let viewer = vec!["a".to_string(), "c".to_string(), "b".to_string()];
    assert_eq!(requested_extensions(&server, viewer.clone()), vec!["a".to_string(), "b".to_string()]);
    assert!(requested_extensions(&None, viewer).is_empty());
}

#[test]
fn frames_after_handshake() {
    let key = RrpMessage::Key {
        key: "ok".into(),
        state: KeyState::Down,
    };
    assert_eq!(receive_frame(text(&key)).unwrap().unwrap(), key);
    assert!(receive_frame(Frame::Other).is_none());
    assert!(matches!(receive_frame(Frame::Close), Some(Err(RrpError::Closed))));
    assert!(matches!(receive_frame(Frame::Text("[]".into())), Some(Err(RrpError::Json(_)))));
}

#[test]
fn poll_step_decides_each_read() {
    let key = RrpMessage::Key { key: "ok".into(), state: KeyState::Down };
    match poll_step(ReadOutcome::Frame(text(&key))) {
        Some(Ok(Some(m))) => assert_eq!(m, key),
        other => panic!("unexpected {:?}", other),
    }
    assert!(poll_step(ReadOutcome::Frame(Frame::Other)).is_none());
    assert!(matches!(poll_step(ReadOutcome::Frame(Frame::Close)), Some(Err(RrpError::Closed))));
    assert!(matches!(
        poll_step(ReadOutcome::Frame(Frame::Text("{".into()))),
        Some(Err(RrpError::Json(_)))
    ));
    let would_block = tungstenite::Error::Io(std::io::Error::from(std::io::ErrorKind::WouldBlock));
    assert!(matches!(poll_step(ReadOutcome::Failed(ReadFailure::WouldBlock, would_block)), Some(Ok(None))));
    match poll_step(ReadOutcome::Failed(ReadFailure::ConnectionClosed, tungstenite::Error::ConnectionClosed)) {
        Some(Err(RrpError::WebSocket(e))) => assert!(matches!(*e, tungstenite::Error::ConnectionClosed)),
        other => panic!("unexpected {:?}", other),
    }
}

#[test]
fn close_step_decides_each_read() {
    assert!(matches!(close_step(ReadOutcome::Frame(Frame::Close)), Some(Ok(()))));
    assert!(close_step(ReadOutcome::Frame(Frame::Other)).is_none());
    assert!(close_step(ReadOutcome::Frame(Frame::Text("{}".into()))).is_none());
    assert!(matches!(
        close_step(ReadOutcome::Failed(ReadFailure::ConnectionClosed, tungstenite::Error::ConnectionClosed)),
        Some(Ok(()))
    ));
    assert!(matches!(
        close_step(ReadOutcome::Failed(ReadFailure::AlreadyClosed, tungstenite::Error::AlreadyClosed)),
        Some(Ok(()))
    ));
    let would_block = tungstenite::Error::Io(std::io::Error::from(std::io::ErrorKind::WouldBlock));
    match close_step(ReadOutcome::Failed(ReadFailure::WouldBlock, would_block)) {
        Some(Err(RrpError::WebSocket(e))) => assert!(matches!(*e, tungstenite::Error::Io(_))),
        other => panic!("unexpected {:?}", other),
    }
}

#[test]
fn errors_convert_from_outside_errors() {
    let e = RrpError::from(tungstenite::Error::AlreadyClosed);
    assert!(matches!(e, RrpError::WebSocket(b) if matches!(*b, tungstenite::Error::AlreadyClosed)));
    let json_err = serde_json::from_str::<serde_json::Value>("{").unwrap_err();
    assert!(matches!(RrpError::from(json_err), RrpError::Json(_)));
}

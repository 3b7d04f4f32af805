use monx::events::LogEvent;
use monx::ml::AnomalyEngine;
use monx::websocket::{
    Frame, SessionAction, WebSocketSession, ANOMALIES_TAG, PUSH_INTERVAL_SECONDS,
};

#[test]
fn heartbeat_pushes_snapshot_even_when_empty() {
    let engine = AnomalyEngine::new();
    let session = WebSocketSession::new();
    let message = session.on_interval(engine.get_anomalies()).unwrap();
    assert_eq!(message.tag, "anomalies");
    assert_eq!(ANOMALIES_TAG, "anomalies");
    assert!(message.data.is_empty());
    assert!(PUSH_INTERVAL_SECONDS <= 6);
    assert_eq!(PUSH_INTERVAL_SECONDS, 5);
}

#[test]
fn heartbeat_carries_the_anomaly_snapshot() {
    let mut engine = AnomalyEngine::new();
    for i in 0..120 {
        engine.analyze_event(&LogEvent {
            timestamp: "t".to_string(),
            level: if i >= 110 { "ERROR".to_string() } else { "INFO".to_string() },
            message: format!("m{}", i),
            service: "s".to_string(),
            agent_id: "a".to_string(),
            trace_id: None,
            source: "agent".to_string(),
        });
    }
    engine.detect_frequency_anomalies("now");
    let session = WebSocketSession::new();
    let message = session.on_interval(engine.get_anomalies()).unwrap();
    assert_eq!(message.data, engine.get_anomalies());
    assert_eq!(message.data.len(), 1);
}

#[test]
fn session_answers_frames() {
    let mut session = WebSocketSession::new();
    assert_eq!(session.handle(Frame::Ping(vec![1, 2, 3])), SessionAction::Pong(vec![1, 2, 3]));
    assert_eq!(
        session.handle(Frame::Text("hello".to_string())),
        SessionAction::SendText("hello".to_string())
    );
    assert_eq!(session.handle(Frame::Other), SessionAction::Nothing);
    assert!(!session.stopped());
    assert!(session.on_interval(Vec::new()).is_some());
}

#[test]
fn close_frame_ends_the_session() {
    let mut session = WebSocketSession::new();
    assert_eq!(session.handle(Frame::Close), SessionAction::CloseAndStop);
    assert!(session.stopped());
    assert!(session.on_interval(Vec::new()).is_none());
    assert_eq!(session.handle(Frame::Text("late".to_string())), SessionAction::Nothing);
    assert_eq!(session.handle(Frame::Close), SessionAction::Nothing);
    assert!(session.stopped());
}

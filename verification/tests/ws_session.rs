use amr_backend::api::ws::handler::{WsAction, WsClientMessage, WsEvent, WsServerMessage, WsSession};

fn sub(t: &str) -> WsEvent {
    WsEvent::Text(Ok(WsClientMessage::Subscribe { topic: t.to_string() }))
}

fn unsub(t: &str) -> WsEvent {
    WsEvent::Text(Ok(WsClientMessage::Unsubscribe { topic: t.to_string() }))
}

#[test]
fn subscriptions_follow_requests() {
    let mut s = WsSession::new();
    assert!(matches!(s.handle(sub("telemetry:r1")), WsAction::Reply(WsServerMessage::Subscribed { topic }) if topic == "telemetry:r1"));
    s.handle(sub("missions"));
    s.handle(sub("missions"));
    assert_eq!(s.subscription_count(), 2);
    assert!(s.is_subscribed("missions"));
    assert!(matches!(s.handle(unsub("missions")), WsAction::Reply(WsServerMessage::Unsubscribed { topic }) if topic == "missions"));
    assert!(!s.is_subscribed("missions"));
    s.handle(unsub("never"));
    assert_eq!(s.subscription_count(), 1);
}

#[test]
fn ping_errors_and_close() {
    let mut s = WsSession::new();
    assert!(matches!(s.handle(WsEvent::Text(Ok(WsClientMessage::Ping))), WsAction::Reply(WsServerMessage::Pong)));
    match s.handle(WsEvent::Text(Err("expected value at line 1 column 1".to_string()))) {
        WsAction::Reply(WsServerMessage::Error { message }) => {
            assert_eq!(message, "Invalid message: expected value at line 1 column 1")
        }
        other => panic!("unexpected {:?}", other),
    }
    assert!(matches!(s.handle(WsEvent::Other), WsAction::Continue));
    assert!(matches!(s.handle(WsEvent::Close), WsAction::Stop));
    assert!(matches!(s.handle(WsEvent::ReceiveError), WsAction::Stop));
    assert_eq!(s.subscription_count(), 0);
}

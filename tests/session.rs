use event_ui::bus::{EventBus, Recv};
use event_ui::session::{after_encoding, encode_event, EncodeError, SessionAction, SessionEvent, SessionState};

#[test]
fn upgrade_subscribes() {
    assert_eq!(
        SessionState::Upgrading.step(SessionEvent::Upgraded),
        (SessionState::Streaming, SessionAction::Subscribe)
    );
    assert_eq!(
        SessionState::Upgrading.step(SessionEvent::UpgradeFailed),
        (SessionState::Closed, SessionAction::Release)
    );
}

#[test]
fn event_is_sent_as_json() {
    assert_eq!(
        SessionState::Streaming.step(SessionEvent::Received(Recv::Event("foo".to_string()))),
        (SessionState::Streaming, SessionAction::Send("\"foo\"".to_string()))
    );
}

#[test]
fn json_escapes_quotes() {
    assert_eq!(encode_event(&"a\"b".to_string()), Ok("\"a\\\"b\"".to_string()));
}

#[test]
fn lag_is_skipped() {
    assert_eq!(
        SessionState::Streaming.step(SessionEvent::Received(Recv::Lagged(3))),
        (SessionState::Streaming, SessionAction::Receive)
    );
}

#[test]
fn empty_waits_and_closed_releases() {
    assert_eq!(
        SessionState::Streaming.step(SessionEvent::Received(Recv::Empty)),
        (SessionState::Streaming, SessionAction::Wait)
    );
    assert_eq!(
        SessionState::Streaming.step(SessionEvent::Received(Recv::Closed)),
        (SessionState::Closed, SessionAction::Release)
    );
}

#[test]
fn write_failure_ends_session() {
    assert_eq!(
        SessionState::Streaming.step(SessionEvent::SendFailed),
        (SessionState::Closed, SessionAction::Release)
    );
    assert_eq!(
        SessionState::Streaming.step(SessionEvent::Sent),
        (SessionState::Streaming, SessionAction::Receive)
    );
    assert_eq!(
        SessionState::Closed.step(SessionEvent::Sent),
        (SessionState::Closed, SessionAction::Stop)
    );
}

#[test]
fn encoding_failure_ends_session() {
    assert_eq!(after_encoding(Err(EncodeError)), (SessionState::Closed, SessionAction::Release));
    assert_eq!(
        after_encoding(Ok("x".to_string())),
        (SessionState::Streaming, SessionAction::Send("x".to_string()))
    );
}

#[test]
fn json_escapes_control_characters() {
    assert_eq!(
        encode_event(&"a\nb\tc\u{1}\u{8}\u{c}\r\\".to_string()),
        Ok("\"a\\nb\\tc\\u0001\\b\\f\\r\\\\\"".to_string())
    );
    assert_eq!(encode_event(&"\u{1f}".to_string()), Ok("\"\\u001f\"".to_string()));
}

#[test]
fn json_keeps_other_characters() {
    assert_eq!(
        encode_event(&"é/\u{7f} x".to_string()),
        Ok("\"é/\u{7f} x\"".to_string())
    );
    assert_eq!(encode_event(&String::new()), Ok("\"\"".to_string()));
}

#[test]
fn lagged_session_sends_only_retained_events() {
    let mut bus = EventBus::new(2);
    let mut sub = bus.subscribe().unwrap();
    for s in ["e1", "e2", "e3"] {
        bus.publish(s.to_string()).unwrap();
    }
    let mut sent = Vec::new();
    loop {
        match SessionState::Streaming.step(SessionEvent::Received(bus.next(&mut sub))) {
            (_, SessionAction::Send(t)) => sent.push(t),
            (_, SessionAction::Receive) => {}
            _ => break,
        }
    }
    assert_eq!(sent, vec!["\"e2\"".to_string(), "\"e3\"".to_string()]);
}

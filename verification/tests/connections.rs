use prometheus_proxy_server::connection::{
    identity_labels, receive_error_reason, Action, Closing, Connection, Event, CLOSE_CODE,
};
use prometheus_proxy_server::metrics::CloseReason;
use prometheus_proxy_server::outside::checked_status;
use prometheus_proxy_server::protocol::{ClientMessage, PING_TEXT, PONG_TEXT};
use prometheus_proxy_server::state::{AppState, WorkerIdentity};

const SECOND: u128 = 1_000_000_000;

#[test]
fn transport_errors_are_classified_as_resets() {
    for error in [
        "WebSocket protocol error: Connection reset without closing handshake",
        "IO error: Connection reset by peer (os error 104)",
        "IO error: Broken pipe (os error 32)",
    ] {
        assert_eq!(receive_error_reason(error), CloseReason::Reset, "{error}");
    }
    assert_eq!(
        receive_error_reason("Space limit exceeded: Message too long"),
        CloseReason::ReceiveError
    );
}

#[test]
fn every_transport_error_counts_in_any_case() {
    for error in ["RESET", "CLOSING HANDSHAKE", "Connection Aborted", "an UNEXPECTED EOF!"] {
        assert_eq!(receive_error_reason(error), CloseReason::Reset, "{error}");
    }
    for error in ["", "res et", "broken-pipe", "handshake"] {
        assert_eq!(receive_error_reason(error), CloseReason::ReceiveError, "{error}");
    }
}

fn closing(action: Action) -> Closing {
    match action {
        Action::Close(closing) => closing,
        _ => panic!("the connection stays open"),
    }
}

#[test]
fn each_end_of_a_connection_has_its_reason() {
    let mut state = AppState::new();
    let cases = vec![
        (Event::Shutdown, CloseReason::Shutdown, Some("server shutdown"), false),
        (Event::Evicted, CloseReason::Replaced, Some("worker replaced"), false),
        (Event::Outgoing { present: false }, CloseReason::SendFailed, None, false),
        (Event::SendFailed, CloseReason::SendFailed, None, false),
        (Event::Close, CloseReason::ClientClose, None, true),
        (Event::End, CloseReason::Reset, None, false),
        (Event::Error("broken pipe".to_owned()), CloseReason::Reset, None, false),
        (Event::Error("bad frame".to_owned()), CloseReason::ReceiveError, None, false),
    ];
    for (event, reason, farewell, flush) in cases {
        let mut connection = Connection::open(&mut state, 0);
        let before = state.metrics().closes(reason);
        let closing = closing(connection.websocket_connection(&mut state, event, 0));
        assert_eq!(closing.reason, reason);
        assert_eq!(closing.farewell, farewell);
        assert_eq!(closing.flush, flush);
        connection.close(&mut state, closing.reason);
        assert_eq!(state.metrics().closes(reason), before + 1);
    }
    assert_eq!(CLOSE_CODE, 1001);
}

#[test]
fn a_peer_is_given_up_after_the_heartbeat_timeout() {
    let mut state = AppState::new();
    let mut connection = Connection::open(&mut state, 0);
    let mut tick = |at: u128| {
        let action = connection.websocket_connection(&mut state, Event::Tick, at);
        matches!(action, Action::Heartbeat)
    };
    assert!(tick(15 * SECOND));
    assert!(tick(45 * SECOND - 1));
    assert!(!tick(45 * SECOND));
    let action = connection.websocket_connection(&mut state, Event::Pong, 44 * SECOND);
    assert!(matches!(action, Action::Continue));
    let action = connection.websocket_connection(&mut state, Event::Tick, 60 * SECOND);
    assert!(matches!(action, Action::Heartbeat));
}

#[test]
fn pings_are_answered_and_noise_is_ignored() {
    let mut state = AppState::new();
    let mut connection = Connection::open(&mut state, 0);
    let action =
        connection.websocket_connection(&mut state, Event::Ping(vec![1, 2, 3]), SECOND);
    assert!(matches!(action, Action::ControlPong(payload) if payload == vec![1, 2, 3]));
    assert_eq!(connection.last_seen, 1000);
    let action = connection.websocket_connection(
        &mut state,
        Event::Text(Some(ClientMessage::Ping)),
        2 * SECOND,
    );
    assert!(matches!(action, Action::QueuePong));
    for event in [Event::Binary, Event::Text(None), Event::Text(Some(ClientMessage::Pong))] {
        let action = connection.websocket_connection(&mut state, event, 3 * SECOND);
        assert!(matches!(action, Action::Continue));
    }
    assert_eq!(connection.last_seen, 3000);
    let action =
        connection.websocket_connection(&mut state, Event::Outgoing { present: true }, SECOND);
    assert!(matches!(action, Action::Forward));
    assert_eq!(connection.last_seen, 3000);
    assert_eq!(PING_TEXT, r#"{"type":"ping"}"#);
    assert_eq!(PONG_TEXT, r#"{"type":"pong"}"#);
}

#[test]
fn a_connection_without_a_worker_has_no_say() {
    let mut state = AppState::new();
    let mut connection = Connection::open(&mut state, 0);
    for message in [
        ClientMessage::Ready {
            uid: "u".to_owned(),
            worker: "w".to_owned(),
        },
        ClientMessage::Response {
            uid: "u".to_owned(),
            status: 200,
            body: "b".to_owned(),
        },
    ] {
        state.insert_response(
            "u".to_owned(),
            WorkerIdentity {
                instance: "i".to_owned(),
                name: "w".to_owned(),
                generation: 1,
            },
        );
        let action = connection.handle_client_text(&mut state, Some(message));
        assert!(matches!(action, Action::Continue));
        assert_eq!(state.debug_counts(), (0, 1));
    }
}

#[test]
fn connections_are_numbered() {
    let mut state = AppState::new();
    let first = Connection::open(&mut state, 0);
    let second = Connection::open(&mut state, 0);
    assert_ne!(first.link, second.link);
}

#[test]
fn registrations_are_logged_by_instance_and_name() {
    let identity = WorkerIdentity {
        instance: "demo".to_owned(),
        name: "one".to_owned(),
        generation: 4,
    };
    assert_eq!(identity_labels(Some(&identity)), ("demo", "one"));
    assert_eq!(identity_labels(None), ("", ""));
}

#[test]
fn statuses_run_from_100_to_999() {
    assert_eq!(checked_status(99), None);
    assert_eq!(checked_status(100), Some(100));
    assert_eq!(checked_status(999), Some(999));
    assert_eq!(checked_status(1000), None);
}

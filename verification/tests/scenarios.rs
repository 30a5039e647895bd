//! Whole scrapes, from the registration of workers to the reply, with the clock and the network
//! played by the test.

use prometheus_proxy_server::connection::{Action, Connection, Event};
use prometheus_proxy_server::limits::Limits;
use prometheus_proxy_server::metrics::{CloseReason, ScrapeOutcome};
use prometheus_proxy_server::protocol::{ClientMessage, FormResponse, ServerMessage};
use prometheus_proxy_server::routes::{
    build_router, health_handler, metrics_handler, response_handler, Endpoint, Method,
};
use prometheus_proxy_server::scrape::{
    call_resource_handler, scrape_reply, HttpReply, ReadyBroadcast, ReadyWait, RequestSend,
    ResponseWait, Step, WorkerWait,
};
use prometheus_proxy_server::state::{AppState, ProxyResponse, ReservedWorker};

const MILLI: u128 = 1_000_000;
const SECOND: u128 = 1_000 * MILLI;

fn for_tests(ready_timeout: u128, response_timeout: u128, max_in_flight: usize) -> AppState {
    AppState::with_limits(Limits {
        ready_timeout,
        response_timeout,
        max_in_flight,
        ..Limits::default()
    })
}

fn fast_limits() -> Limits {
    Limits {
        ready_timeout: SECOND,
        response_timeout: SECOND,
        ..Limits::default()
    }
}

/// Opens a connection and registers a worker on it; gives the evicted connection too.
fn connect(
    state: &mut AppState,
    instance: &str,
    worker: &str,
    version: u16,
    now: u128,
) -> (Connection, Option<u64>) {
    let mut connection = Connection::open(state, now);
    let action = connection.websocket_connection(
        state,
        Event::Text(Some(ClientMessage::Register {
            instance: instance.to_owned(),
            worker: worker.to_owned(),
            version,
        })),
        now,
    );
    match action {
        Action::Registered { evicted } => (connection, evicted),
        _ => panic!("the worker was not registered"),
    }
}

fn register(
    state: &mut AppState,
    instance: &str,
    worker: &str,
    version: u16,
    now: u128,
) -> Connection {
    connect(state, instance, worker, version, now).0
}

fn say(
    state: &mut AppState,
    connection: &mut Connection,
    message: ClientMessage,
    now: u128,
) -> Action {
    connection.websocket_connection(state, Event::Text(Some(message)), now)
}

fn ready_message(uid: &str, worker: &str) -> ClientMessage {
    ClientMessage::Ready {
        uid: uid.to_owned(),
        worker: worker.to_owned(),
    }
}

fn response_message(uid: &str, status: u16, body: &str) -> ClientMessage {
    ClientMessage::Response {
        uid: uid.to_owned(),
        status,
        body: body.to_owned(),
    }
}

fn get(state: &mut AppState, instance: &str, resource: &str, now: u128) -> Step {
    call_resource_handler(state, instance, resource.to_owned(), None, now, &Vec::new())
}

fn reply(state: &mut AppState, step: Step) -> HttpReply {
    match step {
        Step::Finished(result) => scrape_reply(state, result),
        _ => panic!("the scrape is not over"),
    }
}

fn broadcast(step: Step) -> ReadyBroadcast {
    match step {
        Step::SendReady(it) => it,
        _ => panic!("the workers are not asked whether they are ready"),
    }
}

fn ready_wait(step: Step) -> ReadyWait {
    match step {
        Step::AwaitReady(it) => it,
        _ => panic!("the scrape does not wait for a ready worker"),
    }
}

fn request(step: Step) -> RequestSend {
    match step {
        Step::SendRequest(it) => it,
        _ => panic!("the request is not sent"),
    }
}

fn response_wait(step: Step) -> ResponseWait {
    match step {
        Step::AwaitResponse(it) => it,
        _ => panic!("the scrape does not wait for a response"),
    }
}

fn worker_wait(step: Step) -> WorkerWait {
    match step {
        Step::AwaitWorker(it) => it,
        _ => panic!("the scrape does not wait for a worker"),
    }
}

/// Asks every candidate and waits for one of them.
fn ask(state: &mut AppState, step: Step, now: u128) -> ReadyWait {
    let it = broadcast(step);
    let delivered = vec![true; it.candidates.len()];
    ready_wait(it.sent(state, &delivered, now, &Vec::new()))
}

/// Sends the request and waits for the response.
fn send(state: &mut AppState, step: Step, now: u128) -> ResponseWait {
    response_wait(request(step).sent(state, true, now, &Vec::new()))
}

fn selected(action: Action) -> (String, ReservedWorker) {
    match action {
        Action::Selected { uid, worker } => (uid, worker),
        _ => panic!("no worker was selected"),
    }
}

fn responded(action: Action) -> (String, ProxyResponse) {
    match action {
        Action::Responded { uid, response } => (uid, response),
        _ => panic!("no scrape got a response"),
    }
}

#[test]
fn health_route_accepts_trailing_and_no_slash() {
    let routes = build_router("proxy");
    for uri in ["/proxy/health", "/proxy/health/"] {
        let route = routes.iter().find(|route| route.path == uri).unwrap();
        assert_eq!(route.endpoint, Endpoint::Health, "{uri}");
        assert_eq!(route.method, Method::Get, "{uri}");
    }
    assert_eq!(health_handler(), 200);

    let mut state = AppState::new();
    let posted = response_handler(
        &mut state,
        "unknown",
        FormResponse {
            status: 200,
            body: "ignored".to_owned(),
        },
    );
    assert_eq!(posted.status, 200);
    assert!(posted.delivered.is_none());
}

#[test]
fn protocol_v2_round_trip_uses_websocket_response() {
    let mut state = for_tests(SECOND, SECOND, 1024);
    let mut socket = register(&mut state, "demo", "worker-1", 2, 0);

    let step = get(&mut state, "demo", "node", 0);
    let asked = broadcast(step);
    assert!(matches!(asked.message(), ServerMessage::Ready { uid } if uid == asked.uid));
    assert_eq!(asked.candidates.len(), 1);
    assert_eq!(asked.candidates[0].link, socket.link);
    let waiting = ready_wait(asked.sent(&mut state, &vec![true], 0, &Vec::new()));
    let uid = waiting.uid.clone();
    let action = say(&mut state, &mut socket, ready_message(&uid, "worker-1"), 0);
    let (for_uid, worker) = selected(action);
    assert_eq!(for_uid, uid);
    let sending = request(waiting.selected(&mut state, worker));
    assert!(matches!(
        sending.message(),
        ServerMessage::Request { uid: sent, resource } if sent == uid && resource == "node"
    ));
    let waiting = response_wait(sending.sent(&mut state, true, 0, &Vec::new()));
    let action = say(
        &mut state,
        &mut socket,
        response_message(&uid, 201, "metric 42\n"),
        0,
    );
    let (for_uid, response) = responded(action);
    assert_eq!(for_uid, uid);

    let step = waiting.responded(&mut state, response);
    let response = reply(&mut state, step);
    assert_eq!(response.status, 201);
    assert_eq!(response.body, "metric 42\n");
    assert_eq!(state.metrics().scrapes(ScrapeOutcome::Proxied), 1);
    assert_eq!(state.metrics_snapshot().in_flight, 0);
}

#[test]
fn protocol_v3_round_trip_accepts_form_post_response() {
    let mut state = for_tests(SECOND, SECOND, 1024);
    let mut socket = register(&mut state, "demo", "worker-3", 3, 0);

    let step = get(&mut state, "demo", "node", 0);
    let waiting = ask(&mut state, step, 0);
    let uid = waiting.uid.clone();
    let action = say(&mut state, &mut socket, ready_message(&uid, "worker-3"), 0);
    let (_, worker) = selected(action);
    let step = waiting.selected(&mut state, worker);
    let waiting = send(&mut state, step, 0);

    let posted = response_handler(
        &mut state,
        &uid,
        FormResponse {
            status: 202,
            body: "from form".to_owned(),
        },
    );
    assert_eq!(posted.status, 200);
    let step = waiting.responded(&mut state, posted.delivered.unwrap());
    let response = reply(&mut state, step);
    assert_eq!(response.status, 202);
    assert_eq!(response.body, "from form");
}

#[test]
fn disconnected_worker_is_removed_without_removing_replacement_generation() {
    let mut state = for_tests(100 * MILLI, 100 * MILLI, 1024);
    let (old_socket, evicted) = connect(&mut state, "demo", "same", 1, 0);
    assert_eq!(evicted, None);
    let (mut new_socket, evicted) = connect(&mut state, "demo", "same", 1, 0);
    assert_eq!(evicted, Some(old_socket.link));
    // The registration that was replaced is not current any more.
    assert!(!old_socket.close(&mut state, CloseReason::ClientClose));

    let step = get(&mut state, "demo", "node", 0);
    let sending = request(step);
    assert_eq!(sending.worker.link, new_socket.link);
    let uid = sending.uid.clone();
    let waiting = response_wait(sending.sent(&mut state, true, 0, &Vec::new()));
    let action = say(
        &mut state,
        &mut new_socket,
        response_message(&uid, 200, "ok"),
        0,
    );
    let (_, response) = responded(action);
    let step = waiting.responded(&mut state, response);
    assert_eq!(reply(&mut state, step).status, 200);
    assert_eq!(state.debug_counts(), (1, 0));

    assert!(new_socket.close(&mut state, CloseReason::ClientClose));
    assert_eq!(state.debug_counts(), (0, 0));
    assert!(!state.instance_exists("demo"));
}

#[test]
fn busy_worker_returns_unavailable() {
    let mut state = for_tests(50 * MILLI, 5 * SECOND, 1024);
    let mut socket = register(&mut state, "demo", "one", 1, 0);

    let step = get(&mut state, "demo", "node", 0);
    let waiting = send(&mut state, step, 0);
    let second = get(&mut state, "demo", "node", 0);
    assert_eq!(reply(&mut state, second).status, 503);
    assert_eq!(state.metrics().scrapes(ScrapeOutcome::NoIdleWorker), 1);
    let uid = waiting.uid.clone();
    let action = say(&mut state, &mut socket, response_message(&uid, 200, "ok"), 0);
    let (_, response) = responded(action);
    let step = waiting.responded(&mut state, response);
    assert_eq!(reply(&mut state, step).status, 200);
    assert_eq!(state.debug_counts(), (1, 0));
}

#[test]
fn response_timeout_releases_worker() {
    let mut state = for_tests(50 * MILLI, SECOND, 1024);
    let mut socket = register(&mut state, "demo", "one", 1, 0);

    let step = get(&mut state, "demo", "node", 0);
    let waiting = send(&mut state, step, 0);
    assert_eq!(waiting.wait, SECOND);
    let step = waiting.timed_out(&mut state);
    let response = reply(&mut state, step);
    assert_eq!(response.status, 501);
    assert_eq!(response.body, "");
    assert_eq!(state.debug_counts(), (1, 0));

    let step = get(&mut state, "demo", "node", 0);
    let waiting = send(&mut state, step, 0);
    let uid = waiting.uid.clone();
    let action = say(&mut state, &mut socket, response_message(&uid, 200, "ok"), 0);
    let (_, response) = responded(action);
    let step = waiting.responded(&mut state, response);
    assert_eq!(reply(&mut state, step).status, 200);
    assert_eq!(state.debug_counts(), (1, 0));
}

#[test]
fn ready_timeout_returns_unavailable_and_cleans_pending_request() {
    let mut state = for_tests(30 * MILLI, SECOND, 1024);
    let _socket = register(&mut state, "demo", "two", 2, 0);

    let step = get(&mut state, "demo", "node", 0);
    let waiting = ask(&mut state, step, 0);
    assert_eq!(waiting.wait, 30 * MILLI);
    assert_eq!(state.debug_counts(), (1, 1));
    let step = waiting.timed_out(&mut state, None);
    assert_eq!(reply(&mut state, step).status, 503);
    assert_eq!(state.debug_counts(), (1, 0));
}

#[test]
fn ready_broadcast_selects_live_worker_without_waiting_for_stale_worker() {
    let mut state = for_tests(SECOND, SECOND, 1024);
    let stale = register(&mut state, "demo", "stale", 2, 0);
    let mut live = register(&mut state, "demo", "live", 2, 0);

    let step = get(&mut state, "demo", "node", 0);
    let asked = broadcast(step);
    let mut links: Vec<u64> = asked.candidates.iter().map(|it| it.link).collect();
    links.sort();
    assert_eq!(links, vec![stale.link, live.link]);
    let waiting = ready_wait(asked.sent(&mut state, &vec![true, true], 0, &Vec::new()));
    let uid = waiting.uid.clone();
    let action = say(&mut state, &mut live, ready_message(&uid, "live"), 0);
    let (_, worker) = selected(action);
    assert_eq!(worker.link, live.link);
    let step = waiting.selected(&mut state, worker);
    let waiting = send(&mut state, step, 0);
    let action = say(&mut state, &mut live, response_message(&uid, 200, "live"), 0);
    let (_, response) = responded(action);
    let step = waiting.responded(&mut state, response);
    let response = reply(&mut state, step);
    assert_eq!(response.status, 200);
    assert_eq!(response.body, "live");
    assert_eq!(state.debug_counts(), (2, 0));
}

#[test]
fn concurrent_requests_atomically_select_different_workers() {
    let mut state = for_tests(SECOND, SECOND, 1024);
    let mut first_worker = register(&mut state, "demo", "first", 3, 0);
    let mut second_worker = register(&mut state, "demo", "second", 3, 0);

    let step = get(&mut state, "demo", "node", 0);
    let first = ask(&mut state, step, 0);
    let step = get(&mut state, "demo", "metrics", 0);
    let second = ask(&mut state, step, 0);
    // Both requests were broadcast to both workers.
    for waiting in [&first, &second] {
        let mut links: Vec<u64> = waiting.candidates.iter().map(|it| it.link).collect();
        links.sort();
        assert_eq!(links, vec![first_worker.link, second_worker.link]);
    }
    assert_ne!(first.uid, second.uid);
    let (first_uid, second_uid) = (first.uid.clone(), second.uid.clone());

    let action = say(&mut state, &mut first_worker, ready_message(&first_uid, "first"), 0);
    let (_, one) = selected(action);
    assert_eq!(one.link, first_worker.link);
    // The first worker is taken: it cannot win the other request as well.
    let action = say(&mut state, &mut first_worker, ready_message(&second_uid, "first"), 0);
    assert!(matches!(action, Action::Continue));
    // The first request is taken: nobody else can win it.
    let action = say(&mut state, &mut second_worker, ready_message(&first_uid, "second"), 0);
    assert!(matches!(action, Action::Continue));
    let action = say(&mut state, &mut second_worker, ready_message(&second_uid, "second"), 0);
    let (_, two) = selected(action);
    assert_eq!(two.link, second_worker.link);

    let step = first.selected(&mut state, one);
    let first = send(&mut state, step, 0);
    let step = second.selected(&mut state, two);
    let second = send(&mut state, step, 0);
    let action = say(&mut state, &mut first_worker, response_message(&first_uid, 200, "one"), 0);
    let (_, response) = responded(action);
    let step = first.responded(&mut state, response);
    let response = reply(&mut state, step);
    assert_eq!(response.status, 200);
    assert_eq!(response.body, "one");
    let action = say(&mut state, &mut second_worker, response_message(&second_uid, 200, "two"), 0);
    let (_, response) = responded(action);
    let step = second.responded(&mut state, response);
    let response = reply(&mut state, step);
    assert_eq!(response.status, 200);
    assert_eq!(response.body, "two");
    assert_eq!(state.debug_counts(), (2, 0));
}

#[test]
fn global_capacity_rejects_work_even_when_another_worker_is_idle() {
    let mut state = for_tests(SECOND, SECOND, 1);
    let mut first_socket = register(&mut state, "first", "one", 1, 0);
    let _second_socket = register(&mut state, "second", "two", 1, 0);

    let step = get(&mut state, "first", "node", 0);
    let waiting = send(&mut state, step, 0);
    let overloaded = get(&mut state, "second", "node", 0);
    assert_eq!(reply(&mut state, overloaded).status, 503);
    assert_eq!(state.metrics().scrapes(ScrapeOutcome::Capacity), 1);
    let uid = waiting.uid.clone();
    let action = say(&mut state, &mut first_socket, response_message(&uid, 200, "done"), 0);
    let (_, response) = responded(action);
    let step = waiting.responded(&mut state, response);
    assert_eq!(reply(&mut state, step).status, 200);
}

#[test]
fn unknown_instance_stays_not_found_when_global_capacity_is_exhausted() {
    let mut state = for_tests(SECOND, SECOND, 1);
    let mut socket = register(&mut state, "known", "one", 1, 0);

    let step = get(&mut state, "known", "node", 0);
    let waiting = send(&mut state, step, 0);
    let missing = get(&mut state, "missing", "node", 0);
    let unknown = reply(&mut state, missing);
    assert_eq!(unknown.status, 404);
    assert_eq!(unknown.body, "no such client");
    let uid = waiting.uid.clone();
    let action = say(&mut state, &mut socket, response_message(&uid, 200, "done"), 0);
    let (_, response) = responded(action);
    let step = waiting.responded(&mut state, response);
    assert_eq!(reply(&mut state, step).status, 200);
    assert_eq!(state.debug_counts(), (1, 0));
}

#[test]
fn graceful_shutdown_closes_registered_websocket_promptly() {
    let mut state = AppState::new();
    let mut socket = register(&mut state, "demo", "shutdown", 3, 0);
    match socket.websocket_connection(&mut state, Event::Shutdown, 0) {
        Action::Close(closing) => {
            assert_eq!(closing.farewell, Some("server shutdown"));
            assert_eq!(closing.reason, CloseReason::Shutdown);
            socket.close(&mut state, closing.reason);
        }
        _ => panic!("the connection stays open"),
    }
    assert_eq!(state.debug_counts(), (0, 0));
    assert_eq!(state.metrics().closes(CloseReason::Shutdown), 1);
}

#[test]
fn replaced_connection_receives_close_frame_and_ends() {
    let mut state = AppState::with_limits(fast_limits());
    let (mut old_socket, _) = connect(&mut state, "demo", "same", 3, 0);
    let (_new_socket, evicted) = connect(&mut state, "demo", "same", 3, 0);
    assert_eq!(evicted, Some(old_socket.link));
    match old_socket.websocket_connection(&mut state, Event::Evicted, 0) {
        Action::Close(closing) => {
            assert_eq!(closing.farewell, Some("worker replaced"));
            old_socket.close(&mut state, closing.reason);
        }
        _ => panic!("the connection stays open"),
    }
    assert_eq!(state.metrics().closes(CloseReason::Replaced), 1);
    assert_eq!(state.debug_counts(), (1, 0));
}

#[test]
fn heartbeat_timeout_sends_close_frame() {
    let mut state = AppState::with_limits(Limits {
        heartbeat_interval: 100 * MILLI,
        heartbeat_timeout: 10 * MILLI,
        ..fast_limits()
    });
    let mut socket = register(&mut state, "demo", "silent", 3, 0);
    assert!(matches!(
        socket.websocket_connection(&mut state, Event::Tick, 9 * MILLI),
        Action::Heartbeat
    ));
    match socket.websocket_connection(&mut state, Event::Tick, 100 * MILLI) {
        Action::Close(closing) => {
            assert_eq!(closing.farewell, Some("heartbeat timeout"));
            socket.close(&mut state, closing.reason);
        }
        _ => panic!("the connection stays open"),
    }
    assert_eq!(state.debug_counts(), (0, 0));
    assert_eq!(state.metrics().closes(CloseReason::HeartbeatTimeout), 1);
}

#[test]
fn silent_worker_is_skipped_for_dispatch() {
    let mut state = AppState::with_limits(Limits {
        stale_after: 150 * MILLI,
        ..fast_limits()
    });
    let _quiet = register(&mut state, "demo", "quiet", 1, 0);
    let now = 300 * MILLI;
    let only_stale = get(&mut state, "demo", "node", now);
    assert_eq!(reply(&mut state, only_stale).status, 503);

    let mut fresh = register(&mut state, "demo", "fresh", 1, now);
    let step = get(&mut state, "demo", "node", now);
    let waiting = send(&mut state, step, now);
    let uid = waiting.uid.clone();
    let action = say(&mut state, &mut fresh, response_message(&uid, 200, "fresh"), now);
    let (_, response) = responded(action);
    let step = waiting.responded(&mut state, response);
    let response = reply(&mut state, step);
    assert_eq!(response.status, 200);
    assert_eq!(response.body, "fresh");
    assert_eq!(state.metrics().scrapes(ScrapeOutcome::NoIdleWorker), 1);
}

#[test]
fn scrape_timeout_header_bounds_the_ready_wait() {
    let mut state = AppState::with_limits(Limits {
        ready_timeout: 30 * SECOND,
        ..fast_limits()
    });
    let _socket = register(&mut state, "demo", "mute", 3, 0);

    let step = call_resource_handler(
        &mut state,
        "demo",
        "node".to_owned(),
        Some(SECOND),
        5 * SECOND,
        &Vec::new(),
    );
    let waiting = ask(&mut state, step, 5 * SECOND + 200 * MILLI);
    assert_eq!(waiting.wait, 800 * MILLI);
    let step = waiting.timed_out(&mut state, None);
    assert_eq!(reply(&mut state, step).status, 503);
    assert_eq!(state.metrics().scrapes(ScrapeOutcome::ReadyTimeout), 1);
    assert_eq!(state.debug_counts(), (1, 0));
}

#[test]
fn scrape_is_retried_on_another_worker_when_the_selected_one_disconnects() {
    let mut state = AppState::with_limits(fast_limits());
    let mut lost = register(&mut state, "demo", "lost", 3, 0);
    let mut survivor = register(&mut state, "demo", "survivor", 3, 0);

    let step = get(&mut state, "demo", "node", 0);
    let waiting = ask(&mut state, step, 0);
    let first_uid = waiting.uid.clone();
    let action = say(&mut state, &mut lost, ready_message(&first_uid, "lost"), 0);
    let (_, worker) = selected(action);
    let step = waiting.selected(&mut state, worker);
    let waiting = send(&mut state, step, 0);
    lost.close(&mut state, CloseReason::ClientClose);
    assert_eq!(state.debug_counts(), (1, 0));

    let step = waiting.dropped(&mut state, 0, &Vec::new());
    let asked = broadcast(step);
    assert_ne!(asked.uid, first_uid);
    assert_eq!(asked.scrape.attempt, 2);
    assert_eq!(asked.candidates.len(), 1);
    assert_eq!(asked.candidates[0].link, survivor.link);
    let waiting = ready_wait(asked.sent(&mut state, &vec![true], 0, &Vec::new()));
    let uid = waiting.uid.clone();
    let action = say(&mut state, &mut survivor, ready_message(&uid, "survivor"), 0);
    let (_, worker) = selected(action);
    let step = waiting.selected(&mut state, worker);
    let waiting = send(&mut state, step, 0);
    let action = say(&mut state, &mut survivor, response_message(&uid, 200, "retried"), 0);
    let (_, response) = responded(action);
    let step = waiting.responded(&mut state, response);
    let response = reply(&mut state, step);
    assert_eq!(response.status, 200);
    assert_eq!(response.body, "retried");
    assert_eq!(state.metrics().retries(), 1);
    assert_eq!(state.debug_counts(), (1, 0));
}

#[test]
fn scrape_waits_for_a_reconnecting_worker_after_losing_the_only_one() {
    let mut state = AppState::with_limits(fast_limits());
    let first = register(&mut state, "demo", "unknown", 1, 0);

    let step = get(&mut state, "demo", "node", 0);
    let waiting = send(&mut state, step, 0);
    first.close(&mut state, CloseReason::ClientClose);
    let waiting = worker_wait(waiting.dropped(&mut state, 0, &Vec::new()));
    // The deadline of two seconds is nearer than the longest wait.
    assert_eq!(waiting.wait(0), 2 * SECOND);
    let waiting = worker_wait(waiting.retry(&mut state, 100 * MILLI, &Vec::new()));
    assert_eq!(waiting.wait(100 * MILLI), 1_900 * MILLI);

    let now = 300 * MILLI;
    let mut second = register(&mut state, "demo", "unknown", 1, now);
    let step = waiting.retry(&mut state, now, &Vec::new());
    let waiting = send(&mut state, step, now);
    let uid = waiting.uid.clone();
    let action = say(&mut state, &mut second, response_message(&uid, 200, "again"), now);
    let (_, response) = responded(action);
    let step = waiting.responded(&mut state, response);
    let response = reply(&mut state, step);
    assert_eq!(response.status, 200);
    assert_eq!(response.body, "again");
    assert_eq!(state.metrics().retries(), 1);
}

#[test]
fn metrics_route_reports_workers_and_scrape_outcomes() {
    let mut state = AppState::with_limits(fast_limits());
    let _socket = register(&mut state, "demo", "worker", 3, 0);
    let missing = get(&mut state, "missing", "node", 0);
    assert_eq!(reply(&mut state, missing).status, 404);

    let text = metrics_handler(&state);
    for line in [
        "proxy_workers{version=\"3\"} 1",
        "proxy_worker_registrations_total{version=\"3\"} 1",
        "proxy_websocket_connections 1",
        "proxy_scrapes_total{result=\"unknown_instance\"} 1",
    ] {
        assert!(text.lines().any(|candidate| candidate == line), "{line}\n{text}");
    }
}

#[test]
fn a_scrape_makes_three_attempts_at_most() {
    let mut state = AppState::new();
    for name in ["one", "two", "three", "four"] {
        register(&mut state, "demo", name, 1, 0);
    }
    let step = get(&mut state, "demo", "node", 0);
    let step = request(step).sent(&mut state, false, 0, &Vec::new());
    let step = request(step).sent(&mut state, false, 0, &Vec::new());
    let third = request(step);
    assert_eq!(third.scrape.attempt, 3);
    let step = third.sent(&mut state, false, 0, &Vec::new());
    assert_eq!(reply(&mut state, step).status, 503);
    assert_eq!(state.metrics().scrapes(ScrapeOutcome::WorkerLost), 1);
    assert_eq!(state.metrics().retries(), 2);
    assert_eq!(state.debug_counts(), (4, 0));
    assert_eq!(state.metrics_snapshot().in_flight, 0);
}

#[test]
fn a_scrape_without_time_left_is_not_retried() {
    let mut state = AppState::new();
    register(&mut state, "demo", "one", 1, 0);
    register(&mut state, "demo", "two", 1, 0);
    let timeout = Some(10 * SECOND);
    let none = Vec::new();
    let step =
        call_resource_handler(&mut state, "demo", "node".to_owned(), timeout, 0, &none);
    // 499 milliseconds are left: too few for another attempt.
    let step = request(step).sent(&mut state, false, 9_501 * MILLI, &none);
    assert!(matches!(step, Step::Finished(Err(ScrapeOutcome::WorkerLost))));
    assert_eq!(state.metrics().retries(), 0);

    let step =
        call_resource_handler(&mut state, "demo", "node".to_owned(), timeout, 0, &none);
    let step = request(step).sent(&mut state, false, 9_500 * MILLI, &none);
    assert!(matches!(step, Step::SendRequest(_)));
    assert_eq!(state.metrics().retries(), 1);
}

#[test]
fn a_scrape_that_waits_in_vain_for_a_worker_is_lost() {
    let mut state = AppState::new();
    let only = register(&mut state, "demo", "one", 1, 0);
    let step = get(&mut state, "demo", "node", 0);
    let waiting = send(&mut state, step, 0);
    only.close(&mut state, CloseReason::Reset);
    let waiting = worker_wait(waiting.dropped(&mut state, 0, &Vec::new()));
    assert_eq!(waiting.wait(0), 3 * SECOND);
    // Looking again does not begin the wait anew, however late it is.
    let waiting = worker_wait(waiting.retry(&mut state, SECOND, &Vec::new()));
    assert_eq!(waiting.wait(SECOND), 2 * SECOND);
    let waiting = worker_wait(waiting.retry(&mut state, 900 * SECOND, &Vec::new()));
    assert_eq!(waiting.wait(900 * SECOND), 0);
    let step = waiting.expired(&mut state);
    assert_eq!(reply(&mut state, step).status, 503);
    assert_eq!(state.metrics().scrapes(ScrapeOutcome::WorkerLost), 1);
    assert_eq!(state.metrics_snapshot().in_flight, 0);
}

#[test]
fn candidates_that_cannot_be_asked_are_lost() {
    let mut state = AppState::new();
    register(&mut state, "demo", "one", 2, 0);
    let mut two = register(&mut state, "demo", "two", 2, 0);

    // One of them is reached: the other one cannot win the request any more.
    let step = get(&mut state, "demo", "node", 0);
    let asked = broadcast(step);
    let delivered: Vec<bool> = asked.candidates.iter().map(|it| it.link != two.link).collect();
    let waiting = ready_wait(asked.sent(&mut state, &delivered, 0, &Vec::new()));
    let action = say(&mut state, &mut two, ready_message(&waiting.uid, "two"), 0);
    assert!(matches!(action, Action::Continue));
    Step::AwaitReady(waiting).abandon(&mut state, None);
    assert_eq!(state.debug_counts(), (2, 0));

    // None of them is reached.
    let step = get(&mut state, "demo", "node", 0);
    let step = broadcast(step).sent(&mut state, &vec![false, false], 0, &Vec::new());
    let waiting = worker_wait(step);
    assert_eq!(waiting.scrape.excluded.len(), 2);
    Step::AwaitWorker(waiting).abandon(&mut state, None);
    assert_eq!(state.metrics_snapshot().in_flight, 0);
}

#[test]
fn candidates_that_all_disconnect_are_lost() {
    let mut state = AppState::new();
    let one = register(&mut state, "demo", "one", 2, 0);
    let step = get(&mut state, "demo", "node", 0);
    let waiting = ask(&mut state, step, 0);
    one.close(&mut state, CloseReason::Reset);
    // The request went with the last worker that could win it.
    assert_eq!(state.debug_counts(), (0, 0));
    let waiting = worker_wait(waiting.dropped(&mut state, 0, &Vec::new()));
    assert_eq!(waiting.scrape.attempt, 2);
}

#[test]
fn an_abandoned_scrape_frees_its_worker() {
    let mut state = AppState::new();
    register(&mut state, "demo", "one", 1, 0);
    let step = get(&mut state, "demo", "node", 0);
    let waiting = send(&mut state, step, 0);
    assert_eq!(state.debug_counts(), (1, 1));
    assert_eq!(state.metrics_snapshot().in_flight, 1);
    Step::AwaitResponse(waiting).abandon(&mut state, None);
    assert_eq!(state.debug_counts(), (1, 0));
    assert_eq!(state.metrics_snapshot().in_flight, 0);
    assert!(matches!(get(&mut state, "demo", "node", 0), Step::SendRequest(_)));
}

#[test]
fn a_worker_that_wins_too_late_is_given_back() {
    let mut state = AppState::new();
    let mut socket = register(&mut state, "demo", "one", 2, 0);
    for give_up in [false, true] {
        let step = get(&mut state, "demo", "node", 0);
        let waiting = ask(&mut state, step, 0);
        let action = say(&mut state, &mut socket, ready_message(&waiting.uid, "one"), 0);
        let (_, late) = selected(action);
        // The worker is busy until it is given back.
        let busy = get(&mut state, "demo", "node", 0);
        assert_eq!(reply(&mut state, busy).status, 503);
        if give_up {
            Step::AwaitReady(waiting).abandon(&mut state, Some(late));
        } else {
            let step = waiting.timed_out(&mut state, Some(late));
            assert!(matches!(step, Step::Finished(Err(ScrapeOutcome::ReadyTimeout))));
        }
        assert_eq!(state.debug_counts(), (1, 0));
        assert_eq!(state.metrics_snapshot().in_flight, 0);
    }
    assert!(matches!(get(&mut state, "demo", "node", 0), Step::SendReady(_)));
    assert!(!state.return_worker(None));
}

#[test]
fn a_response_is_accepted_once() {
    let mut state = AppState::new();
    let mut socket = register(&mut state, "demo", "one", 1, 0);
    let mut other = register(&mut state, "demo", "two", 3, 0);
    let step = get(&mut state, "demo", "node", 0);
    let waiting = ask(&mut state, step, 0);
    let uid = waiting.uid.clone();
    let action = say(&mut state, &mut other, ready_message(&uid, "two"), 0);
    let (_, worker) = selected(action);
    let step = waiting.selected(&mut state, worker);
    let _waiting = send(&mut state, step, 0);

    // A worker that was not asked cannot answer, nor is a status taken that is none.
    let action = say(&mut state, &mut socket, response_message(&uid, 200, "forged"), 0);
    assert!(matches!(action, Action::Continue));
    let action = say(&mut state, &mut other, response_message(&uid, 1000, "no status"), 0);
    assert!(matches!(action, Action::Continue));

    let form = |body: &str| FormResponse {
        status: 200,
        body: body.to_owned(),
    };
    let posted = response_handler(&mut state, &uid, form("first"));
    assert_eq!(posted.delivered.unwrap().body, "first");
    let posted = response_handler(&mut state, &uid, form("second"));
    assert_eq!(posted.status, 200);
    assert!(posted.delivered.is_none());
    let action = say(&mut state, &mut other, response_message(&uid, 200, "third"), 0);
    assert!(matches!(action, Action::Continue));
}

#[test]
fn a_posted_status_that_is_none_is_refused() {
    let mut state = AppState::new();
    register(&mut state, "demo", "one", 1, 0);
    let step = get(&mut state, "demo", "node", 0);
    let waiting = send(&mut state, step, 0);
    for (status, code) in [(99, 400), (1000, 400), (0, 400)] {
        let form = FormResponse {
            status,
            body: String::new(),
        };
        let posted = response_handler(&mut state, &waiting.uid, form);
        assert_eq!(posted.status, code);
        assert!(posted.delivered.is_none());
    }
    for status in [100, 999] {
        let form = FormResponse {
            status,
            body: "x".to_owned(),
        };
        let posted = response_handler(&mut state, &waiting.uid, form);
        assert_eq!(posted.status, 200);
        assert_eq!(posted.delivered.is_some(), status == 100);
    }
}

#[test]
fn closing_connections_are_not_selected() {
    let mut state = AppState::new();
    let one = register(&mut state, "demo", "one", 1, 0);
    let step = call_resource_handler(
        &mut state,
        "demo",
        "node".to_owned(),
        None,
        0,
        &vec![one.link],
    );
    assert_eq!(reply(&mut state, step).status, 503);
}

#[test]
fn workers_that_can_be_asked_come_before_the_others() {
    let mut state = AppState::new();
    register(&mut state, "demo", "old", 1, 0);
    let new = register(&mut state, "demo", "new", 2, 0);
    let step = get(&mut state, "demo", "node", 0);
    let asked = broadcast(step);
    assert_eq!(asked.candidates.len(), 1);
    assert_eq!(asked.candidates[0].link, new.link);
}

#[test]
fn an_anonymous_worker_is_named_at_random() {
    let mut state = AppState::new();
    for requested in ["", "unknown"] {
        let (identity, _) = state.register_worker(
            "demo".to_owned(),
            requested.to_owned(),
            1,
            0,
            0,
        );
        assert_eq!(identity.name.len(), 36);
        assert_eq!(identity.name.as_bytes()[14], b'4');
        assert_eq!(identity.name.matches('-').count(), 4);
    }
    let (identity, _) =
        state.register_worker("demo".to_owned(), "named".to_owned(), 1, 0, 0);
    assert_eq!(identity.name, "named");
    assert_eq!(identity.generation, 3);
    assert_eq!(state.debug_counts(), (3, 0));
}

#[test]
fn a_connection_registers_again() {
    let mut state = AppState::new();
    let (mut socket, _) = connect(&mut state, "demo", "one", 1, 0);
    let action = say(
        &mut state,
        &mut socket,
        ClientMessage::Register {
            instance: "other".to_owned(),
            worker: "two".to_owned(),
            version: 2,
        },
        0,
    );
    assert!(matches!(action, Action::Registered { evicted: None }));
    assert!(!state.instance_exists("demo"));
    assert!(state.instance_exists("other"));
    assert_eq!(state.debug_counts(), (1, 0));
}

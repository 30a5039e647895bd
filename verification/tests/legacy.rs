use prometheus_proxy_server::cache::{body_key, ready_key, status_key, CacheCommand};
use prometheus_proxy_server::handler::{
    asked_readiness, asked_worker, begin_call, call_resource_handler, health_handler,
    polled_status, polled_worker, read_body, tried_worker, Call, CallStep,
};
use prometheus_proxy_server::text::parse_u16;
use prometheus_proxy_server::ws::{
    client_connection, message_kind, message_of, text_kind, Effect, MessageKind, Parts, WSMessage,
};
use prometheus_proxy_server::outside::JsonMember;
use prometheus_proxy_server::ws_clients::{
    ask_readiness, ask_resource, ask_resource_from_worker, ask_worker_readiness, asking_order,
    get_client, parse_status, ping_client, ping_clients, remove_client, wait_for_response,
    wait_for_worker_available, Clients, Pinged, Poll, Sender,
};
use prometheus_proxy_server::ws_request::{
    default_version, default_worker_name, WSProxyCallResponse, WSProxyReadyResponse,
    WSRegisterRequest,
};
use std::collections::HashMap;

fn clients(workers: &[(&str, &str, u16, u64)]) -> Clients {
    let mut clients = Clients::new();
    for (instance, worker, version, link) in workers {
        clients.register((*instance).to_owned(), (*worker).to_owned(), *version, *link);
    }
    clients
}

/// Makes the changes on a cache in memory.
fn apply(cache: &mut HashMap<String, String>, effect: Effect) {
    let Effect::Store(commands) = effect else {
        panic!("nothing is stored");
    };
    for command in commands {
        match command {
            CacheCommand::Put { key, value } => {
                cache.insert(key, value);
            }
            CacheCommand::PutIfAbsent { key, value } => {
                cache.entry(key).or_insert(value);
            }
            CacheCommand::Expire { key, seconds } => {
                assert!(cache.contains_key(&key));
                assert_eq!(seconds, 60);
            }
        }
    }
}

#[test]
fn messages_are_told_by_their_type() {
    for (text, kind) in [
        (r#"{"type":"register","instance":"i"}"#, MessageKind::Register),
        (r#"{"type":"ping"}"#, MessageKind::Ping),
        (r#"{"type":"response"}"#, MessageKind::Response),
        (r#" { "uid" : 1 , "type" : "ready" } "#, MessageKind::Ready),
        (r#"{"type":"Ready"}"#, MessageKind::Unknown),
        (r#"{"kind":"ready"}"#, MessageKind::Untyped),
        (r#"["type"]"#, MessageKind::Untyped),
        (r#"{"type":7}"#, MessageKind::Broken),
        ("{", MessageKind::Broken),
        ("", MessageKind::Broken),
    ] {
        assert_eq!(text_kind(text), kind, "{text}");
    }
    assert_eq!(message_kind(&JsonMember::Text("ping".to_owned())), MessageKind::Ping);
    assert_eq!(message_kind(&JsonMember::Missing), MessageKind::Untyped);
    assert_eq!(message_kind(&JsonMember::NotText), MessageKind::Broken);
    assert_eq!(message_kind(&JsonMember::NotJson), MessageKind::Broken);
}

#[test]
fn a_text_is_read_in_the_form_of_its_kind() {
    let parts = |full: bool| Parts {
        register: None,
        response: None,
        ready: full.then_some(WSProxyReadyResponse {
            message_type: "ready".to_owned(),
            uid: "u".to_owned(),
            worker: "w".to_owned(),
        }),
    };
    assert!(matches!(
        message_of(MessageKind::Ready, parts(true)),
        WSMessage::Ready(Some(ready)) if ready.uid == "u"
    ));
    assert!(matches!(message_of(MessageKind::Ready, parts(false)), WSMessage::Ready(None)));
    let cases = [
        (MessageKind::Register, "register"),
        (MessageKind::Response, "response"),
        (MessageKind::Ping, "ping"),
        (MessageKind::Unknown, "other"),
        (MessageKind::Untyped, "other"),
    ];
    for (kind, name) in cases {
        let found = match message_of(kind, parts(true)) {
            WSMessage::Register(None) => "register",
            WSMessage::Response(None) => "response",
            WSMessage::Ping => "ping",
            WSMessage::Other => "other",
            _ => "none of these",
        };
        assert_eq!(found, name);
    }
}

fn registration(worker: &str) -> WSMessage {
    WSMessage::Register(Some(WSRegisterRequest {
        message_type: "register".to_owned(),
        instance: "demo".to_owned(),
        worker: worker.to_owned(),
        version: 2,
    }))
}

#[test]
fn a_worker_registers() {
    let mut clients = Clients::new();
    assert!(matches!(
        client_connection(&mut clients, 7, registration("one")),
        Effect::Continue
    ));
    let client = get_client("demo", &clients).unwrap();
    assert_eq!(client.instance_id, "demo");
    assert_eq!(client.version, 2);
    assert_eq!(client.sender_of("one"), Some(7));
    assert_eq!(client.sender_of("two"), None);
    // The same name again replaces the connection.
    client_connection(&mut clients, 8, registration("one"));
    let client = get_client("demo", &clients).unwrap();
    assert_eq!(client.senders.len(), 1);
    assert_eq!(client.sender_of("one"), Some(8));
    // A worker without a name gets a random one.
    client_connection(&mut clients, 9, registration("unknown"));
    let client = get_client("demo", &clients).unwrap();
    assert_eq!(client.senders.len(), 2);
    let random = client.senders.iter().find(|sender| sender.link == 9).unwrap();
    assert_eq!(random.worker.len(), 36);
    // An empty name is a name.
    client_connection(&mut clients, 10, registration(""));
    assert_eq!(get_client("demo", &clients).unwrap().sender_of(""), Some(10));
    assert!(get_client("other", &clients).is_none());
}

#[test]
fn a_stored_response_is_read_back() {
    let mut clients = Clients::new();
    let mut cache = HashMap::new();
    let message = WSMessage::Response(Some(WSProxyCallResponse {
        message_type: "response".to_owned(),
        uid: "u1".to_owned(),
        body: "metric 42\n".to_owned(),
        status: 201,
    }));
    apply(&mut cache, client_connection(&mut clients, 7, message));
    assert_eq!(cache.len(), 2);
    assert_eq!(cache["response_u1_status"], "201");
    assert_eq!(cache["response_u1_body"], "metric 42\n");

    let found = cache.get(&status_key("u1")).cloned();
    let CallStep::ReadBody { uid, status } = polled_status("u1".to_owned(), 0, found) else {
        panic!("the status was not found");
    };
    let body = cache.get(&body_key(&uid)).cloned();
    let CallStep::Finished(Some(reply)) = read_body(&status, body) else {
        panic!("the response was not found");
    };
    assert_eq!(reply.status, 201);
    assert_eq!(reply.body, "metric 42\n");
    assert!(matches!(read_body(&status, None), CallStep::Finished(None)));
}

#[test]
fn the_first_ready_worker_is_kept() {
    let mut clients = Clients::new();
    let mut cache = HashMap::new();
    for worker in ["one", "two"] {
        let message = WSMessage::Ready(Some(WSProxyReadyResponse {
            message_type: "ready".to_owned(),
            uid: "u1".to_owned(),
            worker: worker.to_owned(),
        }));
        apply(&mut cache, client_connection(&mut clients, 7, message));
    }
    assert_eq!(cache.get(&ready_key("u1")).unwrap(), "one");
    assert_eq!(ready_key("u1"), "response_u1_ready");
}

#[test]
fn incomplete_messages_end_the_connection() {
    let mut clients = Clients::new();
    for message in [
        WSMessage::Register(None),
        WSMessage::Response(None),
        WSMessage::Ready(None),
        WSMessage::Failed,
    ] {
        assert!(matches!(client_connection(&mut clients, 7, message), Effect::Break));
    }
    for message in [WSMessage::Ping, WSMessage::Other, WSMessage::Control] {
        assert!(matches!(client_connection(&mut clients, 7, message), Effect::Continue));
    }
}

#[test]
fn workers_that_a_ping_misses_are_removed() {
    let mut clients = clients(&[("a", "one", 2, 1), ("a", "two", 2, 2), ("b", "three", 1, 3)]);
    let mut dead = Vec::new();
    let mut pinged = Vec::new();
    for client in clients.snapshot() {
        let sent: Vec<bool> = client.senders.iter().map(|sender| sender.link != 2).collect();
        dead.extend(ping_client(&client.instance_id, &client, &sent));
        pinged.push(Pinged { client, sent });
    }
    assert_eq!(dead, vec![("a".to_owned(), "two".to_owned())]);
    ping_clients(&mut clients, &pinged);
    assert_eq!(get_client("a", &clients).unwrap().senders.len(), 1);
    assert_eq!(get_client("a", &clients).unwrap().sender_of("one"), Some(1));
    // An instance without workers stays.
    remove_client(&mut clients, "b", "three");
    remove_client(&mut clients, "b", "missing");
    assert_eq!(get_client("b", &clients).unwrap().senders.len(), 0);
    assert_eq!(clients.snapshot().len(), 2);
}

#[test]
fn every_worker_is_asked_once_in_some_order() {
    let clients = clients(&[("a", "one", 1, 1), ("a", "two", 1, 2), ("a", "three", 1, 3)]);
    let client = get_client("a", &clients).unwrap();
    let mut orders = std::collections::HashSet::new();
    for _ in 0..200 {
        let order: Vec<u64> = asking_order(&client).iter().map(|sender| sender.link).collect();
        let mut links = order.clone();
        links.sort();
        assert_eq!(links, vec![1, 2, 3]);
        orders.insert(order);
    }
    assert!(orders.len() > 1);
}

fn call(clients: &Clients, instance: &str, uid: &str) -> Call {
    Call {
        instance_id: instance.to_owned(),
        resource: "node".to_owned(),
        uid: uid.to_owned(),
        client: get_client(instance, clients).unwrap(),
    }
}

#[test]
fn a_call_of_version_2_asks_who_is_ready() {
    let mut clients = clients(&[("a", "one", 2, 1), ("a", "two", 2, 2)]);
    let step = call_resource_handler(&clients, "a".to_owned(), "node".to_owned());
    let CallStep::AskReadiness { call, senders } = step else {
        panic!("nobody is asked");
    };
    assert_eq!(call.uid.len(), 36);
    assert_eq!(senders.len(), 2);
    let sent: Vec<bool> = senders.iter().map(|sender| sender.link == 2).collect();
    let CallStep::PollWorker { call, polls } = asked_readiness(&mut clients, call, &senders, &sent)
    else {
        panic!("the cache is not asked");
    };
    assert_eq!(polls, 0);
    assert_eq!(get_client("a", &clients).unwrap().sender_of("one"), None);
    let CallStep::PollWorker { call, polls } = polled_worker(call, polls, None) else {
        panic!("the cache is not asked again");
    };
    assert_eq!(polls, 1);
    let CallStep::AskWorker { call, link } = polled_worker(call, polls, Some("two".to_owned()))
    else {
        panic!("the worker is not asked");
    };
    assert_eq!(link, 2);
    assert!(matches!(asked_worker(call, true), CallStep::PollResponse { polls: 0, .. }));
}

#[test]
fn workers_that_cannot_be_asked_are_removed() {
    let mut clients = clients(&[("a", "one", 2, 1), ("a", "two", 2, 2)]);
    let senders = get_client("a", &clients).unwrap().senders;
    assert!(!ask_readiness("b", &mut clients, &senders, &vec![false, false]));
    assert_eq!(get_client("a", &clients).unwrap().senders.len(), 2);
    // A worker that nothing is said of was not reached.
    assert!(ask_readiness("a", &mut clients, &senders, &vec![true]));
    let left = get_client("a", &clients).unwrap().senders;
    assert_eq!(left.len(), 1);
    assert_eq!(left[0].worker, senders[0].worker);
}

#[test]
fn a_call_gives_up_in_the_end() {
    let clients = clients(&[("a", "one", 2, 1)]);
    let step = polled_worker(call(&clients, "a", "u"), 299, None);
    assert!(matches!(step, CallStep::Finished(None)));
    let step = polled_worker(call(&clients, "a", "u"), 298, None);
    assert!(matches!(step, CallStep::PollWorker { polls: 299, .. }));
    assert!(matches!(asked_worker(call(&clients, "a", "u"), false), CallStep::Finished(None)));
    assert!(matches!(polled_status("u".to_owned(), 199, None), CallStep::Finished(None)));
    assert!(matches!(
        polled_status("u".to_owned(), 198, None),
        CallStep::PollResponse { polls: 199, .. }
    ));
    assert!(matches!(wait_for_worker_available(299, None), Poll::GaveUp));
    assert!(matches!(wait_for_response(0, None), Poll::Again(1)));
    let missing = call_resource_handler(&clients, "b".to_owned(), "node".to_owned());
    assert!(matches!(missing, CallStep::Finished(None)));
}

#[test]
fn a_call_of_version_1_tries_one_worker_after_the_other() {
    let clients = clients(&[("a", "one", 1, 1), ("a", "two", 1, 2)]);
    let order = |links: &[u64]| -> Vec<Sender> {
        links
            .iter()
            .map(|link| Sender {
                worker: format!("w{link}"),
                link: *link,
            })
            .collect()
    };
    let step = begin_call(call(&clients, "a", "u"), order(&[2, 1]));
    let CallStep::TryWorker { call: first, senders, next, link } = step else {
        panic!("nobody is tried");
    };
    assert_eq!(link, 2);
    let CallStep::TryWorker { call: second, senders, next, link } =
        tried_worker(first, senders, next, false)
    else {
        panic!("nobody else is tried");
    };
    assert_eq!(link, 1);
    assert_eq!(ask_resource(&senders, 0), Some(2));
    assert_eq!(ask_resource(&senders, 2), None);
    // Whether or not the last one was reached, the call waits for a response.
    assert!(matches!(
        tried_worker(second, senders, next, false),
        CallStep::PollResponse { polls: 0, .. }
    ));
    let step = begin_call(call(&clients, "a", "u"), order(&[1]));
    let CallStep::TryWorker { call: only, senders, next, .. } = step else {
        panic!("nobody is tried");
    };
    assert!(matches!(tried_worker(only, senders, next, true), CallStep::PollResponse { .. }));
    assert!(matches!(
        begin_call(call(&clients, "a", "u"), Vec::new()),
        CallStep::PollResponse { polls: 0, .. }
    ));
}

#[test]
fn numbers_are_read_as_written() {
    for n in [0u16, 7, 10, 99, 200, 999, 65535] {
        assert_eq!(parse_u16(&n.to_string()), Some(n));
        assert_eq!(parse_u16(&format!("+{n}")), Some(n));
        assert_eq!(parse_u16(&format!("000{n}")), Some(n));
    }
    for text in ["", "+", "-1", "65536", "99999999999999999999", " 7", "7 ", "7a", "++7", "٣"] {
        assert_eq!(parse_u16(text), None, "{text}");
        assert_eq!(text.parse::<u16>().ok(), None, "{text}");
    }
    assert_eq!(parse_status("200"), Some(200));
    assert_eq!(parse_status("99"), None);
    assert_eq!(parse_status("1000"), None);
    assert_eq!(parse_status("ok"), None);
}

#[test]
fn workers_are_asked_in_their_words() {
    let message = ask_resource_from_worker("node".to_owned(), "u".to_owned());
    assert_eq!(message.message_type, "request");
    assert_eq!(message.uid, "u");
    assert_eq!(message.resource, "node");
    let message = ask_worker_readiness("u".to_owned());
    assert_eq!(message.message_type, "ready");
    assert_eq!(message.uid, "u");
    assert_eq!(default_worker_name(), "unknown");
    assert_eq!(default_version(), 1);
    assert_eq!(health_handler(), 200);
}

//! What the server does for workers of protocol versions 1 and 2, said from the message or the
//! answer that comes in to what is done about it.

use crate::cache::{
    body_key_of, ready_commands, ready_key_of, response_commands, status_key_of, CommandView,
};
use crate::handler::{
    begun, body_read, orders, readiness_asked, status_polled, worker_asked, worker_polled,
    worker_tried, CallStepView, CallView,
};
use crate::notation::a_written_number_is_read_back;
use crate::outside::{is_random_uuid, JsonMemberView};
use crate::text::decimal;
use crate::ws::{
    clients_after, kind_of, may_register_as, message_effect, message_in, EffectView, MessageKind,
    Parts, WSMessage,
};
use crate::ws_clients::{
    missed, polled, senders_view, with_worker, without_worker, Client, ClientView, ClientsView,
    PollView, RESPONSE_POLLS, RESPONSE_POLL_MILLIS, WORKER_POLLS, WORKER_POLL_MILLIS,
};
use crate::ws_request::{WSProxyCallResponse, WSProxyReadyResponse, WSRegisterRequest};
use vstd::prelude::*;

verus! {

/// What belongs to a request is kept under names that begin alike, hold the identifier of the
/// request and end in what is kept.
pub proof fn what_is_kept_is_named_after_the_request(uid: Seq<char>)
    ensures
        ready_key_of(uid) == "response_"@ + uid + "_ready"@,
        status_key_of(uid) == "response_"@ + uid + "_status"@,
        body_key_of(uid) == "response_"@ + uid + "_body"@,
{
}

/// A worker that is ready is noted unless another was, and a response is kept as it is, its status
/// in decimal notation; the body is there before the status, by which the response is found.
/// Nothing else is put into the cache, and whatever is put expires after a minute.
pub proof fn what_is_handed_in_is_kept_for_a_minute(
    uid: Seq<char>,
    worker: Seq<char>,
    status: u16,
    body: Seq<char>,
    i: int,
)
    ensures
        ({
            let response = response_commands(uid, status, body);
            let ready = ready_commands(uid, worker);
            &&& response.len() == 4
            &&& ready.len() == 2
            &&& 0 <= i < 2 ==> match response[2 * i] {
                CommandView::Put { key, value } => {
                    &&& i == 0 ==> key == body_key_of(uid) && value == body
                    &&& i == 1 ==> key == status_key_of(uid) && value == decimal(status as nat)
                    &&& response[2 * i + 1] == (CommandView::Expire { key, seconds: 60 })
                },
                _ => false,
            }
            &&& ready[0] == (CommandView::PutIfAbsent { key: ready_key_of(uid), value: worker })
            &&& ready[1] == (CommandView::Expire { key: ready_key_of(uid), seconds: 60 })
        }),
{
}

/// A worker that registers is taken up under the name that it gives, or under a random one where
/// it says that its name is unknown, in place of one of the same name. It is reached by the
/// connection, and its instance takes over its version; no other worker and no other instance
/// changes. A registration that lacks something ends the connection and changes nothing.
pub proof fn a_register_message_registers(
    clients: ClientsView,
    link: u64,
    parts: Parts,
    request: WSRegisterRequest,
    after: ClientsView,
    other: Seq<char>,
    colleague: Seq<char>,
)
    requires
        clients_after(
            clients,
            link,
            message_in(kind_of(JsonMemberView::Text("register"@)), parts),
            after,
        ),
    ensures
        parts.register is None ==> {
            &&& message_effect(message_in(kind_of(JsonMemberView::Text("register"@)), parts))
                is Break
            &&& after == clients
        },
        parts.register == Some(request) ==> {
            let instance = request.instance@;
            &&& message_effect(message_in(kind_of(JsonMemberView::Text("register"@)), parts))
                is Continue
            &&& after.contains_key(instance)
            &&& after[instance].version == request.version
            &&& exists|name: Seq<char>|
                #![trigger after[instance].senders.contains_key(name)]
                {
                    &&& after[instance].senders.contains_key(name)
                    &&& after[instance].senders[name] == link
                    &&& if request.worker@ == "unknown"@ {
                        is_random_uuid(name)
                    } else {
                        name == request.worker@
                    }
                    &&& colleague != name && clients.contains_key(instance) ==> {
                        &&& after[instance].senders.contains_key(colleague)
                            == clients[instance].senders.contains_key(colleague)
                        &&& after[instance].senders[colleague]
                            == clients[instance].senders[colleague]
                    }
                    &&& colleague != name && !clients.contains_key(instance)
                        ==> !after[instance].senders.contains_key(colleague)
                }
            &&& other != instance ==> after.contains_key(other) == clients.contains_key(other)
                && after[other] == clients[other]
        },
{
    if parts.register == Some(request) {
        let name = choose|name: Seq<char>| #[trigger]
            may_register_as(request.worker@, name) && after == with_worker(
                clients,
                request.instance@,
                name,
                request.version,
                link,
            );
        assert(after[request.instance@].senders.contains_key(name));
    }
}

/// A response and a sign of readiness are handed in as they are, and one that lacks something ends
/// the connection. A ping, a message of another type or of none, and a control frame are passed
/// over. A text that is no JSON, or whose type is no text, and a failure to receive end the
/// connection. None of them changes the clients.
pub proof fn every_other_message_leaves_the_clients(
    clients: ClientsView,
    link: u64,
    parts: Parts,
    response: WSProxyCallResponse,
    ready: WSProxyReadyResponse,
    message_type: JsonMemberView,
    after: ClientsView,
)
    requires
        clients_after(clients, link, message_in(kind_of(message_type), parts), after),
        message_type != JsonMemberView::Text("register"@),
    ensures
        after == clients,
        ({
            let effect = message_effect(message_in(kind_of(message_type), parts));
            match message_type {
                JsonMemberView::Text(name) => {
                    &&& name == "response"@ && parts.response == Some(response) ==> effect
                        == EffectView::Store(
                        response_commands(response.uid@, response.status, response.body@),
                    )
                    &&& name == "response"@ && parts.response is None ==> effect is Break
                    &&& name == "ready"@ && parts.ready == Some(ready) ==> effect
                        == EffectView::Store(ready_commands(ready.uid@, ready.worker@))
                    &&& name == "ready"@ && parts.ready is None ==> effect is Break
                    &&& name != "response"@ && name != "ready"@ ==> effect is Continue
                },
                JsonMemberView::Missing => effect is Continue,
                JsonMemberView::NotText => effect is Break,
                JsonMemberView::NotJson => effect is Break,
            }
        }),
        message_effect(WSMessage::Control) is Continue,
        message_effect(WSMessage::Failed) is Break,
{
    reveal_strlit("register");
    reveal_strlit("ping");
    reveal_strlit("response");
    reveal_strlit("ready");
    assert("register"@.len() == 8);
    assert("ping"@.len() == 4);
    assert("response"@.len() == 8);
    assert("ready"@.len() == 5);
    assert("register"@[2] != "response"@[2]);
}

/// A message is read as what its type says, and a type is known by its name alone.
pub proof fn a_message_is_read_by_its_type(parts: Parts)
    ensures
        message_in(kind_of(JsonMemberView::Text("register"@)), parts) == WSMessage::Register(
            parts.register,
        ),
        message_in(kind_of(JsonMemberView::Text("ping"@)), parts) == WSMessage::Ping,
        message_in(kind_of(JsonMemberView::Text("response"@)), parts) == WSMessage::Response(
            parts.response,
        ),
        message_in(kind_of(JsonMemberView::Text("ready"@)), parts) == WSMessage::Ready(
            parts.ready,
        ),
        kind_of(JsonMemberView::Missing) == MessageKind::Untyped,
        message_in(MessageKind::Untyped, parts) == WSMessage::Other,
        message_in(MessageKind::Unknown, parts) == WSMessage::Other,
{
    reveal_strlit("register");
    reveal_strlit("ping");
    reveal_strlit("response");
    reveal_strlit("ready");
    assert("register"@.len() == 8);
    assert("ping"@.len() == 4);
    assert("response"@.len() == 8);
    assert("ready"@.len() == 5);
    assert("register"@[2] != "response"@[2]);
}

/// A worker that is removed is gone; its instance stays, with its version and its other workers,
/// and so do the other instances.
pub proof fn a_removed_worker_is_gone(
    clients: ClientsView,
    instance: Seq<char>,
    worker: Seq<char>,
    other: Seq<char>,
)
    requires
        clients.contains_key(instance),
    ensures
        ({
            let after = without_worker(clients, instance, worker);
            &&& after.dom() == clients.dom()
            &&& other != instance ==> after[other] == clients[other]
            &&& after[instance] == (ClientView {
                senders: clients[instance].senders.remove(worker),
                ..clients[instance]
            })
        }),
{
    assert(without_worker(clients, instance, worker).dom() =~= clients.dom());
}

/// The list of those that a message missed grows, worker by worker in their order, by exactly those
/// to whom it was not sent.
pub proof fn whoever_was_not_sent_to_was_missed(
    senders: Seq<(Seq<char>, u64)>,
    sent: Seq<bool>,
    n: int,
)
    requires
        0 <= n < senders.len(),
    ensures
        missed(senders, sent, 0).len() == 0,
        missed(senders, sent, n + 1) == (if n < sent.len() && sent[n] {
            missed(senders, sent, n)
        } else {
            missed(senders, sent, n).push(senders[n].0)
        }),
{
}

/// The cache is asked for a ready worker for half a minute, and for a response for half a minute:
/// every tenth of a second, and every 150 milliseconds.
pub proof fn the_cache_is_asked_for_half_a_minute()
    ensures
        WORKER_POLLS * WORKER_POLL_MILLIS == 30_000,
        WORKER_POLL_MILLIS == 100,
        RESPONSE_POLLS * RESPONSE_POLL_MILLIS == 30_000,
        RESPONSE_POLL_MILLIS == 150,
{
}

/// What the cache gives is taken at once. As long as it gives nothing it is asked again, and the
/// last of the allowed times is the last.
pub proof fn asking_the_cache_ends(limit: u32, polls: u32, found: Option<String>)
    requires
        polls < limit,
    ensures
        found matches Some(text) ==> polled(limit, polls, found) == PollView::Found(text@),
        found is None && polls + 1 < limit ==> polled(limit, polls, found) == PollView::Again(
            (polls + 1) as u32,
        ),
        found is None && polls + 1 == limit ==> polled(limit, polls, found) is GaveUp,
{
}

/// The order in which the workers of a client are asked holds each of them, as often as the client
/// does, and nobody else.
pub proof fn every_worker_is_asked_in_turn(
    client: Client,
    order: Seq<(Seq<char>, u64)>,
    worker: (Seq<char>, u64),
)
    requires
        orders(client, order),
    ensures
        order.len() == client.senders@.len(),
        (exists|i: int| 0 <= i < order.len() && #[trigger] order[i] == worker) <==> exists|j: int|
            0 <= j < client.senders@.len() && #[trigger] client.senders@[j]@ == worker,
{
    broadcast use vstd::seq_lib::group_to_multiset_ensures;

    let listed = senders_view(client.senders@);
    assert(order.to_multiset().len() == order.len());
    assert(listed.to_multiset().len() == listed.len());
    assert(order.contains(worker) == (order.to_multiset().count(worker) > 0));
    assert(listed.contains(worker) == (listed.to_multiset().count(worker) > 0));
    if exists|j: int| 0 <= j < client.senders@.len() && #[trigger] client.senders@[j]@ == worker {
        let j = choose|j: int|
            0 <= j < client.senders@.len() && #[trigger] client.senders@[j]@ == worker;
        assert(listed[j] == worker);
    }
    if order.contains(worker) {
        let j = choose|j: int| 0 <= j < listed.len() && listed[j] == worker;
        assert(client.senders@[j]@ == worker);
    }
}

/// A call of a client of version 2 or newer asks all its workers whether they are ready; one of an
/// older client goes to the workers in turn, and where all were tried it waits for a response all
/// the same.
pub proof fn a_call_begins_by_the_version_of_its_client(
    call: CallView,
    order: Seq<(Seq<char>, u64)>,
    next: int,
    sent: bool,
)
    requires
        0 <= next < order.len(),
    ensures
        call.client.version >= 2 ==> begun(call, order) == (CallStepView::AskReadiness {
            call,
            senders: order,
        }),
        call.client.version < 2 ==> begun(call, order) == (CallStepView::TryWorker {
            call,
            senders: order,
            next: 0,
            link: order[0].1,
        }),
        worker_tried(call, order, next, true) == (CallStepView::PollResponse {
            uid: call.uid,
            polls: 0,
        }),
        worker_tried(call, order, next, false) == (if next + 1 < order.len() {
            CallStepView::TryWorker {
                call,
                senders: order,
                next: next + 1,
                link: order[next + 1].1,
            }
        } else {
            CallStepView::PollResponse { uid: call.uid, polls: 0 }
        }),
        call.client.version < 2 ==> begun(call, Seq::empty()) == (CallStepView::PollResponse {
            uid: call.uid,
            polls: 0,
        }),
{
}

/// The worker that the cache names as ready is asked for the resource over its own connection.
/// While none is named the cache is asked up to 300 times, and then the call is over without an
/// answer. A worker that cannot be asked ends the call, and one that was asked is waited for.
pub proof fn a_ready_worker_is_asked(
    call: CallView,
    polls: u32,
    found: Option<String>,
    sent: bool,
)
    requires
        polls < 300,
    ensures
        readiness_asked(call) == (CallStepView::PollWorker { call, polls: 0 }),
        found matches Some(worker) ==> worker_polled(call, polls, found) == (
        CallStepView::AskWorker { call, link: call.client.senders[worker@] }),
        found is None ==> worker_polled(call, polls, found) == (if polls < 299 {
            CallStepView::PollWorker { call, polls: (polls + 1) as u32 }
        } else {
            CallStepView::Finished(None)
        }),
        worker_asked(call, sent) == (if sent {
            CallStepView::PollResponse { uid: call.uid, polls: 0 }
        } else {
            CallStepView::Finished(None)
        }),
{
}

/// Once the cache gives a status, the body is read, and both are what Prometheus is answered. While
/// there is no status the cache is asked up to 200 times; without a status, or without a body, the
/// call is over without an answer.
pub proof fn a_kept_response_is_the_answer(
    uid: Seq<char>,
    polls: u32,
    found: Option<String>,
    status: u16,
    body: Option<String>,
)
    requires
        polls < 200,
        100 <= status <= 999,
    ensures
        found matches Some(text) ==> status_polled(uid, polls, found) == (CallStepView::ReadBody {
            uid,
            status: text@,
        }),
        found is None ==> status_polled(uid, polls, found) == (if polls < 199 {
            CallStepView::PollResponse { uid, polls: (polls + 1) as u32 }
        } else {
            CallStepView::Finished(None)
        }),
        body_read(decimal(status as nat), body) == CallStepView::Finished(
            match body {
                Some(text) => Some((status, text@)),
                None => None,
            },
        ),
{
    a_written_number_is_read_back(status);
}

} // verus!

//! What happens on a connection and what the server does about it, said event by event. The clock
//! is read in whole milliseconds, as far as they can be counted.

use crate::connection::{
    error_class, is_reset, newly_opened, reaction, text_reaction, Action, ActionView, Closing,
    Connection, ConnectionView, Event, Reaction,
};
use crate::metrics::CloseReason;
use crate::model::{PendingView, StateView, WorkerKey, WorkerView};
use crate::outside::is_random_uuid;
use crate::protocol::ClientMessage;
use crate::routes::{posted, route_table, Endpoint, Method, PostedView};
use crate::scrape::ResponseView;
use crate::text::{lowered, occurs, without_slashes};
use vstd::prelude::*;

verus! {

/// A connection that is opened has the number that the server gives next, has registered nothing,
/// and was heard of when it was opened.
pub proof fn a_connection_opens_without_a_worker(state: StateView, now: u128, clock: u64)
    requires
        clock * 1_000_000 <= now,
        clock < u64::MAX ==> now < (clock + 1) * 1_000_000,
    ensures
        newly_opened(state, now).link == state.next_link,
        newly_opened(state, now).identity is None,
        newly_opened(state, now).last_seen == clock,
{
}

/// What ends a connection without a frame of the peer changes nothing by itself: it says for which
/// reason the connection is closed and what the peer is told. A peer that cannot be sent to, or is
/// gone, is told nothing.
pub proof fn each_end_of_a_connection_has_its_reason(
    state: StateView,
    connection: ConnectionView,
    event: Event,
    now: u128,
    after: Reaction,
)
    requires
        reaction(state, connection, event, now, after),
        event is Shutdown || event is Evicted || event is SendFailed || event is End
            || event is Error || event is Outgoing,
    ensures
        after.state == state,
        after.connection == connection,
        event is Shutdown ==> after.action == (ActionView::Close {
            reason: CloseReason::Shutdown,
            farewell: Some("server shutdown"@),
            flush: false,
        }),
        event is Evicted ==> after.action == (ActionView::Close {
            reason: CloseReason::Replaced,
            farewell: Some("worker replaced"@),
            flush: false,
        }),
        event is SendFailed ==> after.action == (ActionView::Close {
            reason: CloseReason::SendFailed,
            farewell: None,
            flush: false,
        }),
        event is End ==> after.action == (ActionView::Close {
            reason: CloseReason::Reset,
            farewell: None,
            flush: false,
        }),
        event matches Event::Error(text) ==> after.action == (ActionView::Close {
            reason: error_class(text@),
            farewell: None,
            flush: false,
        }),
        event matches Event::Outgoing { present } ==> after.action == (if present {
            ActionView::Forward
        } else {
            ActionView::Close { reason: CloseReason::SendFailed, farewell: None, flush: false }
        }),
{
}

/// Every frame makes its connection as recent as the frame, and so the workers of the connection,
/// before anything else is done about it. A close frame is answered and counted as the peer's own
/// doing; a control ping is answered with its own payload; a pong and binary data are taken as
/// signs of life. None of these changes anything else.
pub proof fn every_frame_is_a_sign_of_life(
    state: StateView,
    connection: ConnectionView,
    event: Event,
    now: u128,
    clock: u64,
    after: Reaction,
    key: WorkerKey,
)
    requires
        reaction(state, connection, event, now, after),
        event is Ping || event is Pong || event is Binary || event is Close,
        clock * 1_000_000 <= now,
        clock < u64::MAX ==> now < (clock + 1) * 1_000_000,
    ensures
        after.connection == (ConnectionView {
            last_seen: clock,
            ..connection
        }),
        after.state == (StateView { workers: after.state.workers, ..state }),
        after.state.workers.contains_key(key) == state.workers.contains_key(key),
        state.workers.contains_key(key) ==> after.state.workers[key] == (WorkerView {
            last_seen: if state.workers[key].link == connection.link {
                clock
            } else {
                state.workers[key].last_seen
            },
            ..state.workers[key]
        }),
        event matches Event::Ping(payload) ==> after.action == ActionView::ControlPong(payload@),
        event is Pong || event is Binary ==> after.action == ActionView::Continue,
        event is Close ==> after.action == (ActionView::Close {
            reason: CloseReason::ClientClose,
            farewell: None,
            flush: true,
        }),
{
}

/// A text frame too is a sign of life first, and is then taken for what it says, in the state that
/// the sign of life left.
pub proof fn a_text_is_a_sign_of_life_first(
    state: StateView,
    connection: ConnectionView,
    message: Option<ClientMessage>,
    now: u128,
    clock: u64,
    after: Reaction,
    heard: ConnectionView,
    between: StateView,
)
    requires
        reaction(state, connection, Event::Text(message), now, after),
        clock * 1_000_000 <= now,
        clock < u64::MAX ==> now < (clock + 1) * 1_000_000,
        heard == (ConnectionView { last_seen: clock, ..connection }),
        between == (StateView { workers: between.workers, ..state }),
        between.workers == state.workers.map_values(
            |worker: WorkerView|
                WorkerView {
                    last_seen: if worker.link == connection.link {
                        clock
                    } else {
                        worker.last_seen
                    },
                    ..worker
                },
        ),
    ensures
        text_reaction(between, heard, message, after),
{
    assert(state.touched(connection.link, clock).workers =~= between.workers);
    assert(state.touched(connection.link, clock) =~= between);
}

/// A ping as text is answered by a pong as text; a pong, and a text that is no message, are taken
/// as signs of life. Nothing changes.
pub proof fn a_ping_is_answered_by_a_pong(
    state: StateView,
    connection: ConnectionView,
    message: Option<ClientMessage>,
    after: Reaction,
)
    requires
        text_reaction(state, connection, message, after),
        message is None || message == Some(ClientMessage::Ping) || message == Some(
            ClientMessage::Pong,
        ),
    ensures
        after.state == state,
        after.connection == connection,
        after.action == (if message == Some(ClientMessage::Ping) {
            ActionView::QueuePong
        } else {
            ActionView::Continue
        }),
{
}

/// A worker that registers over a connection is from then on what the connection stands for: idle,
/// in the version that it gave, reached by this connection and as recent as it. A name of its own
/// is kept; one that is missing or says that it is unknown is replaced by a random one. What the
/// connection registered before is gone, and the connection that held the name is evicted.
pub proof fn a_registration_makes_the_connection_its_worker(
    state: StateView,
    connection: ConnectionView,
    message: ClientMessage,
    after: Reaction,
)
    requires
        text_reaction(state, connection, Some(message), after),
        message is Register,
    ensures
        after.connection.identity is Some,
        ({
            let id = after.connection.identity->0;
            let key = (id.instance, id.name);
            let requested = message->Register_worker@;
            &&& after.connection == (ConnectionView { identity: Some(id), ..connection })
            &&& id.instance == message->Register_instance@
            &&& id.generation == state.generation
            &&& if requested.len() == 0 || requested == "unknown"@ {
                is_random_uuid(id.name)
            } else {
                id.name == requested
            }
            &&& after.state.workers.contains_key(key)
            &&& after.state.workers[key] == (WorkerView {
                generation: id.generation,
                version: message->Register_version,
                link: connection.link,
                busy: false,
                last_seen: connection.last_seen,
            })
            &&& connection.identity matches Some(former) ==> former.generation != id.generation
                ==> !(after.state.workers.contains_key((former.instance, former.name))
                && after.state.workers[(former.instance, former.name)].generation
                == former.generation)
            &&& after.action is Registered
            &&& connection.identity is None ==> after.action->evicted == (
            if state.workers.contains_key(key) {
                Some(state.workers[key].link)
            } else {
                None
            })
            &&& connection.identity is None ==> after.state == state.registered(
                id.instance,
                id.name,
                message->Register_version,
                connection.link,
                connection.last_seen,
            )
            &&& connection.identity matches Some(former) ==> after.action->evicted == (
            if state.unregistered(former).workers.contains_key(key) {
                Some(state.unregistered(former).workers[key].link)
            } else {
                None
            })
            &&& connection.identity matches Some(former) ==> after.state == state.unregistered(
                former,
            ).registered(
                id.instance,
                id.name,
                message->Register_version,
                connection.link,
                connection.last_seen,
            )
        }),
{
}

/// A connection that registered a worker speaks for it alone: when it says that it is ready, or
/// responds, it is this worker that is ready or responds, whatever worker the message names. A
/// connection that registered none can say neither, and nothing changes.
pub proof fn a_connection_speaks_for_its_own_worker(
    state: StateView,
    connection: ConnectionView,
    message: ClientMessage,
    after: Reaction,
)
    requires
        text_reaction(state, connection, Some(message), after),
        message is Ready || message is Response,
    ensures
        after.connection == connection,
        connection.identity is None ==> after.state == state && after.action
            == ActionView::Continue,
        connection.identity matches Some(id) ==> message matches ClientMessage::Ready {
            uid,
            ..
        } ==> after.state == state.marked_ready(uid@, id) && after.action == (match state.winner(
            uid@,
            id,
        ) {
            Some(worker) => ActionView::Selected { uid: uid@, worker },
            None => ActionView::Continue,
        }),
        connection.identity matches Some(id) ==> message matches ClientMessage::Response {
            uid,
            status,
            body,
        } ==> if 100 <= status <= 999 && state.pending.contains_key(uid@) && state.pending[uid@]
            == (PendingView::Response { worker: id }) {
            &&& after.state == (StateView { pending: state.pending.remove(uid@), ..state })
            &&& after.action == (ActionView::Responded {
                uid: uid@,
                response: ResponseView { status, body: body@ },
            })
        } else {
            after.state == state && after.action == ActionView::Continue
        },
{
}

/// A receive error counts as a reset exactly where its text, in whatever case of ASCII letters,
/// holds one of five phrases by which a transport says that it ended.
pub proof fn a_transport_that_ended_counts_as_a_reset(error: Seq<char>)
    ensures
        error_class(error) == CloseReason::Reset || error_class(error)
            == CloseReason::ReceiveError,
        error_class(error) == CloseReason::Reset <==> exists|phrase: Seq<char>|
            #![trigger occurs(lowered(error), phrase)]
            occurs(lowered(error), phrase) && (phrase == "reset"@ || phrase
                == "closing handshake"@ || phrase == "broken pipe"@ || phrase
                == "connection aborted"@ || phrase == "unexpected eof"@),
{
    let text = lowered(error);
    if is_reset(error) {
        let phrase = if occurs(text, "reset"@) {
            "reset"@
        } else if occurs(text, "closing handshake"@) {
            "closing handshake"@
        } else if occurs(text, "broken pipe"@) {
            "broken pipe"@
        } else if occurs(text, "connection aborted"@) {
            "connection aborted"@
        } else {
            "unexpected eof"@
        };
        assert(occurs(lowered(error), phrase));
    }
}

/// A posted response is taken with 200 where its status lies between 100 and 999, and refused with
/// 400 elsewhere. What is taken reaches the scrape whose request waits for a response, unchanged,
/// and closes the request; where none waits, it is dropped. Nothing else changes.
pub proof fn a_posted_response_reaches_the_scrape_that_waits(
    state: StateView,
    uid: Seq<char>,
    status: u16,
    body: Seq<char>,
    after: PostedView,
)
    requires
        after == posted(state, uid, status, body),
    ensures
        100 <= status <= 999 ==> after.status == 200,
        !(100 <= status <= 999) ==> after.status == 400,
        if 100 <= status <= 999 && state.pending.contains_key(uid)
            && state.pending[uid] is Response {
            &&& after.delivered == Some(ResponseView { status, body })
            &&& after.state == (StateView { pending: state.pending.remove(uid), ..state })
        } else {
            after.delivered is None && after.state == state
        },
{
}

/// The metrics are served at the root, whatever the prefix. Below the prefix, which stands after
/// one slash and without slashes around it, the health, the connections of workers and the scrapes
/// are asked for, and responses are posted; each with and without a slash at its end.
pub proof fn the_routes_are_these(prefix: Seq<char>)
    ensures
        ({
            let table = route_table(prefix);
            let base = if without_slashes(prefix).len() == 0 {
                Seq::empty()
            } else {
                "/"@ + without_slashes(prefix)
            };
            &&& table.len() == 9
            &&& table[0].path == "/metrics"@
            &&& table[0].endpoint == Endpoint::Metrics
            &&& table[1].path == base + "/health"@
            &&& table[3].path == base + "/ws"@
            &&& table[5].path == base + "/request/{instance}/{resource}"@
            &&& table[7].path == base + "/response/{uid}"@
            &&& forall|i: int|
                #![trigger table[2 * i]]
                1 <= i <= 4 ==> {
                    &&& table[2 * i].path == table[2 * i - 1].path + "/"@
                    &&& table[2 * i].endpoint == table[2 * i - 1].endpoint
                    &&& table[2 * i].method == table[2 * i - 1].method
                }
            &&& table[1].endpoint == Endpoint::Health
            &&& table[3].endpoint == Endpoint::WebSocket
            &&& table[5].endpoint == Endpoint::CallResource
            &&& table[7].endpoint == Endpoint::Response
            &&& forall|i: int|
                0 <= i < 9 ==> ((#[trigger] table[i]).method == Method::Post <==> table[i].endpoint
                    == Endpoint::Response)
        }),
{
    assert(Seq::<char>::empty() + "/metrics"@ =~= "/metrics"@);
}

/// What is known of a connection and what has to be done about it are what the values say: a
/// closing connection is closed for the reason, with the farewell and the flush that it carries,
/// and an answer carries what is answered.
pub proof fn a_connection_is_taken_by_its_word(
    connection: Connection,
    action: Action,
    closing: Closing,
)
    ensures
        connection@.link == connection.link,
        connection@.last_seen == connection.last_seen,
        match connection.identity {
            Some(id) => connection@.identity == Some(id@),
            None => connection@.identity is None,
        },
        action == Action::Close(closing) ==> {
            &&& action@ matches ActionView::Close { reason, farewell, flush }
            &&& reason == closing.reason
            &&& flush == closing.flush
            &&& farewell is Some == closing.farewell is Some
            &&& closing.farewell matches Some(text) ==> farewell == Some(text@)
        },
        action is Continue <==> action@ is Continue,
        action is Heartbeat <==> action@ is Heartbeat,
        action is Forward <==> action@ is Forward,
        action is QueuePong <==> action@ is QueuePong,
        action matches Action::ControlPong(payload) ==> action@ == ActionView::ControlPong(
            payload@,
        ),
        action matches Action::Registered { evicted } ==> action@ == (ActionView::Registered {
            evicted,
        }),
        action matches Action::Selected { uid, worker } ==> action@ == (ActionView::Selected {
            uid: uid@,
            worker: worker@,
        }),
        action matches Action::Responded { uid, response } ==> action@ == (
        ActionView::Responded { uid: uid@, response: response@ }),
{
}

} // verus!

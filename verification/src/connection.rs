//! One WebSocket connection of a worker: what happens on it, and what the server does about it.

use crate::limits::{in_millis, millis, silence};
use crate::metrics::CloseReason;
use crate::model::{IdentityView, ReservedView, StateView};
use crate::outside::{checked_status, is_status};
use crate::protocol::ClientMessage;
use crate::scrape::ResponseView;
use crate::state::{may_be_named, AppState, ProxyResponse, ReservedWorker, WorkerIdentity};
use crate::text::{contains_text, lower_characters, lowered, occurs};
use vstd::prelude::*;

verus! {

/// The status with which the server closes a connection.
pub const CLOSE_CODE: u16 = 1001;

pub const SHUTDOWN_TEXT: &'static str = "server shutdown";

pub const REPLACED_TEXT: &'static str = "worker replaced";

pub const HEARTBEAT_TEXT: &'static str = "heartbeat timeout";

/// An open connection.
pub struct Connection {
    /// The number of the connection.
    pub link: u64,
    /// When the last frame arrived, in milliseconds.
    pub last_seen: u64,
    /// What the connection registered.
    pub identity: Option<WorkerIdentity>,
}

/// An open connection.
#[verifier::ext_equal]
pub struct ConnectionView {
    pub link: u64,
    pub last_seen: u64,
    pub identity: Option<IdentityView>,
}

impl View for Connection {
    type V = ConnectionView;

    open spec fn view(&self) -> ConnectionView {
        ConnectionView {
            link: self.link,
            last_seen: self.last_seen,
            identity: match self.identity {
                Some(id) => Some(id@),
                None => None,
            },
        }
    }
}

/// What happens on a connection.
pub enum Event {
    /// The server is shutting down.
    Shutdown,
    /// Another connection registered the same worker name.
    Evicted,
    /// A heartbeat interval passed.
    Tick,
    /// The outbox gave a message to send, or was closed.
    Outgoing { present: bool },
    /// A message could not be sent in time.
    SendFailed,
    /// A text frame arrived; the message is absent where the text is none.
    Text(Option<ClientMessage>),
    Ping(Vec<u8>),
    Pong,
    Binary,
    /// The peer sent a close frame.
    Close,
    /// The transport ended.
    End,
    /// Receiving failed, for a reason in words.
    Error(String),
}

/// How a connection is closed.
pub struct Closing {
    pub reason: CloseReason,
    /// What the peer is told in a close frame, where one is sent.
    pub farewell: Option<&'static str>,
    /// The close reply to the peer's own close frame is flushed.
    pub flush: bool,
}

/// What has to be done on a connection.
pub enum Action {
    /// Wait for the next event.
    Continue,
    /// Send a ping as text, then one as a control frame.
    Heartbeat,
    /// Send the message that the outbox gave.
    Forward,
    /// Answer a control ping with its own payload.
    ControlPong(Vec<u8>),
    /// Put a pong as text into the outbox, unless it is full.
    QueuePong,
    /// A worker was registered; the connection that held its name has to be evicted.
    Registered { evicted: Option<u64> },
    /// The scrape that waits for a ready worker gets this one.
    Selected { uid: String, worker: ReservedWorker },
    /// The scrape that waits for a response gets this one.
    Responded { uid: String, response: ProxyResponse },
    /// Close the connection.
    Close(Closing),
}

/// What has to be done on a connection.
#[allow(inconsistent_fields)]
pub enum ActionView {
    Continue,
    Heartbeat,
    Forward,
    ControlPong(Seq<u8>),
    QueuePong,
    Registered { evicted: Option<u64> },
    Selected { uid: Seq<char>, worker: ReservedView },
    Responded { uid: Seq<char>, response: ResponseView },
    Close { reason: CloseReason, farewell: Option<Seq<char>>, flush: bool },
}

impl View for Action {
    type V = ActionView;

    open spec fn view(&self) -> ActionView {
        match self {
            Action::Continue => ActionView::Continue,
            Action::Heartbeat => ActionView::Heartbeat,
            Action::Forward => ActionView::Forward,
            Action::ControlPong(payload) => ActionView::ControlPong(payload@),
            Action::QueuePong => ActionView::QueuePong,
            Action::Registered { evicted } => ActionView::Registered { evicted: *evicted },
            Action::Selected { uid, worker } => ActionView::Selected {
                uid: uid@,
                worker: worker@,
            },
            Action::Responded { uid, response } => ActionView::Responded {
                uid: uid@,
                response: response@,
            },
            Action::Close(closing) => ActionView::Close {
                reason: closing.reason,
                farewell: match closing.farewell {
                    Some(text) => Some(text@),
                    None => None,
                },
                flush: closing.flush,
            },
        }
    }
}

/// Everything that an event on a connection may change or bring about.
pub struct Reaction {
    pub state: StateView,
    pub connection: ConnectionView,
    pub action: ActionView,
}

impl Reaction {
    /// Nothing but the action.
    pub open spec fn just(
        state: StateView,
        connection: ConnectionView,
        action: ActionView,
    ) -> Reaction {
        Reaction { state, connection, action }
    }

    /// The connection has to be closed.
    pub open spec fn closing(
        state: StateView,
        connection: ConnectionView,
        reason: CloseReason,
        farewell: Option<Seq<char>>,
        flush: bool,
    ) -> Reaction {
        Reaction { state, connection, action: ActionView::Close { reason, farewell, flush } }
    }
}

/// A connection that is opened: it gets the next number and has registered nothing.
pub open spec fn newly_opened(state: StateView, now: u128) -> ConnectionView {
    ConnectionView { link: state.next_link, last_seen: in_millis(now), identity: None }
}

/// The connection registers a worker under `name`; what it registered before ends first.
pub open spec fn enrolment(
    state: StateView,
    connection: ConnectionView,
    instance: Seq<char>,
    name: Seq<char>,
    version: u16,
) -> Reaction {
    let left = match connection.identity {
        Some(id) => state.unregistered(id),
        None => state,
    };
    Reaction {
        state: left.registered(
            instance,
            name,
            version,
            connection.link,
            connection.last_seen,
        ),
        connection: ConnectionView {
            identity: Some(left.next_identity(instance, name)),
            ..connection
        },
        action: ActionView::Registered { evicted: left.evicted(instance, name) },
    }
}

/// A worker says that it is ready. Only the worker that the connection registered can say so.
pub open spec fn readiness(
    state: StateView,
    connection: ConnectionView,
    uid: Seq<char>,
) -> Reaction {
    match connection.identity {
        Some(id) => Reaction {
            state: state.marked_ready(uid, id),
            connection,
            action: match state.winner(uid, id) {
                Some(worker) => ActionView::Selected { uid, worker },
                None => ActionView::Continue,
            },
        },
        None => Reaction::just(state, connection, ActionView::Continue),
    }
}

/// A worker responds. A response with a status that is none is ignored, and so is one of a
/// worker that was not asked.
pub open spec fn response_given(
    state: StateView,
    connection: ConnectionView,
    uid: Seq<char>,
    status: u16,
    body: Seq<char>,
) -> Reaction {
    match connection.identity {
        Some(id) => if is_status(status) && state.answers(uid, Some(id)) {
            Reaction {
                state: state.answered(uid, Some(id)),
                connection,
                action: ActionView::Responded { uid, response: ResponseView { status, body } },
            }
        } else {
            Reaction::just(state, connection, ActionView::Continue)
        },
        None => Reaction::just(state, connection, ActionView::Continue),
    }
}

/// `after` is a way in which the server may react to a text frame.
pub open spec fn text_reaction(
    state: StateView,
    connection: ConnectionView,
    message: Option<ClientMessage>,
    after: Reaction,
) -> bool {
    match message {
        Some(ClientMessage::Register { instance, worker, version }) => exists|name: Seq<char>|
            #[trigger]
            may_be_named(worker@, name) && after == enrolment(
                state,
                connection,
                instance@,
                name,
                version,
            ),
        Some(ClientMessage::Ping) => after == Reaction::just(
            state,
            connection,
            ActionView::QueuePong,
        ),
        Some(ClientMessage::Ready { uid, .. }) => after == readiness(state, connection, uid@),
        Some(ClientMessage::Response { uid, status, body }) => after == response_given(
            state,
            connection,
            uid@,
            status,
            body@,
        ),
        Some(ClientMessage::Pong) => after == Reaction::just(
            state,
            connection,
            ActionView::Continue,
        ),
        None => after == Reaction::just(state, connection, ActionView::Continue),
    }
}

/// The peer has been silent for too long.
pub open spec fn timed_out(state: StateView, connection: ConnectionView, now: u128) -> bool {
    silence(in_millis(now), connection.last_seen) >= in_millis(state.limits.heartbeat_timeout)
}

/// The state after a frame arrived on the connection.
pub open spec fn seen_state(state: StateView, connection: ConnectionView, now: u128) -> StateView {
    state.touched(connection.link, in_millis(now))
}

/// The connection after a frame arrived on it.
pub open spec fn seen(connection: ConnectionView, now: u128) -> ConnectionView {
    ConnectionView { last_seen: in_millis(now), ..connection }
}

/// `after` is a way in which the server may react to an event.
pub open spec fn reaction(
    state: StateView,
    connection: ConnectionView,
    event: Event,
    now: u128,
    after: Reaction,
) -> bool {
    let touched = seen_state(state, connection, now);
    let heard = seen(connection, now);
    match event {
        Event::Shutdown => after == Reaction::closing(
            state,
            connection,
            CloseReason::Shutdown,
            Some(SHUTDOWN_TEXT@),
            false,
        ),
        Event::Evicted => after == Reaction::closing(
            state,
            connection,
            CloseReason::Replaced,
            Some(REPLACED_TEXT@),
            false,
        ),
        Event::Tick => if timed_out(state, connection, now) {
            after == Reaction::closing(
                state,
                connection,
                CloseReason::HeartbeatTimeout,
                Some(HEARTBEAT_TEXT@),
                false,
            )
        } else {
            after == Reaction::just(state, connection, ActionView::Heartbeat)
        },
        Event::Outgoing { present } => if present {
            after == Reaction::just(state, connection, ActionView::Forward)
        } else {
            after == Reaction::closing(state, connection, CloseReason::SendFailed, None, false)
        },
        Event::SendFailed => after == Reaction::closing(
            state,
            connection,
            CloseReason::SendFailed,
            None,
            false,
        ),
        Event::Text(message) => text_reaction(touched, heard, message, after),
        Event::Ping(payload) => after == Reaction::just(
            touched,
            heard,
            ActionView::ControlPong(payload@),
        ),
        Event::Pong => after == Reaction::just(touched, heard, ActionView::Continue),
        Event::Binary => after == Reaction::just(touched, heard, ActionView::Continue),
        Event::Close => after == Reaction::closing(
            touched,
            heard,
            CloseReason::ClientClose,
            None,
            true,
        ),
        Event::End => after == Reaction::closing(
            state,
            connection,
            CloseReason::Reset,
            None,
            false,
        ),
        Event::Error(text) => after == Reaction::closing(
            state,
            connection,
            error_class(text@),
            None,
            false,
        ),
    }
}

/// The error says that the transport ended.
pub open spec fn is_reset(error: Seq<char>) -> bool {
    let text = lowered(error);
    ||| occurs(text, "reset"@)
    ||| occurs(text, "closing handshake"@)
    ||| occurs(text, "broken pipe"@)
    ||| occurs(text, "connection aborted"@)
    ||| occurs(text, "unexpected eof"@)
}

/// What a receive error is counted as.
pub open spec fn error_class(error: Seq<char>) -> CloseReason {
    if is_reset(error) {
        CloseReason::Reset
    } else {
        CloseReason::ReceiveError
    }
}

/// Classifies a receive error; transport-level ends are reported as resets.
pub fn receive_error_reason(error: &str) -> (reason: CloseReason)
    ensures
        reason == error_class(error@),
{
    let text = lower_characters(error);
    if contains_text(&text, "reset") || contains_text(&text, "closing handshake")
        || contains_text(&text, "broken pipe") || contains_text(&text, "connection aborted")
        || contains_text(&text, "unexpected eof") {
        CloseReason::Reset
    } else {
        CloseReason::ReceiveError
    }
}

/// The instance and the name by which a registration is logged.
pub fn identity_labels(identity: Option<&WorkerIdentity>) -> (labels: (&str, &str))
    ensures
        match identity {
            Some(id) => labels.0@ == id.instance@ && labels.1@ == id.name@,
            None => labels.0@ == ""@ && labels.1@ == ""@,
        },
{
    match identity {
        Some(id) => (id.instance.as_str(), id.name.as_str()),
        None => ("", ""),
    }
}

/// The action that closes a connection.
fn closing(reason: CloseReason, farewell: Option<&'static str>, flush: bool) -> (action: Action)
    ensures
        action@ == (ActionView::Close {
            reason,
            farewell: match farewell {
                Some(text) => Some(text@),
                None => None,
            },
            flush,
        }),
{
    Action::Close(Closing { reason, farewell, flush })
}

impl Connection {
    /// Opens a connection.
    pub fn open(state: &mut AppState, now: u128) -> (connection: Connection)
        requires
            old(state).wf(),
        ensures
            final(state).wf(),
            final(state)@ == old(state)@.connected(),
            connection@ == newly_opened(old(state)@, now),
    {
        let link = state.open_connection();
        Connection { link, last_seen: millis(now), identity: None }
    }

    /// Closes the connection: what it registered ends, and the reason is counted. Tells whether it
    /// had registered a worker that was current.
    pub fn close(self, state: &mut AppState, reason: CloseReason) -> (removed: bool)
        requires
            old(state).wf(),
        ensures
            final(state).wf(),
            final(state)@ == old(state)@.disconnected(self@.identity, reason),
            removed == (self@.identity matches Some(id) && old(state)@.holds(id)),
    {
        match &self.identity {
            Some(id) => state.close_connection(Some(id), reason),
            None => state.close_connection(None, reason),
        }
    }

    /// A frame arrived.
    fn touch(&mut self, state: &mut AppState, now: u128)
        requires
            old(state).wf(),
        ensures
            final(state).wf(),
            final(state)@ == seen_state(old(state)@, old(self)@, now),
            final(self)@ == seen(old(self)@, now),
    {
        self.last_seen = millis(now);
        state.touch(self.link, self.last_seen);
    }

    /// Registers a worker; what the connection registered before ends first.
    fn register(
        &mut self,
        state: &mut AppState,
        instance: String,
        worker: String,
        version: u16,
    ) -> (action: Action)
        requires
            old(state).wf(),
        ensures
            final(state).wf(),
            exists|name: Seq<char>| #[trigger]
                may_be_named(worker@, name) && (Reaction {
                    state: final(state)@,
                    connection: final(self)@,
                    action: action@,
                }) == enrolment(old(state)@, old(self)@, instance@, name, version),
    {
        match &self.identity {
            Some(id) => {
                state.unregister_worker(id);
            },
            None => {},
        }
        let (identity, evicted) = state.register_worker(
            instance,
            worker,
            version,
            self.link,
            self.last_seen,
        );
        let ghost name = identity.name@;
        self.identity = Some(identity);
        assert(may_be_named(worker@, name));
        Action::Registered { evicted }
    }

    /// Reacts to a text frame.
    pub fn handle_client_text(
        &mut self,
        state: &mut AppState,
        message: Option<ClientMessage>,
    ) -> (action: Action)
        requires
            old(state).wf(),
        ensures
            final(state).wf(),
            text_reaction(
                old(state)@,
                old(self)@,
                message,
                (Reaction { state: final(state)@, connection: final(self)@, action: action@ }),
            ),
    {
        match message {
            Some(ClientMessage::Register { instance, worker, version }) => self.register(
                state,
                instance,
                worker,
                version,
            ),
            Some(ClientMessage::Ping) => Action::QueuePong,
            Some(ClientMessage::Pong) => Action::Continue,
            Some(ClientMessage::Ready { uid, .. }) => match &self.identity {
                Some(id) => match state.mark_ready(uid.as_str(), id) {
                    Some(worker) => Action::Selected { uid, worker },
                    None => Action::Continue,
                },
                None => Action::Continue,
            },
            Some(ClientMessage::Response { uid, status, body }) => match checked_status(status) {
                Some(status) => match &self.identity {
                    Some(id) => match state.complete_response(
                        uid.as_str(),
                        Some(id),
                        ProxyResponse { status, body },
                    ) {
                        Some(response) => Action::Responded { uid, response },
                        None => Action::Continue,
                    },
                    None => Action::Continue,
                },
                None => Action::Continue,
            },
            None => Action::Continue,
        }
    }

    /// Reacts to an event.
    pub fn websocket_connection(
        &mut self,
        state: &mut AppState,
        event: Event,
        now: u128,
    ) -> (action: Action)
        requires
            old(state).wf(),
        ensures
            final(state).wf(),
            reaction(
                old(state)@,
                old(self)@,
                event,
                now,
                (Reaction { state: final(state)@, connection: final(self)@, action: action@ }),
            ),
    {
        match event {
            Event::Shutdown => closing(CloseReason::Shutdown, Some(SHUTDOWN_TEXT), false),
            Event::Evicted => closing(CloseReason::Replaced, Some(REPLACED_TEXT), false),
            Event::Tick => {
                let limits = state.limits();
                let current: u64 = millis(now);
                let silent: u64 = if current >= self.last_seen {
                    current - self.last_seen
                } else {
                    0
                };
                if silent >= millis(limits.heartbeat_timeout) {
                    closing(CloseReason::HeartbeatTimeout, Some(HEARTBEAT_TEXT), false)
                } else {
                    Action::Heartbeat
                }
            },
            Event::Outgoing { present } => {
                if present {
                    Action::Forward
                } else {
                    closing(CloseReason::SendFailed, None, false)
                }
            },
            Event::SendFailed => closing(CloseReason::SendFailed, None, false),
            Event::Text(message) => {
                self.touch(state, now);
                self.handle_client_text(state, message)
            },
            Event::Ping(payload) => {
                self.touch(state, now);
                Action::ControlPong(payload)
            },
            Event::Pong => {
                self.touch(state, now);
                Action::Continue
            },
            Event::Binary => {
                self.touch(state, now);
                Action::Continue
            },
            Event::Close => {
                self.touch(state, now);
                closing(CloseReason::ClientClose, None, true)
            },
            Event::End => closing(CloseReason::Reset, None, false),
            Event::Error(text) => closing(receive_error_reason(text.as_str()), None, false),
        }
    }
}

} // verus!

//! One connection of a worker of protocol version 1 or 2: what its messages mean and what they
//! bring about.

use crate::cache::{
    commands_view, ready_commands, response_commands, store_ready, store_response, CacheCommand,
    CommandView,
};
use crate::outside::{
    is_random_uuid, json_member, member_of, random_uuid, JsonMember, JsonMemberView,
};
use crate::text::same_text;
use crate::ws_clients::{with_worker, Clients, ClientsView};
use crate::ws_request::{WSProxyCallResponse, WSProxyReadyResponse, WSRegisterRequest};
use vstd::prelude::*;

verus! {

/// What a text message is, judged by its member `type`.
#[derive(Clone, Copy, Debug, Eq, PartialEq, Structural)]
pub enum MessageKind {
    Register,
    Ping,
    Response,
    Ready,
    /// A type that the server does not know.
    Unknown,
    /// No type at all.
    Untyped,
    /// Something that no worker sends: no JSON, or a type that is no text. The connection cannot
    /// go on.
    Broken,
}

/// What a message of a type is.
pub open spec fn kind_of(message_type: JsonMemberView) -> MessageKind {
    match message_type {
        JsonMemberView::Text(name) => if name == "register"@ {
            MessageKind::Register
        } else if name == "ping"@ {
            MessageKind::Ping
        } else if name == "response"@ {
            MessageKind::Response
        } else if name == "ready"@ {
            MessageKind::Ready
        } else {
            MessageKind::Unknown
        },
        JsonMemberView::Missing => MessageKind::Untyped,
        JsonMemberView::NotText => MessageKind::Broken,
        JsonMemberView::NotJson => MessageKind::Broken,
    }
}

/// What a message of a type is.
pub fn message_kind(message_type: &JsonMember) -> (kind: MessageKind)
    ensures
        kind == kind_of(message_type@),
{
    match message_type {
        JsonMember::Text(name) => {
            let name = name.as_str();
            if same_text(name, "register") {
                MessageKind::Register
            } else if same_text(name, "ping") {
                MessageKind::Ping
            } else if same_text(name, "response") {
                MessageKind::Response
            } else if same_text(name, "ready") {
                MessageKind::Ready
            } else {
                MessageKind::Unknown
            }
        },
        JsonMember::Missing => MessageKind::Untyped,
        JsonMember::NotText => MessageKind::Broken,
        JsonMember::NotJson => MessageKind::Broken,
    }
}

/// What a text message is.
pub fn text_kind(text: &str) -> (kind: MessageKind)
    ensures
        kind == kind_of(member_of(text@, "type"@)),
{
    message_kind(&json_member(text, "type"))
}

/// A message that arrived. Where a message lacks what its type asks for, it is absent.
pub enum WSMessage {
    Register(Option<WSRegisterRequest>),
    Ping,
    Response(Option<WSProxyCallResponse>),
    Ready(Option<WSProxyReadyResponse>),
    /// A text of an unknown type or of none.
    Other,
    /// A control frame or binary data.
    Control,
    /// Receiving failed.
    Failed,
}

/// What a text can be read as: each form is absent where the text lacks what it asks for.
pub struct Parts {
    pub register: Option<WSRegisterRequest>,
    pub response: Option<WSProxyCallResponse>,
    pub ready: Option<WSProxyReadyResponse>,
}

/// The message that a text of some kind is: it is read in the form that its kind asks for.
pub open spec fn message_in(kind: MessageKind, parts: Parts) -> WSMessage {
    match kind {
        MessageKind::Register => WSMessage::Register(parts.register),
        MessageKind::Ping => WSMessage::Ping,
        MessageKind::Response => WSMessage::Response(parts.response),
        MessageKind::Ready => WSMessage::Ready(parts.ready),
        MessageKind::Unknown => WSMessage::Other,
        MessageKind::Untyped => WSMessage::Other,
        MessageKind::Broken => WSMessage::Failed,
    }
}

/// The message that a text of some kind is. A broken text is no message.
pub fn message_of(kind: MessageKind, parts: Parts) -> (message: WSMessage)
    requires
        kind != MessageKind::Broken,
    ensures
        message == message_in(kind, parts),
{
    match kind {
        MessageKind::Register => WSMessage::Register(parts.register),
        MessageKind::Ping => WSMessage::Ping,
        MessageKind::Response => WSMessage::Response(parts.response),
        MessageKind::Ready => WSMessage::Ready(parts.ready),
        MessageKind::Unknown => WSMessage::Other,
        MessageKind::Untyped => WSMessage::Other,
        MessageKind::Broken => WSMessage::Failed,
    }
}

/// What a message brings about.
pub enum Effect {
    /// Wait for the next message.
    Continue,
    /// Change the cache, then wait for the next message.
    Store(Vec<CacheCommand>),
    /// Leave the connection.
    Break,
}

/// What a message brings about.
pub enum EffectView {
    Continue,
    Store(Seq<CommandView>),
    Break,
}

impl View for Effect {
    type V = EffectView;

    open spec fn view(&self) -> EffectView {
        match self {
            Effect::Continue => EffectView::Continue,
            Effect::Store(commands) => EffectView::Store(commands_view(commands@)),
            Effect::Break => EffectView::Break,
        }
    }
}

/// `name` is a name under which a worker that calls itself `requested` may register: a worker
/// without a name of its own gets a random one.
pub open spec fn may_register_as(requested: Seq<char>, name: Seq<char>) -> bool {
    if requested == "unknown"@ {
        is_random_uuid(name)
    } else {
        name == requested
    }
}

/// What a message brings about, apart from the clients.
pub open spec fn message_effect(message: WSMessage) -> EffectView {
    match message {
        WSMessage::Register(Some(_)) => EffectView::Continue,
        WSMessage::Register(None) => EffectView::Break,
        WSMessage::Ping => EffectView::Continue,
        WSMessage::Response(Some(response)) => EffectView::Store(
            response_commands(response.uid@, response.status, response.body@),
        ),
        WSMessage::Response(None) => EffectView::Break,
        WSMessage::Ready(Some(ready)) => EffectView::Store(
            ready_commands(ready.uid@, ready.worker@),
        ),
        WSMessage::Ready(None) => EffectView::Break,
        WSMessage::Other => EffectView::Continue,
        WSMessage::Control => EffectView::Continue,
        WSMessage::Failed => EffectView::Break,
    }
}

/// `after` is what the clients may be after a message on connection `link`: only a registration
/// changes them.
pub open spec fn clients_after(
    before: ClientsView,
    link: u64,
    message: WSMessage,
    after: ClientsView,
) -> bool {
    match message {
        WSMessage::Register(Some(request)) => exists|name: Seq<char>| #[trigger]
            may_register_as(request.worker@, name) && after == with_worker(
                before,
                request.instance@,
                name,
                request.version,
                link,
            ),
        _ => after == before,
    }
}

/// Chooses the name of a worker.
pub fn registered_name(requested: String) -> (name: String)
    ensures
        may_register_as(requested@, name@),
{
    if same_text(requested.as_str(), "unknown") {
        random_uuid()
    } else {
        requested
    }
}

/// Reacts to a message on connection `link`.
pub fn client_connection(clients: &mut Clients, link: u64, message: WSMessage) -> (effect: Effect)
    requires
        old(clients).wf(),
    ensures
        final(clients).wf(),
        effect@ == message_effect(message),
        clients_after(old(clients)@, link, message, final(clients)@),
{
    match message {
        WSMessage::Register(Some(request)) => {
            let name = registered_name(request.worker);
            assert(may_register_as(request.worker@, name@));
            clients.register(request.instance, name, request.version, link);
            Effect::Continue
        },
        WSMessage::Register(None) => Effect::Break,
        WSMessage::Ping => Effect::Continue,
        WSMessage::Response(Some(response)) => Effect::Store(
            store_response(response.uid.as_str(), response.status, response.body),
        ),
        WSMessage::Response(None) => Effect::Break,
        WSMessage::Ready(Some(ready)) => Effect::Store(
            store_ready(ready.uid.as_str(), ready.worker),
        ),
        WSMessage::Ready(None) => Effect::Break,
        WSMessage::Other => Effect::Continue,
        WSMessage::Control => Effect::Continue,
        WSMessage::Failed => Effect::Break,
    }
}

} // verus!

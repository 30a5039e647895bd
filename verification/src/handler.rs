//! A scrape through a worker of protocol version 1 or 2, from the request of Prometheus to the
//! reply.
//!
//! The scrape alternates between decisions, which are made here, and messages to workers and
//! questions to the cache. Each [`CallStep`] says what has to happen next.

use crate::outside::{is_random_uuid, random_uuid};
use crate::ws_clients::{
    ask_readiness, ask_resource, asking_order, get_client, missed, parse_status, polled,
    read_status, senders_view, wait_for_response, wait_for_worker_available, without_workers,
    Client, ClientView, Clients, Poll, PollView, Sender, RESPONSE_POLLS, WORKER_POLLS,
};
use vstd::prelude::*;

verus! {

/// The server is alive.
pub fn health_handler() -> (status: u16)
    ensures
        status == 200,
{
    200
}

/// What is asked for, and from whom.
pub struct Call {
    pub instance_id: String,
    pub resource: String,
    pub uid: String,
    /// The workers of the instance when the call came in.
    pub client: Client,
}

/// What Prometheus is answered.
pub struct Reply {
    pub status: u16,
    pub body: String,
}

/// What has to happen next in a call.
pub enum CallStep {
    /// Ask every listed worker whether it is ready.
    AskReadiness { call: Call, senders: Vec<Sender> },
    /// Ask the cache which worker is ready; it was asked in vain `polls` times.
    PollWorker { call: Call, polls: u32 },
    /// Ask the worker for the resource.
    AskWorker { call: Call, link: u64 },
    /// Ask the worker at `next`, which `link` reaches, for the resource; those behind it are left
    /// to try.
    TryWorker { call: Call, senders: Vec<Sender>, next: usize, link: u64 },
    /// Ask the cache for the status of the response; it was asked in vain `polls` times.
    PollResponse { uid: String, polls: u32 },
    /// Ask the cache for the body of the response.
    ReadBody { uid: String, status: String },
    /// The call is over; without a reply the request is answered as not found.
    Finished(Option<Reply>),
}

/// What is asked for, and from whom.
#[verifier::ext_equal]
pub struct CallView {
    pub instance_id: Seq<char>,
    pub resource: Seq<char>,
    pub uid: Seq<char>,
    pub client: ClientView,
}

/// What has to happen next in a call.
#[allow(inconsistent_fields)]
pub enum CallStepView {
    AskReadiness { call: CallView, senders: Seq<(Seq<char>, u64)> },
    PollWorker { call: CallView, polls: u32 },
    AskWorker { call: CallView, link: u64 },
    TryWorker { call: CallView, senders: Seq<(Seq<char>, u64)>, next: int, link: u64 },
    PollResponse { uid: Seq<char>, polls: u32 },
    ReadBody { uid: Seq<char>, status: Seq<char> },
    Finished(Option<(u16, Seq<char>)>),
}

impl View for Call {
    type V = CallView;

    open spec fn view(&self) -> CallView {
        CallView {
            instance_id: self.instance_id@,
            resource: self.resource@,
            uid: self.uid@,
            client: self.client@,
        }
    }
}

impl View for CallStep {
    type V = CallStepView;

    open spec fn view(&self) -> CallStepView {
        match self {
            CallStep::AskReadiness { call, senders } => CallStepView::AskReadiness {
                call: call@,
                senders: senders_view(senders@),
            },
            CallStep::PollWorker { call, polls } => CallStepView::PollWorker {
                call: call@,
                polls: *polls,
            },
            CallStep::AskWorker { call, link } => CallStepView::AskWorker {
                call: call@,
                link: *link,
            },
            CallStep::TryWorker { call, senders, next, link } => CallStepView::TryWorker {
                call: call@,
                senders: senders_view(senders@),
                next: *next as int,
                link: *link,
            },
            CallStep::PollResponse { uid, polls } => CallStepView::PollResponse {
                uid: uid@,
                polls: *polls,
            },
            CallStep::ReadBody { uid, status } => CallStepView::ReadBody {
                uid: uid@,
                status: status@,
            },
            CallStep::Finished(reply) => CallStepView::Finished(
                match reply {
                    Some(reply) => Some((reply.status, reply.body@)),
                    None => None,
                },
            ),
        }
    }
}

/// The call goes on with the worker at `next`; where all were tried, it waits for a response all
/// the same.
pub open spec fn tried(
    call: CallView,
    senders: Seq<(Seq<char>, u64)>,
    next: int,
) -> CallStepView {
    if next < senders.len() {
        CallStepView::TryWorker { call, senders, next, link: senders[next].1 }
    } else {
        CallStepView::PollResponse { uid: call.uid, polls: 0 }
    }
}

/// `order` lists the workers of the client, each once.
pub open spec fn orders(client: Client, order: Seq<(Seq<char>, u64)>) -> bool {
    order.to_multiset() == senders_view(client.senders@).to_multiset()
}

/// How a call begins: the workers of a client of protocol version 2 are all asked whether they
/// are ready, those of version 1 are asked for the resource one after the other.
pub open spec fn begun(call: CallView, order: Seq<(Seq<char>, u64)>) -> CallStepView {
    if call.client.version > 1 {
        CallStepView::AskReadiness { call, senders: order }
    } else {
        tried(call, order, 0)
    }
}

/// How a call goes on after its workers were asked whether they are ready: the cache is asked which
/// of them is, for the first time.
pub open spec fn readiness_asked(call: CallView) -> CallStepView {
    CallStepView::PollWorker { call, polls: 0 }
}

/// How a call goes on after the cache was asked which worker is ready: the named worker is asked,
/// and without one the cache is asked again, until the call is given up.
pub open spec fn worker_polled(call: CallView, polls: u32, found: Option<String>) -> CallStepView {
    match polled(WORKER_POLLS, polls, found) {
        PollView::Again(polls) => CallStepView::PollWorker { call, polls },
        PollView::Found(worker) => CallStepView::AskWorker {
            call,
            link: call.client.senders[worker],
        },
        PollView::GaveUp => CallStepView::Finished(None),
    }
}

/// How a call goes on after the ready worker was asked for the resource, or could not be.
pub open spec fn worker_asked(call: CallView, sent: bool) -> CallStepView {
    if sent {
        CallStepView::PollResponse { uid: call.uid, polls: 0 }
    } else {
        CallStepView::Finished(None)
    }
}

/// How a call goes on after the worker at `next` was asked for the resource, or could not be.
pub open spec fn worker_tried(
    call: CallView,
    senders: Seq<(Seq<char>, u64)>,
    next: int,
    sent: bool,
) -> CallStepView {
    if sent {
        CallStepView::PollResponse { uid: call.uid, polls: 0 }
    } else {
        tried(call, senders, next + 1)
    }
}

/// How a call goes on after the cache was asked for the status of the response.
pub open spec fn status_polled(uid: Seq<char>, polls: u32, found: Option<String>) -> CallStepView {
    match polled(RESPONSE_POLLS, polls, found) {
        PollView::Again(polls) => CallStepView::PollResponse { uid, polls },
        PollView::Found(status) => CallStepView::ReadBody { uid, status },
        PollView::GaveUp => CallStepView::Finished(None),
    }
}

/// How a call ends after the cache was asked for the body of the response.
pub open spec fn body_read(status: Seq<char>, found: Option<String>) -> CallStepView {
    CallStepView::Finished(
        match found {
            Some(body) => Some((read_status(status).unwrap(), body@)),
            None => None,
        },
    )
}

/// The call goes on with the worker at `next`.
fn try_from_place(call: Call, senders: Vec<Sender>, next: usize) -> (step: CallStep)
    ensures
        step@ == tried(call@, senders_view(senders@), next as int),
{
    match ask_resource(&senders, next) {
        Some(link) => CallStep::TryWorker { call, senders, next, link },
        None => CallStep::PollResponse { uid: call.uid, polls: 0 },
    }
}

/// Begins a call that asks the workers in the given order.
pub fn begin_call(call: Call, order: Vec<Sender>) -> (step: CallStep)
    ensures
        step@ == begun(call@, senders_view(order@)),
{
    if call.client.version > 1 {
        CallStep::AskReadiness { call, senders: order }
    } else {
        try_from_place(call, order, 0)
    }
}

/// Begins the scrape of `resource` on an instance. An instance without a client is not found.
pub fn call_resource_handler(clients: &Clients, instance_id: String, resource: String) -> (step:
    CallStep)
    requires
        clients.wf(),
    ensures
        if clients@.contains_key(instance_id@) {
            exists|uid: Seq<char>, client: Client, order: Seq<(Seq<char>, u64)>|
                #![trigger is_random_uuid(uid), orders(client, order)]
                {
                    &&& is_random_uuid(uid)
                    &&& client.wf() && client@ == clients@[instance_id@]
                    &&& orders(client, order)
                    &&& step@ == begun(
                        CallView {
                            instance_id: instance_id@,
                            resource: resource@,
                            uid,
                            client: client@,
                        },
                        order,
                    )
                }
        } else {
            step@ == CallStepView::Finished(None)
        },
{
    match get_client(instance_id.as_str(), clients) {
        Some(client) => {
            let uid = random_uuid();
            let order = asking_order(&client);
            assert(orders(client, senders_view(order@)));
            assert(is_random_uuid(uid@));
            begin_call(Call { instance_id, resource, uid, client }, order)
        },
        None => CallStep::Finished(None),
    }
}

/// The workers were asked whether they are ready; `sent` says of each, in their order, whether
/// the question was sent. Those that it did not reach are removed.
pub fn asked_readiness(
    clients: &mut Clients,
    call: Call,
    senders: &Vec<Sender>,
    sent: &Vec<bool>,
) -> (step: CallStep)
    requires
        old(clients).wf(),
    ensures
        final(clients).wf(),
        step@ == readiness_asked(call@),
        final(clients)@ == (if old(clients)@.contains_key(call.instance_id@) {
            let names = missed(senders_view(senders@), sent@, senders@.len() as int);
            without_workers(old(clients)@, call.instance_id@, names, names.len() as int)
        } else {
            old(clients)@
        }),
{
    ask_readiness(call.instance_id.as_str(), clients, senders, sent);
    CallStep::PollWorker { call, polls: 0 }
}

/// The cache was asked which worker is ready. It can name only a worker that the client has.
pub fn polled_worker(call: Call, polls: u32, found: Option<String>) -> (step: CallStep)
    requires
        polls < WORKER_POLLS,
        call.client.wf(),
        found matches Some(worker) ==> call.client@.senders.contains_key(worker@),
    ensures
        step@ == worker_polled(call@, polls, found),
{
    match wait_for_worker_available(polls, found) {
        Poll::Again(polls) => CallStep::PollWorker { call, polls },
        Poll::Found(worker) => match call.client.sender_of(worker.as_str()) {
            Some(link) => CallStep::AskWorker { call, link },
            None => CallStep::Finished(None),
        },
        Poll::GaveUp => CallStep::Finished(None),
    }
}

/// The ready worker was asked for the resource, or could not be.
pub fn asked_worker(call: Call, sent: bool) -> (step: CallStep)
    ensures
        step@ == worker_asked(call@, sent),
{
    if sent {
        CallStep::PollResponse { uid: call.uid, polls: 0 }
    } else {
        CallStep::Finished(None)
    }
}

/// The worker at `next` was asked for the resource, or could not be.
pub fn tried_worker(call: Call, senders: Vec<Sender>, next: usize, sent: bool) -> (step: CallStep)
    requires
        next < senders.len(),
    ensures
        step@ == worker_tried(call@, senders_view(senders@), next as int, sent),
{
    if sent {
        CallStep::PollResponse { uid: call.uid, polls: 0 }
    } else {
        try_from_place(call, senders, next + 1)
    }
}

/// The cache was asked for the status of the response.
pub fn polled_status(uid: String, polls: u32, found: Option<String>) -> (step: CallStep)
    requires
        polls < RESPONSE_POLLS,
    ensures
        step@ == status_polled(uid@, polls, found),
{
    match wait_for_response(polls, found) {
        Poll::Again(polls) => CallStep::PollResponse { uid, polls },
        Poll::Found(status) => CallStep::ReadBody { uid, status },
        Poll::GaveUp => CallStep::Finished(None),
    }
}

/// The cache was asked for the body of the response. The status that goes with it is one that
/// a response can carry.
pub fn read_body(status: &str, found: Option<String>) -> (step: CallStep)
    requires
        found is Some ==> read_status(status@) is Some,
    ensures
        step@ == body_read(status@, found),
{
    match found {
        Some(body) => match parse_status(status) {
            Some(status) => CallStep::Finished(Some(Reply { status, body })),
            None => CallStep::Finished(None),
        },
        None => CallStep::Finished(None),
    }
}

} // verus!

//! The server with all that goes on in it: its state, the scrapes in progress, the workers on
//! their way to a scrape, and the open connections.
//!
//! [`System::happens`] says what can happen, one thing at a time and in any order. Each thing is
//! what one function of the library does; what the network, the clock and the workers do is left
//! open.

use crate::connection::{newly_opened, reaction, ActionView, ConnectionView, Event, Reaction};
use crate::limits::Limits;
use crate::metrics::{CloseReason, ScrapeOutcome};
use crate::model::{IdentityView, ReservedView, StateView};
use crate::protocol::ClientMessage;
use crate::routes::posted;
use crate::scrape::{
    abandoned, answered_in_time, broadcast_done, candidates_lost, not_answered_in_time,
    not_ready_in_time, not_replaced_in_time, request_done, retries, starts, taken, worker_lost,
    ResponseView, ScrapeView, StepView,
};
use vstd::prelude::*;

verus! {

/// The server with all that goes on in it.
#[verifier::ext_equal]
pub struct System {
    pub state: StateView,
    /// What has to happen next in each scrape in progress.
    pub scrapes: Map<nat, StepView>,
    /// The workers that were selected for a scrape which has not taken them yet.
    pub winners: Map<nat, ReservedView>,
    /// The open connections by their number.
    pub connections: Map<u64, ConnectionView>,
}

/// Something that happens.
#[allow(inconsistent_fields)]
pub enum Happening {
    /// Prometheus asks for a resource.
    Started {
        k: nat,
        instance: Seq<char>,
        resource: Seq<char>,
        deadline: Option<u128>,
        now: u128,
        closed: Set<u64>,
        after: (StateView, StepView),
    },
    /// The candidates were asked whether they are ready.
    Asked {
        k: nat,
        delivered: Seq<bool>,
        now: u128,
        closed: Set<u64>,
        after: (StateView, StepView),
    },
    /// A scrape takes the worker that was selected for it.
    Selected { k: nat },
    /// Every candidate disconnected before one was selected.
    CandidatesLost { k: nat, now: u128, closed: Set<u64>, after: (StateView, StepView) },
    /// No candidate was selected in time, or one too late.
    ReadyTimedOut { k: nat },
    /// The request was sent to the worker, or could not be.
    RequestSent {
        k: nat,
        delivered: bool,
        now: u128,
        closed: Set<u64>,
        after: (StateView, StepView),
    },
    /// A scrape gets its response.
    Responded { k: nat, response: ResponseView },
    /// The worker disconnected or was replaced while the request was open.
    WorkerLost { k: nat, now: u128, closed: Set<u64>, after: (StateView, StepView) },
    /// The worker did not answer in time.
    ResponseTimedOut { k: nat },
    /// A scrape looks again for a worker.
    LookedAgain {
        k: nat,
        uid: Seq<char>,
        now: u128,
        closed: Set<u64>,
        after: (StateView, StepView),
    },
    /// No worker appeared in time.
    WaitExpired { k: nat },
    /// Nobody waits for the scrape any more.
    GivenUp { k: nat },
    /// The outcome of a scrape is counted.
    Concluded { outcome: ScrapeOutcome },
    /// A response is posted.
    Posted { uid: Seq<char>, status: u16, body: Seq<char> },
    /// A connection is opened.
    Opened { now: u128 },
    /// Something happens on a connection. Where that selects a worker, the scrape `recipient` gets
    /// it; without a recipient it is given back.
    OnConnection {
        link: u64,
        event: Event,
        now: u128,
        after: Reaction,
        recipient: Option<nat>,
    },
    /// A connection is closed.
    Closed { link: u64, reason: CloseReason },
}

/// The identifier of the request that a step has open.
pub open spec fn uid_of(step: StepView) -> Option<Seq<char>> {
    match step {
        StepView::SendReady { uid, .. } => Some(uid),
        StepView::AwaitReady { uid, .. } => Some(uid),
        StepView::SendRequest { uid, .. } => Some(uid),
        StepView::AwaitResponse { uid, .. } => Some(uid),
        _ => None,
    }
}

/// The worker that a step has taken.
pub open spec fn worker_of(step: StepView) -> Option<IdentityView> {
    match step {
        StepView::SendRequest { worker, .. } => Some(worker.identity),
        StepView::AwaitResponse { worker, .. } => Some(worker),
        _ => None,
    }
}

impl System {
    /// A server that has just started.
    pub open spec fn fresh(limits: Limits) -> System {
        System {
            state: StateView::fresh(limits),
            scrapes: Map::empty(),
            winners: Map::empty(),
            connections: Map::empty(),
        }
    }

    /// The worker that was selected for a scrape which has not taken it yet.
    pub open spec fn late(self, k: nat) -> Option<ReservedView> {
        if self.winners.contains_key(k) {
            Some(self.winners[k])
        } else {
            None
        }
    }

    /// The worker that a scrape holds.
    pub open spec fn owner(self, k: nat) -> Option<IdentityView> {
        if self.winners.contains_key(k) {
            Some(self.winners[k].identity)
        } else if self.scrapes.contains_key(k) {
            worker_of(self.scrapes[k])
        } else {
            None
        }
    }

    /// After a scrape went on, or was over.
    pub open spec fn with_step(self, k: nat, after: (StateView, StepView)) -> System {
        System {
            state: after.0,
            scrapes: if after.1 is Finished {
                self.scrapes.remove(k)
            } else {
                self.scrapes.insert(k, after.1)
            },
            winners: self.winners.remove(k),
            ..self
        }
    }

    /// No counter has run through.
    pub open spec fn has_numbers_left(self) -> bool {
        &&& self.state.generation < u64::MAX
        &&& self.state.next_link < u64::MAX
        &&& self.state.metrics.open_connections < i64::MAX
    }

    /// `recipient` waits for a worker that is ready to serve the request.
    pub open spec fn waits(self, recipient: nat, uid: Seq<char>) -> bool {
        &&& self.scrapes.contains_key(recipient)
        &&& !self.winners.contains_key(recipient)
        &&& self.scrapes[recipient] is AwaitReady
        &&& uid_of(self.scrapes[recipient]) == Some(uid)
    }

    /// After something happened on a connection.
    pub open spec fn reacted(self, link: u64, after: Reaction, recipient: Option<nat>) -> System {
        let connections = self.connections.insert(link, after.connection);
        match after.action {
            ActionView::Selected { uid, worker } => match recipient {
                Some(k) => System {
                    state: after.state,
                    winners: self.winners.insert(k, worker),
                    connections,
                    ..self
                },
                None => System {
                    state: after.state.released(worker.identity),
                    connections,
                    ..self
                },
            },
            _ => System { state: after.state, connections, ..self },
        }
    }

    /// `next` is the system after `what` happened. Once a counter has run through, connections
    /// are neither opened nor do they register workers.
    pub open spec fn happens(self, what: Happening, next: System) -> bool {
        match what {
            Happening::Started { k, instance, resource, deadline, now, closed, after } => {
                &&& !self.scrapes.contains_key(k)
                &&& starts(
                    self.state,
                    ScrapeView::fresh(instance, resource, deadline),
                    now,
                    closed,
                    after,
                )
                &&& next == self.with_step(k, after)
            },
            Happening::Asked { k, delivered, now, closed, after } => {
                &&& self.scrapes.contains_key(k)
                &&& self.scrapes[k] matches StepView::SendReady { scrape, uid, asked }
                &&& broadcast_done(self.state, scrape, uid, asked, delivered, now, closed, after)
                &&& next == self.with_step(k, after)
            },
            Happening::Selected { k } => {
                &&& self.scrapes.contains_key(k) && self.winners.contains_key(k)
                &&& self.scrapes[k] matches StepView::AwaitReady { scrape, uid, .. }
                &&& next == self.with_step(k, taken(self.state, scrape, uid, self.winners[k]))
            },
            Happening::CandidatesLost { k, now, closed, after } => {
                &&& self.scrapes.contains_key(k) && !self.winners.contains_key(k)
                &&& self.scrapes[k] matches StepView::AwaitReady { scrape, uid, asked, .. }
                &&& candidates_lost(self.state, scrape, uid, asked, now, closed, after)
                &&& next == self.with_step(k, after)
            },
            Happening::ReadyTimedOut { k } => {
                &&& self.scrapes.contains_key(k)
                &&& self.scrapes[k] matches StepView::AwaitReady { uid, .. }
                &&& next == self.with_step(k, not_ready_in_time(self.state, uid, self.late(k)))
            },
            Happening::RequestSent { k, delivered, now, closed, after } => {
                &&& self.scrapes.contains_key(k)
                &&& self.scrapes[k] matches StepView::SendRequest { scrape, uid, worker }
                &&& request_done(
                    self.state,
                    scrape,
                    uid,
                    worker.identity,
                    delivered,
                    now,
                    closed,
                    after,
                )
                &&& next == self.with_step(k, after)
            },
            Happening::Responded { k, response } => {
                &&& self.scrapes.contains_key(k)
                &&& self.scrapes[k] matches StepView::AwaitResponse { uid, worker, .. }
                &&& next == self.with_step(k, answered_in_time(self.state, uid, worker, response))
            },
            Happening::WorkerLost { k, now, closed, after } => {
                &&& self.scrapes.contains_key(k)
                &&& self.scrapes[k] matches StepView::AwaitResponse { scrape, uid, worker, .. }
                &&& worker_lost(self.state, scrape, uid, worker, now, closed, after)
                &&& next == self.with_step(k, after)
            },
            Happening::ResponseTimedOut { k } => {
                &&& self.scrapes.contains_key(k)
                &&& self.scrapes[k] matches StepView::AwaitResponse { uid, worker, .. }
                &&& next == self.with_step(k, not_answered_in_time(self.state, uid, worker))
            },
            Happening::LookedAgain { k, uid, now, closed, after } => {
                &&& self.scrapes.contains_key(k)
                &&& self.scrapes[k] matches StepView::AwaitWorker { scrape, until }
                &&& retries(self.state, scrape, until, uid, now, closed, after)
                &&& next == self.with_step(k, after)
            },
            Happening::WaitExpired { k } => {
                &&& self.scrapes.contains_key(k)
                &&& self.scrapes[k] is AwaitWorker
                &&& next == self.with_step(k, not_replaced_in_time(self.state))
            },
            Happening::GivenUp { k } => {
                &&& self.scrapes.contains_key(k)
                &&& next == System {
                    state: abandoned(self.state.returned(self.late(k)), self.scrapes[k]),
                    scrapes: self.scrapes.remove(k),
                    winners: self.winners.remove(k),
                    ..self
                }
            },
            Happening::Concluded { outcome } => next == System {
                state: self.state.concluded(outcome),
                ..self
            },
            Happening::Posted { uid, status, body } => next == System {
                state: posted(self.state, uid, status, body).state,
                ..self
            },
            Happening::Opened { now } => {
                &&& self.has_numbers_left()
                &&& next == System {
                    state: self.state.connected(),
                    connections: self.connections.insert(
                        self.state.next_link,
                        newly_opened(self.state, now),
                    ),
                    ..self
                }
            },
            Happening::OnConnection { link, event, now, after, recipient } => {
                &&& self.connections.contains_key(link)
                &&& event matches Event::Text(Some(ClientMessage::Register { .. }))
                    ==> self.has_numbers_left()
                &&& reaction(self.state, self.connections[link], event, now, after)
                &&& after.action matches ActionView::Selected { uid, .. } ==> (recipient matches
                    Some(k) ==> self.waits(k, uid))
                &&& next == self.reacted(link, after, recipient)
            },
            Happening::Closed { link, reason } => {
                &&& self.connections.contains_key(link)
                &&& next == System {
                    state: self.state.disconnected(self.connections[link].identity, reason),
                    connections: self.connections.remove(link),
                    ..self
                }
            },
        }
    }
}

/// A run of a server: it starts fresh, and each system follows on the one before by something that
/// happened.
pub open spec fn is_run(limits: Limits, run: Seq<System>, what: Seq<Happening>) -> bool {
    &&& run.len() == what.len() + 1
    &&& run[0] == System::fresh(limits)
    &&& forall|i: int| 0 <= i < what.len() ==> run[i].happens(#[trigger] what[i], run[i + 1])
}

} // verus!

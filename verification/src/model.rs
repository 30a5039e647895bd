//! What the server state means: workers by instance and name, open requests by identifier, and
//! how each operation changes them.

use crate::assoc::keys_where;
use crate::limits::{in_millis, silence, Limits, MAX_READY_CANDIDATES};
use crate::metrics::{version_class, CloseReason, MetricsView, ScrapeOutcome, Snapshot};
use vstd::prelude::*;

verus! {

/// One registration of a worker: the generation tells it from earlier ones of the same name.
#[verifier::ext_equal]
pub struct IdentityView {
    pub instance: Seq<char>,
    pub name: Seq<char>,
    pub generation: u64,
}

/// A worker is registered under its instance and its name.
pub type WorkerKey = (Seq<char>, Seq<char>);

impl IdentityView {
    pub open spec fn key(self) -> WorkerKey {
        (self.instance, self.name)
    }
}

/// A registered worker.
pub struct WorkerView {
    pub generation: u64,
    /// The wire version it speaks.
    pub version: u16,
    /// The connection that registered it.
    pub link: u64,
    /// It serves a scrape.
    pub busy: bool,
    /// When the last frame of its connection arrived, in milliseconds.
    pub last_seen: u64,
}

/// A worker that was taken for one scrape.
#[verifier::ext_equal]
pub struct ReservedView {
    pub identity: IdentityView,
    pub version: u16,
    pub link: u64,
}

/// A worker that is asked whether it is ready.
#[verifier::ext_equal]
pub struct CandidateView {
    pub identity: IdentityView,
    pub link: u64,
}

/// What an open request waits for.
pub enum PendingView {
    /// That one of these workers says it is ready.
    Ready { allowed: Set<IdentityView> },
    /// That this worker responds.
    Response { worker: IdentityView },
}

/// The workers that a selection found.
pub enum SelectionView {
    /// One worker of wire version 1, taken at once.
    Legacy(ReservedView),
    /// Workers that are to be asked whether they are ready.
    Ready(Seq<CandidateView>),
}

/// Why no worker was selected.
#[derive(Clone, Copy, Debug, Eq, PartialEq, Structural)]
pub enum ReserveError {
    /// No worker is registered for the instance.
    Unknown,
    /// Every worker of the instance is busy, stale, closing or excluded.
    Unavailable,
}

/// Under which circumstances workers are selected.
pub struct Conditions {
    pub instance: Seq<char>,
    /// Workers that must not be selected again.
    pub excluded: Set<IdentityView>,
    /// The current time in milliseconds.
    pub now: u64,
    /// Connections that take no more messages.
    pub closed: Set<u64>,
}

/// The state of the server.
#[verifier::ext_equal]
pub struct StateView {
    pub workers: Map<WorkerKey, WorkerView>,
    pub pending: Map<Seq<char>, PendingView>,
    /// How many admitted scrapes hold capacity.
    pub in_flight: nat,
    /// The generation that the next registration gets.
    pub generation: u64,
    /// The number that the next connection gets.
    pub next_link: u64,
    pub limits: Limits,
    pub metrics: MetricsView,
}

impl PendingView {
    /// What is left of the request when `id` is gone.
    pub open spec fn without(self, id: IdentityView) -> PendingView {
        match self {
            PendingView::Ready { allowed } => PendingView::Ready { allowed: allowed.remove(id) },
            PendingView::Response { worker } => self,
        }
    }

    /// The request waits for the worker.
    pub open spec fn waits_for(self, id: IdentityView) -> bool {
        match self {
            PendingView::Ready { allowed } => allowed.contains(id),
            PendingView::Response { worker } => worker == id,
        }
    }

    /// Somebody can answer the request.
    pub open spec fn can_be_answered(self) -> bool {
        exists|id: IdentityView| #[trigger] self.waits_for(id)
    }

    /// The request can still be answered when `id` is gone.
    pub open spec fn survives(self, id: IdentityView) -> bool {
        match self {
            PendingView::Ready { allowed } => exists|other: IdentityView| #[trigger]
                allowed.contains(other) && other != id,
            PendingView::Response { worker } => worker != id,
        }
    }
}

/// Tells of a worker whether its wire version is counted under `class`.
pub open spec fn counted_under(class: int) -> spec_fn(WorkerView) -> bool {
    |worker: WorkerView| version_class(worker.version) == class
}

/// The open requests that remain when `id` is gone.
pub open spec fn pending_without(
    pending: Map<Seq<char>, PendingView>,
    id: IdentityView,
) -> Map<Seq<char>, PendingView> {
    Map::new(
        |uid: Seq<char>| pending.contains_key(uid) && pending[uid].survives(id),
        |uid: Seq<char>| pending[uid].without(id),
    )
}

impl StateView {
    /// A server without workers and requests.
    pub open spec fn fresh(limits: Limits) -> StateView {
        StateView {
            workers: Map::empty(),
            pending: Map::empty(),
            in_flight: 0,
            generation: 1,
            next_link: 0,
            limits,
            metrics: MetricsView::zero(),
        }
    }

    /// Some worker is registered for the instance.
    pub open spec fn knows(self, instance: Seq<char>) -> bool {
        exists|name: Seq<char>| #[trigger] self.workers.contains_key((instance, name))
    }

    /// How many workers are registered whose wire version is counted under `class`.
    pub open spec fn class_size(self, class: int) -> nat {
        keys_where(self.workers, counted_under(class)).len()
    }

    /// There are only so many workers and requests.
    pub open spec fn finite(self) -> bool {
        self.workers.dom().finite() && self.pending.dom().finite()
    }

    /// The gauges show the state.
    pub open spec fn shows(self, snapshot: Snapshot) -> bool {
        &&& self.finite()
        &&& forall|class: int|
            0 <= class < 3 ==> #[trigger] snapshot.workers_by_version@[class] == self.class_size(
                class,
            )
        &&& snapshot.pending == self.pending.dom().len()
        &&& snapshot.in_flight == self.in_flight
    }

    /// The registration is current: it was neither ended nor replaced.
    pub open spec fn holds(self, id: IdentityView) -> bool {
        self.workers.contains_key(id.key()) && self.workers[id.key()].generation == id.generation
    }

    /// The registration is current and serves no scrape.
    pub open spec fn idle(self, id: IdentityView) -> bool {
        self.holds(id) && !self.workers[id.key()].busy
    }

    /// The current registration under a key.
    pub open spec fn identity_of(self, key: WorkerKey) -> IdentityView {
        IdentityView {
            instance: key.0,
            name: key.1,
            generation: self.workers[key].generation,
        }
    }

    /// The worker under a key, as a scrape takes it.
    pub open spec fn reserved_of(self, key: WorkerKey) -> ReservedView {
        ReservedView {
            identity: self.identity_of(key),
            version: self.workers[key].version,
            link: self.workers[key].link,
        }
    }

    /// The worker under a key, as it is asked whether it is ready.
    pub open spec fn candidate_of(self, key: WorkerKey) -> CandidateView {
        CandidateView { identity: self.identity_of(key), link: self.workers[key].link }
    }

    /// The worker under `key` may serve a scrape.
    pub open spec fn usable(self, key: WorkerKey, terms: Conditions) -> bool {
        &&& self.workers.contains_key(key)
        &&& key.0 == terms.instance
        &&& !self.workers[key].busy
        &&& !terms.closed.contains(self.workers[key].link)
        &&& !terms.excluded.contains(self.identity_of(key))
        &&& silence(terms.now, self.workers[key].last_seen) <= in_millis(self.limits.stale_after)
    }

    /// The worker under `key` may be asked whether it is ready.
    pub open spec fn usable_ready(self, key: WorkerKey, terms: Conditions) -> bool {
        self.usable(key, terms) && self.workers[key].version >= 2
    }

    /// The worker under `key` may be given a request without being asked.
    pub open spec fn usable_legacy(self, key: WorkerKey, terms: Conditions) -> bool {
        self.usable(key, terms) && self.workers[key].version < 2
    }

    /// Some worker may be asked whether it is ready.
    pub open spec fn any_ready(self, terms: Conditions) -> bool {
        exists|key: WorkerKey| #[trigger] self.usable_ready(key, terms)
    }

    /// Some worker may be given a request without being asked.
    pub open spec fn any_legacy(self, terms: Conditions) -> bool {
        exists|key: WorkerKey| #[trigger] self.usable_legacy(key, terms)
    }

    /// `asked` lists workers that may be asked whether they are ready, each once: all of them,
    /// or as many as may be asked at a time.
    pub open spec fn asks(self, asked: Seq<CandidateView>, terms: Conditions) -> bool {
        &&& 0 < asked.len() <= MAX_READY_CANDIDATES
        &&& forall|i: int|
            0 <= i < asked.len() ==> {
                let key = (#[trigger] asked[i]).identity.key();
                self.usable_ready(key, terms) && asked[i] == self.candidate_of(key)
            }
        &&& forall|i: int, j: int|
            0 <= i < j < asked.len() ==> (#[trigger] asked[i]).identity != (
            #[trigger] asked[j]).identity
        &&& asked.len() < MAX_READY_CANDIDATES ==> forall|key: WorkerKey| #[trigger]
            self.usable_ready(key, terms) ==> asked.contains(self.candidate_of(key))
    }

    /// `selection` is what a selection under these conditions may find.
    pub open spec fn offers(
        self,
        terms: Conditions,
        selection: Result<SelectionView, ReserveError>,
    ) -> bool {
        match selection {
            Ok(SelectionView::Ready(asked)) => self.asks(asked, terms),
            Ok(SelectionView::Legacy(worker)) => {
                &&& !self.any_ready(terms)
                &&& self.usable_legacy(worker.identity.key(), terms)
                &&& worker == self.reserved_of(worker.identity.key())
            },
            Err(ReserveError::Unknown) => !self.knows(terms.instance),
            Err(ReserveError::Unavailable) => {
                &&& self.knows(terms.instance)
                &&& !self.any_ready(terms)
                &&& !self.any_legacy(terms)
            },
        }
    }

    /// After the worker of a registration became busy or idle.
    pub open spec fn with_busy(self, id: IdentityView, busy: bool) -> StateView {
        StateView {
            workers: self.workers.insert(
                id.key(),
                WorkerView { busy, ..self.workers[id.key()] },
            ),
            ..self
        }
    }

    /// After a selection: a worker of wire version 1 is taken, the others are only asked.
    pub open spec fn selected(self, selection: SelectionView) -> StateView {
        match selection {
            SelectionView::Legacy(worker) => self.with_busy(worker.identity, true),
            SelectionView::Ready(_) => self,
        }
    }

    /// After the requests that only `id` could answer are dropped.
    pub open spec fn forgotten(self, id: IdentityView) -> StateView {
        StateView { pending: pending_without(self.pending, id), ..self }
    }

    /// The registration that the next worker gets.
    pub open spec fn next_identity(self, instance: Seq<char>, name: Seq<char>) -> IdentityView {
        IdentityView { instance, name, generation: self.generation }
    }

    /// The connection that loses its worker when one registers under this name.
    pub open spec fn evicted(self, instance: Seq<char>, name: Seq<char>) -> Option<u64> {
        if self.workers.contains_key((instance, name)) {
            Some(self.workers[(instance, name)].link)
        } else {
            None
        }
    }

    /// After a connection registered a worker.
    pub open spec fn registered(
        self,
        instance: Seq<char>,
        name: Seq<char>,
        version: u16,
        link: u64,
        last_seen: u64,
    ) -> StateView {
        let key = (instance, name);
        let known = if self.workers.contains_key(key) {
            self.forgotten(self.identity_of(key))
        } else {
            self
        };
        StateView {
            workers: self.workers.insert(
                key,
                WorkerView {
                    generation: self.generation,
                    version,
                    link,
                    busy: false,
                    last_seen,
                },
            ),
            generation: self.generation.wrapping_add(1),
            metrics: self.metrics.registered(version),
            ..known
        }
    }

    /// After a registration ended. One that is no longer current ends without effect.
    pub open spec fn unregistered(self, id: IdentityView) -> StateView {
        if self.holds(id) {
            StateView { workers: self.workers.remove(id.key()), ..self.forgotten(id) }
        } else {
            self
        }
    }

    /// After a frame arrived on a connection.
    pub open spec fn touched(self, link: u64, now: u64) -> StateView {
        StateView {
            workers: Map::new(
                |key: WorkerKey| self.workers.contains_key(key),
                |key: WorkerKey|
                    if self.workers[key].link == link {
                        WorkerView { last_seen: now, ..self.workers[key] }
                    } else {
                        self.workers[key]
                    },
            ),
            ..self
        }
    }

    /// After a scrape released its worker. A registration that is no longer current is released
    /// without effect.
    pub open spec fn released(self, id: IdentityView) -> StateView {
        if self.holds(id) {
            self.with_busy(id, false)
        } else {
            self
        }
    }

    /// After a worker was given back that had been taken for a scrape and was not used, if there
    /// is one.
    pub open spec fn returned(self, unused: Option<ReservedView>) -> StateView {
        match unused {
            Some(worker) => self.released(worker.identity),
            None => self,
        }
    }

    /// After an attempt ended: its request is closed and its worker, if it has one, released.
    pub open spec fn finished(self, worker: Option<IdentityView>, uid: Seq<char>) -> StateView {
        let closed = StateView { pending: self.pending.remove(uid), ..self };
        match worker {
            Some(id) => closed.released(id),
            None => closed,
        }
    }

    /// After a request was opened that waits for a ready worker.
    pub open spec fn awaiting_ready(
        self,
        uid: Seq<char>,
        allowed: Set<IdentityView>,
    ) -> StateView {
        StateView { pending: self.pending.insert(uid, PendingView::Ready { allowed }), ..self }
    }

    /// After a request was opened that waits for the response of a worker.
    pub open spec fn awaiting_response(self, uid: Seq<char>, worker: IdentityView) -> StateView {
        StateView { pending: self.pending.insert(uid, PendingView::Response { worker }), ..self }
    }

    /// `id` is among the workers that the request waits for.
    pub open spec fn invited(self, uid: Seq<char>, id: IdentityView) -> bool {
        &&& self.pending.contains_key(uid)
        &&& self.pending[uid] matches PendingView::Ready { allowed }
        &&& allowed.contains(id)
    }

    /// After `id` is no longer among the workers that the request waits for. A request that
    /// waits for no other worker is dropped.
    pub open spec fn uninvited(self, uid: Seq<char>, id: IdentityView) -> StateView {
        if self.pending.contains_key(uid) && self.pending[uid] is Ready {
            if self.pending[uid].survives(id) {
                StateView {
                    pending: self.pending.insert(uid, self.pending[uid].without(id)),
                    ..self
                }
            } else {
                StateView { pending: self.pending.remove(uid), ..self }
            }
        } else {
            self
        }
    }

    /// The worker that the request gets when `id` says that it is ready.
    pub open spec fn winner(self, uid: Seq<char>, id: IdentityView) -> Option<ReservedView> {
        if self.invited(uid, id) && self.idle(id) {
            Some(self.reserved_of(id.key()))
        } else {
            None
        }
    }

    /// After `id` said that it is ready to serve the request.
    pub open spec fn marked_ready(self, uid: Seq<char>, id: IdentityView) -> StateView {
        if self.invited(uid, id) {
            if self.idle(id) {
                StateView { pending: self.pending.remove(uid), ..self.with_busy(id, true) }
            } else {
                self.uninvited(uid, id)
            }
        } else {
            self
        }
    }

    /// A response of `worker`, or of whoever posted it, answers the request.
    pub open spec fn answers(self, uid: Seq<char>, worker: Option<IdentityView>) -> bool {
        &&& self.pending.contains_key(uid)
        &&& self.pending[uid] matches PendingView::Response { worker: expected }
        &&& worker matches Some(id) ==> id == expected
    }

    /// After a response arrived.
    pub open spec fn answered(self, uid: Seq<char>, worker: Option<IdentityView>) -> StateView {
        if self.answers(uid, worker) {
            StateView { pending: self.pending.remove(uid), ..self }
        } else {
            self
        }
    }

    /// What a scrape of the instance is refused with, if it is.
    pub open spec fn refusal(self, instance: Seq<char>) -> Option<ScrapeOutcome> {
        if !self.knows(instance) {
            Some(ScrapeOutcome::UnknownInstance)
        } else if self.in_flight >= self.limits.max_in_flight {
            Some(ScrapeOutcome::Capacity)
        } else {
            None
        }
    }

    /// After a connection was opened.
    pub open spec fn connected(self) -> StateView {
        StateView {
            next_link: self.next_link.wrapping_add(1),
            metrics: self.metrics.opened(),
            ..self
        }
    }

    /// After a connection was closed that had registered `id`, if it had registered any.
    pub open spec fn disconnected(
        self,
        id: Option<IdentityView>,
        reason: CloseReason,
    ) -> StateView {
        let counted = StateView { metrics: self.metrics.closed(reason), ..self };
        match id {
            Some(worker) => counted.unregistered(worker),
            None => counted,
        }
    }

    /// After a scrape was dispatched again.
    pub open spec fn retried(self) -> StateView {
        StateView { metrics: self.metrics.retried(), ..self }
    }

    /// After the outcome of a scrape was counted.
    pub open spec fn concluded(self, outcome: ScrapeOutcome) -> StateView {
        StateView { metrics: self.metrics.finished(outcome), ..self }
    }

    /// After a scrape took capacity.
    pub open spec fn admitted(self) -> StateView {
        StateView { in_flight: self.in_flight + 1, ..self }
    }

    /// After a scrape gave its capacity back.
    pub open spec fn discharged(self) -> StateView {
        StateView {
            in_flight: if self.in_flight > 0 {
                (self.in_flight - 1) as nat
            } else {
                0
            },
            ..self
        }
    }
}

} // verus!

//! What holds of every system that a run of the server reaches.

use crate::connection::{enrolment, seen, seen_state, ConnectionView, Event, Reaction};
use crate::laws::{in_step, only_usable_workers_are_selected, scrape_of};
use crate::limits::{Limits, MAX_DISPATCH_ATTEMPTS};
use crate::metrics::CloseReason;
use crate::model::{
    CandidateView, IdentityView, PendingView, ReserveError, ReservedView, SelectionView, StateView,
    WorkerKey,
};
use crate::outside::is_random_uuid;
use crate::protocol::ClientMessage;
use crate::scrape::{
    asked_identities, asked_state, attempted, begins, begins_anew, broadcast_done, dispatched,
    goes_on, was_delivered, ScrapeView, StepView,
};
use crate::state::may_be_named;
use crate::system::{is_run, uid_of, worker_of, Happening, System};
use vstd::prelude::*;

verus! {

/// The request waits for the response of the worker.
pub open spec fn claims(state: StateView, uid: Seq<char>, id: IdentityView) -> bool {
    state.pending.contains_key(uid) && state.pending[uid] == (PendingView::Response { worker: id })
}

impl System {
    /// Some scrape holds the worker.
    pub open spec fn is_owned(self, id: IdentityView) -> bool {
        exists|k: nat| #[trigger] self.owner(k) == Some(id)
    }

    /// Some scrape in progress has the request open.
    pub open spec fn is_asked_for(self, uid: Seq<char>) -> bool {
        exists|k: nat| #[trigger]
            self.scrapes.contains_key(k) && uid_of(self.scrapes[k]) == Some(uid)
    }

    /// Some scrape in progress has sent the request to the worker.
    pub open spec fn is_served(self, uid: Seq<char>, id: IdentityView) -> bool {
        exists|k: nat| #[trigger]
            self.scrapes.contains_key(k) && uid_of(self.scrapes[k]) == Some(uid) && worker_of(
                self.scrapes[k],
            ) == Some(id)
    }

    /// Every scrape in progress holds capacity and keeps to its attempts; a worker is on its way
    /// only to a scrape that waits for one.
    pub open spec fn scrapes_fit(self) -> bool {
        &&& self.scrapes.dom().finite()
        &&& self.state.in_flight == self.scrapes.dom().len()
        &&& self.state.in_flight <= self.state.limits.max_in_flight
        &&& forall|k: nat| #[trigger]
            self.scrapes.contains_key(k) ==> {
                &&& self.scrapes[k] !is Finished
                &&& scrape_of(self.scrapes[k]) matches Some(scrape) && scrape.attempt
                    <= MAX_DISPATCH_ATTEMPTS
            }
        &&& forall|k: nat| #[trigger]
            self.winners.contains_key(k) ==> self.scrapes.contains_key(k)
                && self.scrapes[k] is AwaitReady
    }

    /// No worker is held by two scrapes; the workers that are held, as far as they are
    /// registered, are busy, and no others are.
    pub open spec fn workers_fit(self) -> bool {
        &&& forall|j: nat, k: nat|
            #![trigger self.owner(j), self.owner(k)]
            self.owner(j) is Some && self.owner(j) == self.owner(k) ==> j == k
        &&& forall|k: nat| #[trigger]
            self.owner(k) is Some && self.state.holds(self.owner(k)->0)
                ==> self.state.workers[self.owner(k)->0.key()].busy
        &&& forall|key: WorkerKey| #[trigger]
            self.state.workers.contains_key(key) && self.state.workers[key].busy
                ==> self.is_owned(self.state.identity_of(key))
    }

    /// Every open request belongs to a scrape in progress and can be answered; one that waits for
    /// the response of a worker belongs to the scrape that holds the worker.
    pub open spec fn requests_fit(self) -> bool {
        &&& forall|uid: Seq<char>| #[trigger]
            self.state.pending.contains_key(uid) ==> self.is_asked_for(uid)
                && self.state.pending[uid].can_be_answered()
        &&& forall|uid: Seq<char>, id: IdentityView| #[trigger]
            claims(self.state, uid, id) ==> self.is_served(uid, id)
    }

    /// Every registration that is known anywhere is older than the next one will be.
    pub open spec fn generations_fit(self) -> bool {
        &&& forall|key: WorkerKey| #[trigger]
            self.state.workers.contains_key(key) ==> self.state.workers[key].generation
                < self.state.generation
        &&& forall|uid: Seq<char>, id: IdentityView|
            self.state.pending.contains_key(uid) && #[trigger] self.state.pending[uid].waits_for(id)
                ==> id.generation < self.state.generation
        &&& forall|k: nat| #[trigger]
            self.owner(k) is Some ==> self.owner(k)->0.generation < self.state.generation
        &&& forall|link: u64| #[trigger]
            self.connections.contains_key(link) && self.connections[link].identity is Some
                ==> self.connections[link].identity->0.generation < self.state.generation
    }

    /// Every registered worker belongs to an open connection, which is as recent as the worker;
    /// the counters are complete, and the gauge shows how many connections are open.
    pub open spec fn connections_fit(self) -> bool {
        &&& self.connections.dom().finite()
        &&& self.state.metrics.complete()
        &&& self.state.metrics.open_connections == self.connections.dom().len()
        &&& forall|link: u64| #[trigger]
            self.connections.contains_key(link) ==> {
                &&& self.connections[link].link == link
                &&& link < self.state.next_link
                &&& in_step(self.state, self.connections[link])
            }
        &&& forall|key: WorkerKey| #[trigger]
            self.state.workers.contains_key(key) ==> {
                let link = self.state.workers[key].link;
                &&& self.connections.contains_key(link)
                &&& self.connections[link].identity == Some(self.state.identity_of(key))
            }
    }

    /// What holds of every system that a run reaches.
    pub open spec fn sound(self) -> bool {
        &&& self.scrapes_fit()
        &&& self.workers_fit()
        &&& self.requests_fit()
        &&& self.generations_fit()
        &&& self.connections_fit()
    }

    /// The system in another state.
    spec fn in_state(self, state: StateView) -> System {
        System { state, ..self }
    }

    /// The system in which a connection and the state changed.
    spec fn on_connection(self, state: StateView, connection: ConnectionView) -> System {
        System {
            state,
            connections: self.connections.insert(connection.link, connection),
            ..self
        }
    }

    /// The system in which a scrape is over that held nothing but capacity.
    spec fn without(self, k: nat) -> System {
        System { state: self.state.discharged(), scrapes: self.scrapes.remove(k), ..self }
    }

    /// The system in which a scrape was admitted and looks for a worker.
    spec fn with_scrape(self, k: nat, scrape: ScrapeView) -> System {
        System {
            state: self.state.admitted(),
            scrapes: self.scrapes.insert(k, StepView::AwaitWorker { scrape, until: 0 }),
            ..self
        }
    }

    /// The system in which a scrape has given back its request and its worker, and looks for
    /// another worker.
    spec fn freed(self, k: nat) -> System {
        System {
            state: match uid_of(self.scrapes[k]) {
                Some(uid) => self.state.finished(self.owner(k), uid),
                None => self.state,
            },
            scrapes: self.scrapes.insert(
                k,
                StepView::AwaitWorker { scrape: scrape_of(self.scrapes[k])->0, until: 0 },
            ),
            winners: self.winners.remove(k),
            ..self
        }
    }
}

/// A server starts sound.
pub proof fn a_server_starts_sound(limits: Limits)
    ensures
        System::fresh(limits).sound(),
{
}

proof fn lemma_freed(system: System, k: nat)
    requires
        system.sound(),
        system.scrapes.contains_key(k),
    ensures
        system.freed(k).sound(),
{
    let after = system.freed(k);
    let mine = system.owner(k);
    assert(after.scrapes.dom() =~= system.scrapes.dom());
    assert forall|j: nat| #[trigger] after.owner(j) == (if j == k {
        None
    } else {
        system.owner(j)
    }) by {}
    assert forall|key: WorkerKey| #[trigger]
        after.state.workers.contains_key(key) && after.state.workers[key].busy implies
        after.is_owned(after.state.identity_of(key)) by {
        let id = system.state.identity_of(key);
        assert(system.state.workers.contains_key(key));
        let j = choose|j: nat| #[trigger] system.owner(j) == Some(id);
        assert(after.owner(j) == Some(id));
    }
    assert forall|j: nat| #[trigger]
        after.owner(j) is Some && after.state.holds(after.owner(j)->0) implies
        after.state.workers[after.owner(j)->0.key()].busy by {
        assert(system.owner(j) is Some);
        if mine is Some {
            assert(system.owner(k) is Some);
        }
    }
    assert forall|uid: Seq<char>| #[trigger] after.state.pending.contains_key(uid) implies
        after.is_asked_for(uid) && after.state.pending[uid].can_be_answered() by {
        assert(system.state.pending.contains_key(uid));
        let j = choose|j: nat| #[trigger]
            system.scrapes.contains_key(j) && uid_of(system.scrapes[j]) == Some(uid);
        assert(after.scrapes.contains_key(j) && j != k);
    }
    assert forall|uid: Seq<char>, id: IdentityView| #[trigger]
        claims(after.state, uid, id) implies after.is_served(uid, id) by {
        assert(claims(system.state, uid, id));
        let j = choose|j: nat| #[trigger]
            system.scrapes.contains_key(j) && uid_of(system.scrapes[j]) == Some(uid) && worker_of(
                system.scrapes[j],
            ) == Some(id);
        assert(after.scrapes.contains_key(j) && j != k);
    }
}

/// Where the workers and the requests stay as they are, and so does every scrape that has a
/// request open, the workers and the requests fit as before.
proof fn lemma_same_scrapes(system: System, after: System)
    requires
        system.sound(),
        after.state.workers == system.state.workers,
        after.state.pending == system.state.pending,
        forall|j: nat| #[trigger] after.owner(j) == system.owner(j),
        forall|j: nat| #[trigger]
            system.scrapes.contains_key(j) && uid_of(system.scrapes[j]) is Some
                ==> after.scrapes.contains_key(j) && uid_of(after.scrapes[j]) == uid_of(
                system.scrapes[j],
            ) && worker_of(after.scrapes[j]) == worker_of(system.scrapes[j]),
    ensures
        after.workers_fit(),
        after.requests_fit(),
{
    assert forall|key: WorkerKey| #[trigger]
        after.state.workers.contains_key(key) && after.state.workers[key].busy implies
        after.is_owned(after.state.identity_of(key)) by {
        let id = system.state.identity_of(key);
        assert(system.state.workers.contains_key(key));
        let j = choose|j: nat| #[trigger] system.owner(j) == Some(id);
        assert(after.owner(j) == Some(id));
    }
    assert forall|j: nat| #[trigger]
        after.owner(j) is Some && after.state.holds(after.owner(j)->0) implies
        after.state.workers[after.owner(j)->0.key()].busy by {
        assert(system.owner(j) is Some);
    }
    assert forall|i: nat, j: nat|
        #![trigger after.owner(i), after.owner(j)]
        after.owner(i) is Some && after.owner(i) == after.owner(j) implies i == j by {
        assert(system.owner(i) == system.owner(j));
    }
    assert forall|uid: Seq<char>| #[trigger] after.state.pending.contains_key(uid) implies
        after.is_asked_for(uid) && after.state.pending[uid].can_be_answered() by {
        assert(system.state.pending.contains_key(uid));
        let j = choose|j: nat| #[trigger]
            system.scrapes.contains_key(j) && uid_of(system.scrapes[j]) == Some(uid);
        assert(after.scrapes.contains_key(j));
    }
    assert forall|uid: Seq<char>, id: IdentityView| #[trigger]
        claims(after.state, uid, id) implies after.is_served(uid, id) by {
        assert(claims(system.state, uid, id));
        let j = choose|j: nat| #[trigger]
            system.scrapes.contains_key(j) && uid_of(system.scrapes[j]) == Some(uid) && worker_of(
                system.scrapes[j],
            ) == Some(id);
        assert(after.scrapes.contains_key(j));
    }
}

/// A scrape that holds nothing but capacity may end.
proof fn lemma_without(system: System, k: nat)
    requires
        system.sound(),
        system.scrapes.contains_key(k),
        system.scrapes[k] is AwaitWorker,
    ensures
        system.without(k).sound(),
{
    let after = system.without(k);
    assert(after.scrapes.dom() =~= system.scrapes.dom().remove(k));
    assert forall|j: nat| #[trigger] after.owner(j) == system.owner(j) by {}
    lemma_same_scrapes(system, after);
}

/// A scrape may be admitted where capacity is left.
proof fn lemma_with_scrape(system: System, k: nat, scrape: ScrapeView)
    requires
        system.sound(),
        !system.scrapes.contains_key(k),
        system.state.in_flight < system.state.limits.max_in_flight,
        scrape.attempt <= MAX_DISPATCH_ATTEMPTS,
    ensures
        system.with_scrape(k, scrape).sound(),
{
    let after = system.with_scrape(k, scrape);
    assert(after.scrapes.dom() =~= system.scrapes.dom().insert(k));
    assert forall|j: nat| #[trigger] after.owner(j) == system.owner(j) by {}
    lemma_same_scrapes(system, after);
}

/// The counters may change, as long as they stay complete and the gauge stays as it is.
proof fn lemma_counted(system: System, state: StateView)
    requires
        system.sound(),
        state == (StateView { metrics: state.metrics, ..system.state }),
        state.metrics.complete(),
        state.metrics.open_connections == system.state.metrics.open_connections,
    ensures
        system.in_state(state).sound(),
{
    let after = system.in_state(state);
    assert forall|j: nat| #[trigger] after.owner(j) == system.owner(j) by {}
    lemma_same_scrapes(system, after);
    assert forall|link: u64| #[trigger] after.connections.contains_key(link) implies in_step(
        after.state,
        after.connections[link],
    ) by {
        assert(in_step(system.state, system.connections[link]));
    }
}

/// A scrape that looks for a worker may be handed to the ones that a selection found.
proof fn lemma_dispatched(
    system: System,
    k: nat,
    scrape: ScrapeView,
    uid: Seq<char>,
    now: u128,
    closed: Set<u64>,
    found: SelectionView,
)
    requires
        system.sound(),
        system.scrapes.contains_key(k),
        system.scrapes[k] is AwaitWorker,
        scrape.attempt <= MAX_DISPATCH_ATTEMPTS,
        system.state.offers(scrape.terms(now, closed), Ok(found)),
    ensures
        system.with_step(k, dispatched(system.state, scrape, uid, found)).sound(),
{
    let state = system.state;
    let after = system.with_step(k, dispatched(state, scrape, uid, found));
    let terms = scrape.terms(now, closed);
    only_usable_workers_are_selected(state, terms, found);
    assert(after.scrapes.dom() =~= system.scrapes.dom());
    let taken = match found {
        SelectionView::Legacy(worker) => Some(worker.identity),
        SelectionView::Ready(_) => None,
    };
    assert forall|j: nat| #[trigger] after.owner(j) == (if j == k {
        taken
    } else {
        system.owner(j)
    }) by {}
    // A worker that is selected is idle, so that no scrape holds it.
    assert forall|j: nat| taken is Some implies #[trigger] system.owner(j) != taken by {
        if system.owner(j) == taken && taken is Some {
            assert(system.owner(j) is Some);
        }
    }
    assert forall|i: nat, j: nat|
        #![trigger after.owner(i), after.owner(j)]
        after.owner(i) is Some && after.owner(i) == after.owner(j) implies i == j by {
        assert(system.owner(i) is Some || i == k);
        assert(system.owner(j) is Some || j == k);
    }
    assert forall|j: nat| #[trigger]
        after.owner(j) is Some && after.state.holds(after.owner(j)->0) implies
        after.state.workers[after.owner(j)->0.key()].busy by {
        if j != k {
            assert(system.owner(j) is Some);
        }
    }
    assert forall|key: WorkerKey| #[trigger]
        after.state.workers.contains_key(key) && after.state.workers[key].busy implies
        after.is_owned(after.state.identity_of(key)) by {
        let id = after.state.identity_of(key);
        if Some(id) == taken {
            assert(after.owner(k) == Some(id));
        } else {
            assert(state.workers.contains_key(key));
            assert(state.identity_of(key) == id);
            let j = choose|j: nat| #[trigger] system.owner(j) == Some(id);
            assert(after.owner(j) == Some(id));
        }
    }
    match found {
        SelectionView::Legacy(worker) => {
            assert((PendingView::Response { worker: worker.identity }).waits_for(worker.identity));
        },
        SelectionView::Ready(asked) => {
            lemma_asked_somebody(asked);
        },
    }
    lemma_opened_request(system, after, k, uid);
    assert forall|other: Seq<char>, id: IdentityView|
        after.state.pending.contains_key(other) && #[trigger] after.state.pending[other].waits_for(
            id,
        ) implies id.generation < after.state.generation by {
        if other == uid {
            match found {
                SelectionView::Legacy(worker) => {},
                SelectionView::Ready(asked) => {
                    let i = choose|i: int|
                        0 <= i < asked.len() && (#[trigger] asked[i]).identity == id;
                    assert(state.idle(id));
                    assert(state.workers.contains_key(id.key()));
                },
            }
        } else {
            assert(system.state.pending[other].waits_for(id));
        }
    }
    assert forall|link: u64| #[trigger] after.connections.contains_key(link) implies in_step(
        after.state,
        after.connections[link],
    ) by {
        assert(in_step(system.state, system.connections[link]));
    }
    assert forall|key: WorkerKey| #[trigger] after.state.workers.contains_key(key) implies {
        let link = after.state.workers[key].link;
        &&& after.connections.contains_key(link)
        &&& after.connections[link].identity == Some(after.state.identity_of(key))
    } by {
        assert(state.workers.contains_key(key));
    }
}

proof fn lemma_asked_somebody(asked: Seq<CandidateView>)
    requires
        asked.len() > 0,
    ensures
        (PendingView::Ready { allowed: asked_identities(asked) }).can_be_answered(),
{
    let id = asked[0].identity;
    assert(asked_identities(asked).contains(id));
    assert((PendingView::Ready { allowed: asked_identities(asked) }).waits_for(id));
}

/// Where one scrape opens a request that can be answered, and the others keep theirs, the requests
/// fit as before.
proof fn lemma_opened_request(system: System, after: System, k: nat, uid: Seq<char>)
    requires
        system.sound(),
        after.scrapes.contains_key(k),
        uid_of(after.scrapes[k]) == Some(uid),
        system.scrapes.contains_key(k) ==> uid_of(system.scrapes[k]) is None || (uid_of(
            system.scrapes[k],
        ) == Some(uid) && worker_of(system.scrapes[k]) is None),
        forall|j: nat| #[trigger]
            system.scrapes.contains_key(j) && j != k ==> after.scrapes.contains_key(j)
                && after.scrapes[j] == system.scrapes[j],
        after.state.pending.contains_key(uid),
        after.state.pending[uid].can_be_answered(),
        after.state.pending[uid] matches PendingView::Response { worker } ==> worker_of(
            after.scrapes[k],
        ) == Some(worker),
        after.state.pending == system.state.pending.insert(uid, after.state.pending[uid]),
    ensures
        after.requests_fit(),
{
    assert forall|other: Seq<char>| #[trigger] after.state.pending.contains_key(other) implies
        after.is_asked_for(other) && after.state.pending[other].can_be_answered() by {
        if other == uid {
            assert(after.scrapes.contains_key(k));
        } else {
            assert(system.state.pending.contains_key(other));
            let j = choose|j: nat| #[trigger]
                system.scrapes.contains_key(j) && uid_of(system.scrapes[j]) == Some(other);
            assert(after.scrapes.contains_key(j));
        }
    }
    assert forall|other: Seq<char>, id: IdentityView| #[trigger]
        claims(after.state, other, id) implies after.is_served(other, id) by {
        if other == uid {
            assert(after.scrapes.contains_key(k));
        } else {
            assert(claims(system.state, other, id));
            let j = choose|j: nat| #[trigger]
                system.scrapes.contains_key(j) && uid_of(system.scrapes[j]) == Some(other)
                    && worker_of(system.scrapes[j]) == Some(id);
            assert(after.scrapes.contains_key(j));
        }
    }
}

/// A scrape may go on in another step with the same request and the same worker.
proof fn lemma_same_holdings(system: System, k: nat, step: StepView)
    requires
        system.sound(),
        system.scrapes.contains_key(k),
        !system.winners.contains_key(k),
        step !is Finished,
        uid_of(step) == uid_of(system.scrapes[k]),
        worker_of(step) == worker_of(system.scrapes[k]),
        scrape_of(step)->0.attempt <= MAX_DISPATCH_ATTEMPTS,
    ensures
        system.with_step(k, (system.state, step)).sound(),
{
    let after = system.with_step(k, (system.state, step));
    assert(after.scrapes.dom() =~= system.scrapes.dom());
    assert(after.winners =~= system.winners);
    assert forall|j: nat| #[trigger] after.owner(j) == system.owner(j) by {}
    lemma_same_scrapes(system, after);
}

/// A scrape may take the worker that was selected for it and open the request to it.
proof fn lemma_selected(system: System, k: nat, next: System)
    requires
        system.sound(),
        system.happens(Happening::Selected { k }, next),
    ensures
        next.sound(),
{
    let id = system.winners[k].identity;
    let uid = uid_of(system.scrapes[k])->0;
    assert(next.scrapes.dom() =~= system.scrapes.dom());
    assert forall|j: nat| #[trigger] next.owner(j) == system.owner(j) by {}
    assert(system.owner(k) == Some(id));
    assert((PendingView::Response { worker: id }).waits_for(id));
    lemma_opened_request(system, next, k, uid);
    assert forall|key: WorkerKey| #[trigger]
        next.state.workers.contains_key(key) && next.state.workers[key].busy implies next.is_owned(
        next.state.identity_of(key),
    ) by {
        let other = system.state.identity_of(key);
        assert(system.state.workers.contains_key(key));
        let j = choose|j: nat| #[trigger] system.owner(j) == Some(other);
        assert(next.owner(j) == Some(other));
    }
    assert forall|i: nat, j: nat|
        #![trigger next.owner(i), next.owner(j)]
        next.owner(i) is Some && next.owner(i) == next.owner(j) implies i == j by {
        assert(system.owner(i) == system.owner(j));
    }
    assert forall|j: nat| #[trigger]
        next.owner(j) is Some && next.state.holds(next.owner(j)->0) implies
        next.state.workers[next.owner(j)->0.key()].busy by {
        assert(system.owner(j) is Some);
    }
    assert forall|other: Seq<char>, who: IdentityView|
        next.state.pending.contains_key(other) && #[trigger] next.state.pending[other].waits_for(
            who,
        ) implies who.generation < next.state.generation by {
        if other != uid {
            assert(system.state.pending[other].waits_for(who));
        }
    }
    assert forall|link: u64| #[trigger] next.connections.contains_key(link) implies in_step(
        next.state,
        next.connections[link],
    ) by {
        assert(in_step(system.state, system.connections[link]));
    }
}

/// Requests may be closed, and lose some of the workers that they wait for, as long as every
/// open one can be answered.
proof fn lemma_fewer_requests(system: System, state: StateView)
    requires
        system.sound(),
        state == (StateView { pending: state.pending, ..system.state }),
        forall|uid: Seq<char>| #[trigger]
            state.pending.contains_key(uid) ==> {
                &&& system.state.pending.contains_key(uid)
                &&& state.pending[uid].can_be_answered()
                &&& state.pending[uid] is Response ==> state.pending[uid]
                    == system.state.pending[uid]
                &&& forall|id: IdentityView| #[trigger]
                    state.pending[uid].waits_for(id) ==> system.state.pending[uid].waits_for(id)
            },
    ensures
        system.in_state(state).sound(),
{
    let after = system.in_state(state);
    assert forall|j: nat| #[trigger] after.owner(j) == system.owner(j) by {}
    let still = system.in_state(StateView { pending: system.state.pending, ..state });
    assert(still == system);
    assert forall|uid: Seq<char>| #[trigger] after.state.pending.contains_key(uid) implies
        after.is_asked_for(uid) && after.state.pending[uid].can_be_answered() by {
        assert(system.state.pending.contains_key(uid));
        let j = choose|j: nat| #[trigger]
            system.scrapes.contains_key(j) && uid_of(system.scrapes[j]) == Some(uid);
        assert(after.scrapes.contains_key(j));
    }
    assert forall|uid: Seq<char>, id: IdentityView| #[trigger]
        claims(after.state, uid, id) implies after.is_served(uid, id) by {
        assert(claims(system.state, uid, id));
        let j = choose|j: nat| #[trigger]
            system.scrapes.contains_key(j) && uid_of(system.scrapes[j]) == Some(uid) && worker_of(
                system.scrapes[j],
            ) == Some(id);
        assert(after.scrapes.contains_key(j));
    }
    assert forall|key: WorkerKey| #[trigger]
        after.state.workers.contains_key(key) && after.state.workers[key].busy implies
        after.is_owned(after.state.identity_of(key)) by {
        let id = system.state.identity_of(key);
        assert(system.state.workers.contains_key(key));
        let j = choose|j: nat| #[trigger] system.owner(j) == Some(id);
        assert(after.owner(j) == Some(id));
    }
    assert forall|i: nat, j: nat|
        #![trigger after.owner(i), after.owner(j)]
        after.owner(i) is Some && after.owner(i) == after.owner(j) implies i == j by {
        assert(system.owner(i) == system.owner(j));
    }
    assert forall|j: nat| #[trigger]
        after.owner(j) is Some && after.state.holds(after.owner(j)->0) implies
        after.state.workers[after.owner(j)->0.key()].busy by {
        assert(system.owner(j) is Some);
    }
    assert forall|uid: Seq<char>, id: IdentityView|
        after.state.pending.contains_key(uid) && #[trigger] after.state.pending[uid].waits_for(
            id,
        ) implies id.generation < after.state.generation by {
        assert(state.pending.contains_key(uid));
        assert(system.state.pending[uid].waits_for(id));
    }
    assert forall|link: u64| #[trigger] after.connections.contains_key(link) implies in_step(
        after.state,
        after.connections[link],
    ) by {
        assert(in_step(system.state, system.connections[link]));
    }
}

/// A request that survives the loss of a worker can be answered without it.
proof fn lemma_survives(request: PendingView, id: IdentityView)
    requires
        request.survives(id),
    ensures
        request.without(id).can_be_answered(),
        forall|other: IdentityView| #[trigger]
            request.without(id).waits_for(other) ==> request.waits_for(other),
{
    match request {
        PendingView::Ready { allowed } => {
            let other = choose|other: IdentityView| #[trigger]
                allowed.contains(other) && other != id;
            assert(request.without(id).waits_for(other));
        },
        PendingView::Response { worker } => {
            assert(request.without(id).waits_for(worker));
        },
    }
}

proof fn lemma_uninvited(system: System, uid: Seq<char>, id: IdentityView)
    requires
        system.sound(),
    ensures
        system.in_state(system.state.uninvited(uid, id)).sound(),
{
    let state = system.state.uninvited(uid, id);
    if system.state.pending.contains_key(uid) && system.state.pending[uid].survives(id) {
        lemma_survives(system.state.pending[uid], id);
    }
    lemma_fewer_requests(system, state);
}

proof fn lemma_forgotten(system: System, id: IdentityView)
    requires
        system.sound(),
    ensures
        system.in_state(system.state.forgotten(id)).sound(),
{
    let state = system.state.forgotten(id);
    assert forall|uid: Seq<char>| #[trigger] state.pending.contains_key(uid) implies {
        &&& system.state.pending.contains_key(uid)
        &&& state.pending[uid].can_be_answered()
        &&& state.pending[uid] is Response ==> state.pending[uid] == system.state.pending[uid]
        &&& forall|other: IdentityView| #[trigger]
            state.pending[uid].waits_for(other) ==> system.state.pending[uid].waits_for(other)
    } by {
        lemma_survives(system.state.pending[uid], id);
    }
    lemma_fewer_requests(system, state);
}

proof fn lemma_answered(system: System, uid: Seq<char>, worker: Option<IdentityView>)
    requires
        system.sound(),
    ensures
        system.in_state(system.state.answered(uid, worker)).sound(),
{
    lemma_fewer_requests(system, system.state.answered(uid, worker));
}

proof fn lemma_asked(
    system: System,
    uid: Seq<char>,
    asked: Seq<CandidateView>,
    delivered: Seq<bool>,
    n: int,
)
    requires
        system.sound(),
    ensures
        system.in_state(asked_state(system.state, uid, asked, delivered, n)).sound(),
    decreases n,
{
    if n > 0 {
        lemma_asked(system, uid, asked, delivered, n - 1);
        lemma_uninvited(
            system.in_state(asked_state(system.state, uid, asked, delivered, n - 1)),
            uid,
            asked[n - 1].identity,
        );
    } else {
        assert(system.in_state(system.state) == system);
    }
}

/// A frame may arrive on a connection.
proof fn lemma_touched(system: System, link: u64, now: u128)
    requires
        system.sound(),
        system.connections.contains_key(link),
    ensures
        system.on_connection(
            seen_state(system.state, system.connections[link], now),
            seen(system.connections[link], now),
        ).sound(),
{
    let state = system.state;
    let after = system.on_connection(
        seen_state(state, system.connections[link], now),
        seen(system.connections[link], now),
    );
    assert(after.connections.dom() =~= system.connections.dom());
    assert(after.state.workers.dom() =~= state.workers.dom());
    assert forall|j: nat| #[trigger] after.owner(j) == system.owner(j) by {}
    assert forall|id: IdentityView| #[trigger] after.state.holds(id) == state.holds(id) by {}
    lemma_same_busy(system, after);
    lemma_same_requests(system, after);
    assert forall|key: WorkerKey| #[trigger] after.state.workers.contains_key(key) implies {
        let number = after.state.workers[key].link;
        &&& after.connections.contains_key(number)
        &&& after.connections[number].identity == Some(after.state.identity_of(key))
        &&& after.state.workers[key].generation < after.state.generation
    } by {
        assert(state.workers.contains_key(key));
    }
    assert forall|number: u64| #[trigger] after.connections.contains_key(number) implies {
        &&& after.connections[number].link == number
        &&& number < after.state.next_link
        &&& in_step(after.state, after.connections[number])
        &&& after.connections[number].identity == system.connections[number].identity
    } by {
        assert(system.connections.contains_key(number));
        assert(in_step(state, system.connections[number]));
    }
}

/// Where the same workers are busy and the same scrapes hold workers, the workers fit as before.
proof fn lemma_same_busy(system: System, after: System)
    requires
        system.sound(),
        forall|j: nat| #[trigger] after.owner(j) == system.owner(j),
        forall|key: WorkerKey| #[trigger]
            after.state.workers.contains_key(key) ==> system.state.workers.contains_key(key)
                && after.state.workers[key].busy == system.state.workers[key].busy
                && after.state.workers[key].generation == system.state.workers[key].generation,
    ensures
        after.workers_fit(),
{
    assert forall|key: WorkerKey| #[trigger]
        after.state.workers.contains_key(key) && after.state.workers[key].busy implies
        after.is_owned(after.state.identity_of(key)) by {
        let id = system.state.identity_of(key);
        assert(after.state.identity_of(key) == id);
        let j = choose|j: nat| #[trigger] system.owner(j) == Some(id);
        assert(after.owner(j) == Some(id));
    }
    assert forall|i: nat, j: nat|
        #![trigger after.owner(i), after.owner(j)]
        after.owner(i) is Some && after.owner(i) == after.owner(j) implies i == j by {
        assert(system.owner(i) == system.owner(j));
    }
    assert forall|j: nat| #[trigger]
        after.owner(j) is Some && after.state.holds(after.owner(j)->0) implies
        after.state.workers[after.owner(j)->0.key()].busy by {
        assert(system.owner(j) is Some);
        let key = after.owner(j)->0.key();
        assert(after.state.workers.contains_key(key));
        assert(system.state.holds(system.owner(j)->0));
    }
}

/// Where the requests and the scrapes stay as they are, the requests fit as before.
proof fn lemma_same_requests(system: System, after: System)
    requires
        system.sound(),
        after.state.pending == system.state.pending,
        after.scrapes == system.scrapes,
    ensures
        after.requests_fit(),
{
    assert forall|uid: Seq<char>| #[trigger] after.state.pending.contains_key(uid) implies
        after.is_asked_for(uid) && after.state.pending[uid].can_be_answered() by {
        assert(system.state.pending.contains_key(uid));
        let j = choose|j: nat| #[trigger]
            system.scrapes.contains_key(j) && uid_of(system.scrapes[j]) == Some(uid);
        assert(after.scrapes.contains_key(j));
    }
    assert forall|uid: Seq<char>, id: IdentityView| #[trigger]
        claims(after.state, uid, id) implies after.is_served(uid, id) by {
        assert(claims(system.state, uid, id));
        let j = choose|j: nat| #[trigger]
            system.scrapes.contains_key(j) && uid_of(system.scrapes[j]) == Some(uid) && worker_of(
                system.scrapes[j],
            ) == Some(id);
        assert(after.scrapes.contains_key(j));
    }
}

/// What a connection registered may end.
proof fn lemma_left(system: System, link: u64)
    requires
        system.sound(),
        system.connections.contains_key(link),
    ensures
        ({
            let connection = system.connections[link];
            let left = match connection.identity {
                Some(id) => system.state.unregistered(id),
                None => system.state,
            };
            let after = system.on_connection(
                left,
                ConnectionView { identity: None, ..connection },
            );
            after.sound() && forall|key: WorkerKey| #[trigger]
                after.state.workers.contains_key(key) ==> after.state.workers[key].link != link
        }),
{
    let connection = system.connections[link];
    let idle = ConnectionView { identity: None, ..connection };
    let left = match connection.identity {
        Some(id) => system.state.unregistered(id),
        None => system.state,
    };
    let after = system.on_connection(left, idle);
    // The requests first, then the worker and the connection.
    let forgetful = if connection.identity is Some && system.state.holds(connection.identity->0) {
        lemma_forgotten(system, connection.identity->0);
        system.in_state(system.state.forgotten(connection.identity->0))
    } else {
        system
    };
    assert(forgetful.state.workers == system.state.workers);
    assert(after.state.pending == forgetful.state.pending);
    assert(after.connections.dom() =~= system.connections.dom());
    assert forall|j: nat| #[trigger] after.owner(j) == forgetful.owner(j) by {}
    lemma_same_busy(forgetful, after);
    lemma_same_requests(forgetful, after);
    assert forall|key: WorkerKey| #[trigger] after.state.workers.contains_key(key) implies {
        let number = after.state.workers[key].link;
        &&& number != link
        &&& after.connections.contains_key(number)
        &&& after.connections[number].identity == Some(after.state.identity_of(key))
        &&& after.state.workers[key].generation < after.state.generation
    } by {
        assert(system.state.workers.contains_key(key));
    }
    assert forall|uid: Seq<char>, id: IdentityView|
        after.state.pending.contains_key(uid) && #[trigger] after.state.pending[uid].waits_for(
            id,
        ) implies id.generation < after.state.generation by {
        assert(forgetful.state.pending[uid].waits_for(id));
    }
    assert forall|number: u64| #[trigger] after.connections.contains_key(number) implies {
        &&& after.connections[number].link == number
        &&& number < after.state.next_link
        &&& in_step(after.state, after.connections[number])
        &&& after.connections[number].identity is Some
            ==> after.connections[number].identity->0.generation < after.state.generation
    } by {
        assert(system.connections.contains_key(number));
        assert(in_step(system.state, system.connections[number]));
    }
    assert forall|j: nat| #[trigger] after.owner(j) is Some implies after.owner(j)->0.generation
        < after.state.generation by {
        assert(system.owner(j) is Some);
    }
}

/// A connection without a registration may register a worker.
proof fn lemma_joined(
    system: System,
    link: u64,
    instance: Seq<char>,
    name: Seq<char>,
    version: u16,
)
    requires
        system.sound(),
        system.connections.contains_key(link),
        system.connections[link].identity is None,
        system.state.generation < u64::MAX,
    ensures
        ({
            let after = enrolment(
                system.state,
                system.connections[link],
                instance,
                name,
                version,
            );
            system.on_connection(after.state, after.connection).sound()
        }),
{
    let key = (instance, name);
    let reacted = enrolment(system.state, system.connections[link], instance, name, version);
    let after = system.on_connection(reacted.state, reacted.connection);
    let new_id = system.state.next_identity(instance, name);
    let forgetful = if system.state.workers.contains_key(key) {
        lemma_forgotten(system, system.state.identity_of(key));
        system.in_state(system.state.forgotten(system.state.identity_of(key)))
    } else {
        system
    };
    assert(forgetful.state.workers == system.state.workers);
    assert(after.state.pending == forgetful.state.pending);
    assert(after.connections.dom() =~= system.connections.dom());
    assert forall|j: nat| #[trigger] after.owner(j) == forgetful.owner(j) by {}
    lemma_same_requests(forgetful, after);
    assert forall|j: nat| #[trigger] after.owner(j) is Some implies {
        &&& after.owner(j)->0.generation < system.state.generation
        &&& after.state.holds(after.owner(j)->0)
            ==> after.state.workers[after.owner(j)->0.key()].busy
    } by {
        assert(system.owner(j) is Some);
        if after.state.holds(after.owner(j)->0) {
            assert(after.owner(j)->0.key() != key);
            assert(system.state.holds(system.owner(j)->0));
        }
    }
    assert forall|other: WorkerKey| #[trigger]
        after.state.workers.contains_key(other) && after.state.workers[other].busy implies
        after.is_owned(after.state.identity_of(other)) by {
        let id = system.state.identity_of(other);
        assert(other != key);
        assert(system.state.workers.contains_key(other));
        let j = choose|j: nat| #[trigger] system.owner(j) == Some(id);
        assert(after.owner(j) == Some(id));
    }
    assert forall|i: nat, j: nat|
        #![trigger after.owner(i), after.owner(j)]
        after.owner(i) is Some && after.owner(i) == after.owner(j) implies i == j by {
        assert(system.owner(i) == system.owner(j));
    }
    assert forall|uid: Seq<char>, id: IdentityView|
        after.state.pending.contains_key(uid) && #[trigger] after.state.pending[uid].waits_for(
            id,
        ) implies id.generation < after.state.generation by {
        assert(forgetful.state.pending[uid].waits_for(id));
    }
    assert forall|other: WorkerKey| #[trigger] after.state.workers.contains_key(other) implies {
        let number = after.state.workers[other].link;
        &&& after.connections.contains_key(number)
        &&& after.connections[number].identity == Some(after.state.identity_of(other))
        &&& after.state.workers[other].generation < after.state.generation
    } by {
        if other != key {
            assert(system.state.workers.contains_key(other));
        }
    }
    assert forall|number: u64| #[trigger] after.connections.contains_key(number) implies {
        &&& after.connections[number].link == number
        &&& number < after.state.next_link
        &&& in_step(after.state, after.connections[number])
        &&& after.connections[number].identity is Some
            ==> after.connections[number].identity->0.generation < after.state.generation
    } by {
        assert(system.connections.contains_key(number));
        assert(in_step(system.state, system.connections[number]));
    }
}

/// A worker may say that it is ready. Where that selects it, the recipient gets it, or it is given
/// back.
proof fn lemma_ready(system: System, id: IdentityView, uid: Seq<char>, recipient: Option<nat>)
    requires
        system.sound(),
        recipient matches Some(k) ==> system.waits(k, uid),
    ensures
        match (system.state.winner(uid, id), recipient) {
            (Some(worker), Some(k)) => (System {
                state: system.state.marked_ready(uid, id),
                winners: system.winners.insert(k, worker),
                ..system
            }).sound(),
            (Some(worker), None) => system.in_state(
                system.state.marked_ready(uid, id).released(worker.identity),
            ).sound(),
            (None, _) => system.in_state(system.state.marked_ready(uid, id)).sound(),
        },
{
    let state = system.state;
    match state.winner(uid, id) {
        Some(worker) => {
            let closed = StateView { pending: state.pending.remove(uid), ..state };
            lemma_fewer_requests(system, closed);
            let calm = system.in_state(closed);
            assert(worker.identity == id);
            match recipient {
                Some(k) => {
                    let after = System {
                        state: state.marked_ready(uid, id),
                        winners: system.winners.insert(k, worker),
                        ..system
                    };
                    lemma_won(calm, after, id, k, worker);
                },
                None => {
                    let given_back = state.marked_ready(uid, id).released(id);
                    assert(given_back.workers =~= closed.workers);
                    assert(given_back == closed);
                },
            }
        },
        None => {
            if state.invited(uid, id) {
                lemma_uninvited(system, uid, id);
            } else {
                assert(system.in_state(state) == system);
            }
        },
    }
}

/// An idle worker may be on its way to a scrape that waits for one; it is then busy.
proof fn lemma_won(system: System, after: System, id: IdentityView, k: nat, worker: ReservedView)
    requires
        system.sound(),
        system.state.idle(id),
        worker.identity == id,
        system.scrapes.contains_key(k),
        system.scrapes[k] is AwaitReady,
        !system.winners.contains_key(k),
        after == (System {
            state: system.state.with_busy(id, true),
            winners: system.winners.insert(k, worker),
            ..system
        }),
    ensures
        after.sound(),
{
    assert forall|j: nat| #[trigger] after.owner(j) == (if j == k {
        Some(id)
    } else {
        system.owner(j)
    }) by {}
    assert forall|j: nat| #[trigger] system.owner(j) != Some(id) by {
        if system.owner(j) == Some(id) {
            assert(system.owner(j) is Some);
        }
    }
    assert forall|i: nat, j: nat|
        #![trigger after.owner(i), after.owner(j)]
        after.owner(i) is Some && after.owner(i) == after.owner(j) implies i == j by {
        assert(system.owner(i) is Some || i == k);
        assert(system.owner(j) is Some || j == k);
    }
    assert forall|j: nat| #[trigger] after.owner(j) is Some implies {
        &&& after.owner(j)->0.generation < after.state.generation
        &&& after.state.holds(after.owner(j)->0)
            ==> after.state.workers[after.owner(j)->0.key()].busy
    } by {
        if j != k {
            assert(system.owner(j) is Some);
        } else {
            assert(system.state.workers.contains_key(id.key()));
        }
    }
    assert forall|key: WorkerKey| #[trigger]
        after.state.workers.contains_key(key) && after.state.workers[key].busy implies
        after.is_owned(after.state.identity_of(key)) by {
        let other = after.state.identity_of(key);
        if other == id {
            assert(after.owner(k) == Some(other));
        } else {
            assert(system.state.workers.contains_key(key));
            assert(system.state.identity_of(key) == other);
            let j = choose|j: nat| #[trigger] system.owner(j) == Some(other);
            assert(after.owner(j) == Some(other));
        }
    }
    lemma_same_requests(system, after);
    assert forall|link: u64| #[trigger] after.connections.contains_key(link) implies in_step(
        after.state,
        after.connections[link],
    ) by {
        assert(in_step(system.state, system.connections[link]));
    }
    assert forall|key: WorkerKey| #[trigger] after.state.workers.contains_key(key) implies {
        let link = after.state.workers[key].link;
        &&& after.connections.contains_key(link)
        &&& after.connections[link].identity == Some(after.state.identity_of(key))
        &&& after.state.workers[key].generation < after.state.generation
    } by {
        assert(system.state.workers.contains_key(key));
    }
}

/// A scrape that looks for a worker may begin an attempt.
proof fn lemma_begins(
    system: System,
    k: nat,
    scrape: ScrapeView,
    now: u128,
    closed: Set<u64>,
    after: (StateView, StepView),
)
    requires
        system.sound(),
        system.scrapes.contains_key(k),
        system.scrapes[k] is AwaitWorker,
        scrape.attempt <= MAX_DISPATCH_ATTEMPTS,
        begins_anew(system.state, scrape, now, closed, after),
    ensures
        system.with_step(k, after).sound(),
{
    let state = system.state;
    assert(!system.winners.contains_key(k));
    let uid = choose|uid: Seq<char>| #[trigger]
        is_random_uuid(uid) && begins(state, scrape, uid, now, closed, after);
    let selection = choose|selection: Result<SelectionView, ReserveError>| #[trigger]
        state.offers(scrape.terms(now, closed), selection) && after == attempted(
            state,
            scrape,
            uid,
            now,
            selection,
        );
    match selection {
        Ok(found) => {
            lemma_dispatched(system, k, scrape, uid, now, closed, found);
        },
        Err(_) => {
            if scrape.lost_worker {
                lemma_same_holdings(system, k, after.1);
            } else {
                lemma_without(system, k);
                assert(system.winners.remove(k) =~= system.winners);
            }
        },
    }
}

/// A scrape that lost its workers may go on, or end.
proof fn lemma_goes_on(
    system: System,
    k: nat,
    lost: Set<IdentityView>,
    now: u128,
    closed: Set<u64>,
    after: (StateView, StepView),
)
    requires
        system.sound(),
        system.scrapes.contains_key(k),
        uid_of(system.scrapes[k]) is Some,
        goes_on(
            system.state,
            scrape_of(system.scrapes[k])->0,
            system.owner(k),
            uid_of(system.scrapes[k])->0,
            lost,
            now,
            closed,
            after,
        ),
    ensures
        system.with_step(k, after).sound(),
{
    let scrape = scrape_of(system.scrapes[k])->0;
    let freed = system.freed(k);
    lemma_freed(system, k);
    assert(freed.winners.remove(k) =~= freed.winners);
    if scrape.exhausted(now) {
        lemma_without(freed, k);
        assert(freed.without(k).scrapes =~= system.with_step(k, after).scrapes);
        assert(freed.without(k) == system.with_step(k, after));
    } else {
        let retried = freed.in_state(freed.state.retried());
        lemma_counted(freed, freed.state.retried());
        lemma_begins(retried, k, scrape.without(lost).next(), now, closed, after);
        assert(retried.with_step(k, after).scrapes =~= system.with_step(k, after).scrapes);
        assert(retried.with_step(k, after) == system.with_step(k, after));
    }
}

/// A scrape may end for good, whatever it holds.
proof fn lemma_over(system: System, k: nat)
    requires
        system.sound(),
        system.scrapes.contains_key(k),
    ensures
        (System {
            state: system.freed(k).state.discharged(),
            scrapes: system.scrapes.remove(k),
            winners: system.winners.remove(k),
            ..system
        }).sound(),
{
    lemma_freed(system, k);
    lemma_without(system.freed(k), k);
    assert(system.freed(k).without(k).scrapes =~= system.scrapes.remove(k));
}

proof fn lemma_asking(
    system: System,
    k: nat,
    delivered: Seq<bool>,
    now: u128,
    closed: Set<u64>,
    after: (StateView, StepView),
)
    requires
        system.sound(),
        system.scrapes.contains_key(k),
        system.scrapes[k] is SendReady,
        system.scrapes[k] matches StepView::SendReady { scrape, uid, asked } && broadcast_done(
            system.state,
            scrape,
            uid,
            asked,
            delivered,
            now,
            closed,
            after,
        ),
    ensures
        system.with_step(k, after).sound(),
{
    if let StepView::SendReady { scrape, uid, asked } = system.scrapes[k] {
        let reached = system.in_state(
            asked_state(system.state, uid, asked, delivered, asked.len() as int),
        );
        lemma_asked(system, uid, asked, delivered, asked.len() as int);
        assert(!system.winners.contains_key(k));
        if exists|i: int| 0 <= i < asked.len() && #[trigger] was_delivered(delivered, i) {
            lemma_same_holdings(reached, k, after.1);
        } else {
            assert(reached.owner(k) is None);
            lemma_goes_on(reached, k, asked_identities(asked), now, closed, after);
        }
    }
}

/// A connection may be opened.
proof fn lemma_opened(system: System, now: u128, next: System)
    requires
        system.sound(),
        system.happens(Happening::Opened { now }, next),
    ensures
        next.sound(),
{
    assert(!system.connections.contains_key(system.state.next_link));
    assert(next.connections.dom() =~= system.connections.dom().insert(system.state.next_link));
    assert forall|j: nat| #[trigger] next.owner(j) == system.owner(j) by {}
    lemma_same_busy(system, next);
    lemma_same_requests(system, next);
    assert forall|link: u64| #[trigger] next.connections.contains_key(link) implies {
        &&& next.connections[link].link == link
        &&& link < next.state.next_link
        &&& in_step(next.state, next.connections[link])
    } by {
        if link != system.state.next_link {
            assert(system.connections.contains_key(link));
            assert(in_step(system.state, system.connections[link]));
        }
    }
}

/// A connection may be closed.
proof fn lemma_closed(system: System, link: u64, reason: CloseReason, next: System)
    requires
        system.sound(),
        system.happens(Happening::Closed { link, reason }, next),
    ensures
        next.sound(),
{
    lemma_left(system, link);
    let connection = system.connections[link];
    let idle = ConnectionView { identity: None, ..connection };
    let left = match connection.identity {
        Some(id) => system.state.unregistered(id),
        None => system.state,
    };
    let quiet = system.on_connection(left, idle);
    assert(next.state == (StateView { metrics: next.state.metrics, ..quiet.state }));
    assert(next.connections.dom() =~= quiet.connections.dom().remove(link));
    assert forall|j: nat| #[trigger] next.owner(j) == quiet.owner(j) by {}
    lemma_same_busy(quiet, next);
    lemma_same_requests(quiet, next);
    assert forall|number: u64| #[trigger] next.connections.contains_key(number) implies {
        &&& next.connections[number].link == number
        &&& number < next.state.next_link
        &&& in_step(next.state, next.connections[number])
    } by {
        assert(quiet.connections.contains_key(number));
        assert(in_step(quiet.state, quiet.connections[number]));
    }
    assert forall|key: WorkerKey| #[trigger] next.state.workers.contains_key(key) implies {
        let number = next.state.workers[key].link;
        &&& next.connections.contains_key(number)
        &&& next.connections[number].identity == Some(next.state.identity_of(key))
    } by {
        assert(quiet.state.workers.contains_key(key));
    }
}

/// Anything may happen on a connection.
proof fn lemma_on_connection(
    system: System,
    link: u64,
    event: Event,
    now: u128,
    after: Reaction,
    recipient: Option<nat>,
    next: System,
)
    requires
        system.sound(),
        system.happens(Happening::OnConnection { link, event, now, after, recipient }, next),
    ensures
        next.sound(),
{
    let connection = system.connections[link];
    let heard = seen(connection, now);
    let touched = system.on_connection(seen_state(system.state, connection, now), heard);
    lemma_touched(system, link, now);
    assert(system.on_connection(system.state, connection).connections =~= system.connections);
    match event {
        Event::Text(Some(ClientMessage::Register { instance, worker, version })) => {
            let name = choose|name: Seq<char>| #[trigger]
                may_be_named(worker@, name) && after == enrolment(
                    touched.state,
                    heard,
                    instance@,
                    name,
                    version,
                );
            lemma_left(touched, link);
            let idle = ConnectionView { identity: None, ..heard };
            let left = match heard.identity {
                Some(id) => touched.state.unregistered(id),
                None => touched.state,
            };
            let quiet = touched.on_connection(left, idle);
            assert(touched.connections[link] == heard);
            assert(quiet.connections[link] == idle);
            lemma_joined(quiet, link, instance@, name, version);
            let joined = enrolment(quiet.state, idle, instance@, name, version);
            assert(joined.state == after.state);
            assert(joined.connection == after.connection);
            assert(quiet.on_connection(joined.state, joined.connection).connections
                =~= next.connections);
            assert(quiet.on_connection(joined.state, joined.connection) == next);
        },
        Event::Text(Some(ClientMessage::Ready { uid, .. })) => {
            match heard.identity {
                Some(id) => {
                    let winner = touched.state.winner(uid@, id);
                    let to = if winner is Some {
                        recipient
                    } else {
                        None
                    };
                    lemma_ready(touched, id, uid@, to);
                    assert(touched.connections =~= next.connections);
                    match (winner, to) {
                        (Some(reserved), Some(k)) => {
                            assert(next == (System {
                                state: touched.state.marked_ready(uid@, id),
                                winners: touched.winners.insert(k, reserved),
                                ..touched
                            }));
                        },
                        (Some(reserved), None) => {
                            assert(next == touched.in_state(
                                touched.state.marked_ready(uid@, id).released(reserved.identity),
                            ));
                        },
                        (None, _) => {
                            assert(next == touched.in_state(
                                touched.state.marked_ready(uid@, id),
                            ));
                        },
                    }
                },
                None => {
                    assert(next == touched);
                },
            }
        },
        Event::Text(Some(ClientMessage::Response { uid, .. })) => {
            if let Some(id) = heard.identity {
                lemma_answered(touched, uid@, Some(id));
            }
            assert(touched.connections =~= next.connections);
        },
        _ => {
            assert(next == touched || next.connections =~= system.connections && next
                == system);
        },
    }
}

/// Whatever happens, a sound system stays sound.
pub proof fn whatever_happens_keeps_the_system_sound(
    system: System,
    what: Happening,
    next: System,
)
    requires
        system.sound(),
        system.happens(what, next),
    ensures
        next.sound(),
{
    match what {
        Happening::Started { k, instance, resource, deadline, now, closed, after } => {
            let scrape = ScrapeView::fresh(instance, resource, deadline);
            assert(system.winners.remove(k) =~= system.winners);
            if system.state.refusal(instance) is None {
                lemma_with_scrape(system, k, scrape);
                let admitted = system.with_scrape(k, scrape);
                lemma_begins(admitted, k, scrape, now, closed, after);
                assert(admitted.with_step(k, after).scrapes =~= next.scrapes);
                assert(admitted.with_step(k, after) == next);
            } else {
                assert(system.scrapes.remove(k) =~= system.scrapes);
                assert(next == system);
            }
        },
        Happening::Asked { k, delivered, now, closed, after } => {
            lemma_asking(system, k, delivered, now, closed, after);
        },
        Happening::Selected { k } => {
            lemma_selected(system, k, next);
        },
        Happening::CandidatesLost { k, now, closed, after } => {
            if let StepView::AwaitReady { asked, .. } = system.scrapes[k] {
                lemma_goes_on(system, k, asked_identities(asked), now, closed, after);
            }
        },
        Happening::ReadyTimedOut { k } => {
            lemma_over(system, k);
        },
        Happening::RequestSent { k, delivered, now, closed, after } => {
            assert(!system.winners.contains_key(k));
            if let StepView::SendRequest { worker, .. } = system.scrapes[k] {
                if delivered {
                    lemma_same_holdings(system, k, after.1);
                } else {
                    lemma_goes_on(system, k, set![worker.identity], now, closed, after);
                }
            }
        },
        Happening::Responded { k, .. } => {
            assert(!system.winners.contains_key(k));
            lemma_over(system, k);
        },
        Happening::WorkerLost { k, now, closed, after } => {
            assert(!system.winners.contains_key(k));
            if let StepView::AwaitResponse { worker, .. } = system.scrapes[k] {
                lemma_goes_on(system, k, set![worker], now, closed, after);
            }
        },
        Happening::ResponseTimedOut { k } => {
            assert(!system.winners.contains_key(k));
            lemma_over(system, k);
        },
        Happening::LookedAgain { k, uid, now, closed, after } => {
            assert(!system.winners.contains_key(k));
            if let StepView::AwaitWorker { scrape, until } = system.scrapes[k] {
                let selection = choose|selection: Result<SelectionView, ReserveError>| #[trigger]
                    system.state.offers(scrape.terms(now, closed), selection) && after == (
                    match selection {
                        Ok(found) => dispatched(system.state, scrape, uid, found),
                        Err(_) => (system.state, StepView::AwaitWorker { scrape, until }),
                    });
                match selection {
                    Ok(found) => {
                        lemma_dispatched(system, k, scrape, uid, now, closed, found);
                    },
                    Err(_) => {
                        lemma_same_holdings(system, k, after.1);
                    },
                }
            }
        },
        Happening::WaitExpired { k } => {
            assert(!system.winners.contains_key(k));
            lemma_without(system, k);
            assert(system.winners.remove(k) =~= system.winners);
        },
        Happening::GivenUp { k } => {
            lemma_over(system, k);
        },
        Happening::Concluded { outcome } => {
            lemma_counted(system, system.state.concluded(outcome));
        },
        Happening::Posted { uid, status, body } => {
            lemma_answered(system, uid, None);
            assert(system.in_state(system.state) == system);
        },
        Happening::Opened { now } => {
            lemma_opened(system, now, next);
        },
        Happening::OnConnection { link, event, now, after, recipient } => {
            lemma_on_connection(system, link, event, now, after, recipient, next);
        },
        Happening::Closed { link, reason } => {
            lemma_closed(system, link, reason, next);
        },
    }
}

/// Every system that a run of the server reaches is sound.
pub proof fn a_run_stays_sound(limits: Limits, run: Seq<System>, what: Seq<Happening>, i: int)
    requires
        is_run(limits, run, what),
        0 <= i < run.len(),
    ensures
        run[i].sound(),
    decreases i,
{
    if i == 0 {
        a_server_starts_sound(limits);
    } else {
        a_run_stays_sound(limits, run, what, i - 1);
        assert(run[i - 1].happens(what[i - 1], run[i]));
        whatever_happens_keeps_the_system_sound(run[i - 1], what[i - 1], run[i]);
    }
}

} // verus!

//! What each operation does to the workers, the requests and the counters of the server, said field
//! by field.

use crate::assoc::keys_where;
use crate::limits::Limits;
use crate::metrics::{CloseReason, MetricsView, ScrapeOutcome, Snapshot};
use crate::model::{
    counted_under, IdentityView, PendingView, ReservedView, StateView, WorkerKey, WorkerView,
};
use vstd::prelude::*;

verus! {

/// A server starts without workers, requests and scrapes, with every counter at zero.
pub proof fn a_server_starts_empty(limits: Limits, key: WorkerKey, uid: Seq<char>, i: int)
    ensures
        ({
            let state = StateView::fresh(limits);
            &&& state.limits == limits
            &&& !state.workers.contains_key(key)
            &&& !state.pending.contains_key(uid)
            &&& state.in_flight == 0
            &&& state.generation == 1
            &&& state.next_link == 0
            &&& state.metrics.open_connections == 0
            &&& state.metrics.retries == 0
            &&& state.metrics.closes.len() == 7
            &&& state.metrics.scrapes.len() == 7
            &&& state.metrics.registrations.len() == 3
            &&& 0 <= i < 7 ==> state.metrics.closes[i] == 0 && state.metrics.scrapes[i] == 0
            &&& 0 <= i < 3 ==> state.metrics.registrations[i] == 0
        }),
{
}

/// An instance is known as long as some worker is registered for it. A registration is current as
/// long as the worker under its instance and name is of its generation, and idle as long as that
/// worker serves no scrape.
pub proof fn a_registration_is_current_by_its_generation(state: StateView, id: IdentityView)
    ensures
        state.knows(id.instance) <==> exists|name: Seq<char>| #[trigger]
            state.workers.contains_key((id.instance, name)),
        state.holds(id) <==> state.workers.contains_key((id.instance, id.name)) && state.workers[(
            id.instance,
            id.name,
        )].generation == id.generation,
        state.idle(id) <==> state.workers.contains_key((id.instance, id.name)) && state.workers[(
            id.instance,
            id.name,
        )].generation == id.generation && !state.workers[(id.instance, id.name)].busy,
{
}

/// A worker that registers is idle, as recent as it says, and reached by the connection that
/// registered it; it gets the next generation, and the connection that held its name is evicted. No
/// other worker changes, and the registration is counted under its wire version: 1 and below, 2, or
/// 3 and above. Numbers that run out begin again at zero.
pub proof fn a_worker_is_registered_as_it_says(
    state: StateView,
    instance: Seq<char>,
    name: Seq<char>,
    version: u16,
    link: u64,
    last_seen: u64,
    class: int,
)
    requires
        state.metrics.registrations.len() == 3,
        0 <= class < 3,
    ensures
        ({
            let key = (instance, name);
            let after = state.registered(instance, name, version, link, last_seen);
            let counted = after.metrics.registrations[class];
            let before = state.metrics.registrations[class];
            &&& after.workers == state.workers.insert(
                key,
                WorkerView {
                    generation: state.generation,
                    version,
                    link,
                    busy: false,
                    last_seen,
                },
            )
            &&& state.next_identity(instance, name) == (IdentityView {
                instance,
                name,
                generation: state.generation,
            })
            &&& state.evicted(instance, name) == (if state.workers.contains_key(key) {
                Some(state.workers[key].link)
            } else {
                None
            })
            &&& !state.workers.contains_key(key) ==> after.pending == state.pending
            &&& after == (StateView {
                workers: after.workers,
                pending: after.pending,
                generation: if state.generation < u64::MAX {
                    (state.generation + 1) as u64
                } else {
                    0
                },
                metrics: MetricsView {
                    registrations: after.metrics.registrations,
                    ..state.metrics
                },
                ..state
            })
            &&& after.metrics.registrations.len() == 3
            &&& class + 1 == version || (class == 0 && version == 0) || (class == 2 && version > 3)
                ==> counted == if before < u64::MAX {
                before + 1
            } else {
                0
            }
            &&& !(class + 1 == version || (class == 0 && version == 0) || (class == 2 && version
                > 3)) ==> counted == before
        }),
{
}

/// When a registration is gone, because it ended or because another took its name, every open
/// request loses it: one that waits for its response is dropped, one that waits for ready workers
/// goes on waiting for the others and is dropped where there is none, and every other request stays
/// as it is.
pub proof fn requests_lose_a_registration_that_is_gone(
    state: StateView,
    gone: IdentityView,
    version: u16,
    link: u64,
    last_seen: u64,
    after: StateView,
    uid: Seq<char>,
)
    requires
        state.workers.contains_key((gone.instance, gone.name)),
        state.workers[(gone.instance, gone.name)].generation == gone.generation,
        ({
            ||| after == state.unregistered(gone)
            ||| after == state.registered(gone.instance, gone.name, version, link, last_seen)
            ||| after == state.forgotten(gone)
        }),
    ensures
        !state.pending.contains_key(uid) ==> !after.pending.contains_key(uid),
        state.pending.contains_key(uid) ==> match state.pending[uid] {
            PendingView::Response { worker } => if worker == gone {
                !after.pending.contains_key(uid)
            } else {
                after.pending.contains_key(uid) && after.pending[uid] == state.pending[uid]
            },
            PendingView::Ready { allowed } => if exists|other: IdentityView|
                other != gone && #[trigger] allowed.contains(other) {
                &&& after.pending.contains_key(uid)
                &&& after.pending[uid] is Ready
                &&& forall|other: IdentityView| #[trigger]
                    after.pending[uid]->allowed.contains(other) <==> allowed.contains(other)
                        && other != gone
            } else {
                !after.pending.contains_key(uid)
            },
        },
{
    assert(gone =~= state.identity_of((gone.instance, gone.name)));
    if state.pending.contains_key(uid) {
        if let PendingView::Ready { allowed } = state.pending[uid] {
            if exists|other: IdentityView| other != gone && #[trigger] allowed.contains(other) {
                let other = choose|other: IdentityView|
                    other != gone && #[trigger] allowed.contains(other);
                assert(state.pending[uid]->allowed.contains(other));
                assert(state.pending[uid].survives(gone));
            } else {
                assert(!state.pending[uid].survives(gone));
            }
        }
    }
}

/// A registration that ends is gone, with nothing else but the requests changed; one that another
/// took the place of, or that is gone already, ends without any effect.
pub proof fn only_a_current_registration_ends(state: StateView, id: IdentityView)
    ensures
        ({
            let key = (id.instance, id.name);
            let after = state.unregistered(id);
            if state.workers.contains_key(key) && state.workers[key].generation == id.generation {
                &&& after.workers == state.workers.remove(key)
                &&& after == (StateView {
                    workers: after.workers,
                    pending: after.pending,
                    ..state
                })
            } else {
                after == state
            }
        }),
{
}

/// A frame on a connection makes its workers as recent as the frame, and changes nothing else.
pub proof fn a_frame_makes_its_workers_recent(
    state: StateView,
    link: u64,
    now: u64,
    key: WorkerKey,
)
    ensures
        ({
            let after = state.touched(link, now);
            &&& after == (StateView { workers: after.workers, ..state })
            &&& after.workers.contains_key(key) == state.workers.contains_key(key)
            &&& state.workers.contains_key(key) ==> after.workers[key] == (WorkerView {
                last_seen: if state.workers[key].link == link {
                    now
                } else {
                    state.workers[key].last_seen
                },
                ..state.workers[key]
            })
        }),
{
}

/// A worker that is released serves no scrape any more, as far as its registration is current; a
/// registration that another took the place of releases nothing. Giving back a worker that was not
/// used does the same, and giving back none does nothing.
pub proof fn a_released_worker_is_idle(state: StateView, worker: ReservedView)
    ensures
        ({
            let id = worker.identity;
            let key = (id.instance, id.name);
            let after = state.released(id);
            &&& after == (if state.workers.contains_key(key) && state.workers[key].generation
                == id.generation {
                StateView {
                    workers: state.workers.insert(
                        key,
                        WorkerView { busy: false, ..state.workers[key] },
                    ),
                    ..state
                }
            } else {
                state
            })
            &&& state.returned(Some(worker)) == after
            &&& state.returned(None) == state
        }),
{
}

/// An attempt that ends closes its request and no other, and releases the worker that it has;
/// without one, no worker changes.
pub proof fn an_attempt_that_ends_closes_its_request(
    state: StateView,
    id: IdentityView,
    uid: Seq<char>,
)
    ensures
        state.finished(None, uid) == (StateView { pending: state.pending.remove(uid), ..state }),
        state.finished(Some(id), uid) == (StateView {
            pending: state.pending.remove(uid),
            ..state.released(id)
        }),
{
}

/// An opened request waits for what it was opened for, and every other request stays as it is.
pub proof fn an_opened_request_waits_for_what_it_was_opened_for(
    state: StateView,
    uid: Seq<char>,
    allowed: Set<IdentityView>,
    worker: IdentityView,
    other: Seq<char>,
)
    ensures
        ({
            let ready = state.awaiting_ready(uid, allowed);
            let response = state.awaiting_response(uid, worker);
            &&& ready == (StateView { pending: ready.pending, ..state })
            &&& response == (StateView { pending: response.pending, ..state })
            &&& ready.pending.contains_key(uid) && ready.pending[uid] == (PendingView::Ready {
                allowed,
            })
            &&& response.pending.contains_key(uid) && response.pending[uid] == (
            PendingView::Response { worker })
            &&& other != uid ==> {
                &&& ready.pending.contains_key(other) == state.pending.contains_key(other)
                &&& response.pending.contains_key(other) == state.pending.contains_key(other)
                &&& ready.pending[other] == state.pending[other]
                &&& response.pending[other] == state.pending[other]
            }
        }),
{
}

/// A worker that says it is ready gets the request exactly where the request waits for it among
/// others, its registration is current and it serves no scrape. Then it serves this one, under the
/// version and the connection that it registered with, and the request is closed to the others.
pub proof fn a_ready_worker_gets_the_request_that_waits_for_it(
    state: StateView,
    uid: Seq<char>,
    id: IdentityView,
    allowed: Set<IdentityView>,
)
    requires
        state.pending.contains_key(uid),
        state.pending[uid] == (PendingView::Ready { allowed }),
        allowed.contains(id),
    ensures
        ({
            let key = (id.instance, id.name);
            let worker = state.workers[key];
            let after = state.marked_ready(uid, id);
            if state.workers.contains_key(key) && worker.generation == id.generation
                && !worker.busy {
                &&& state.winner(uid, id) == Some(
                    ReservedView { identity: id, version: worker.version, link: worker.link },
                )
                &&& after == (StateView {
                    workers: state.workers.insert(key, WorkerView { busy: true, ..worker }),
                    pending: state.pending.remove(uid),
                    ..state
                })
            } else {
                &&& state.winner(uid, id) is None
                &&& after == (StateView { pending: after.pending, ..state })
                &&& forall|other: Seq<char>|
                    other != uid ==> (#[trigger] after.pending.contains_key(other))
                        == state.pending.contains_key(other) && after.pending[other]
                        == state.pending[other]
                &&& after.pending.contains_key(uid) <==> exists|other: IdentityView|
                    other != id && #[trigger] allowed.contains(other)
                &&& after.pending.contains_key(uid) ==> after.pending[uid] is Ready && forall|
                    other: IdentityView,
                | #[trigger]
                    after.pending[uid]->allowed.contains(other) <==> allowed.contains(other)
                        && other != id
            }
        }),
{
    let key = (id.instance, id.name);
    if state.workers.contains_key(key) && state.workers[key].generation == id.generation
        && !state.workers[key].busy {
        assert(state.identity_of(key) =~= id);
    } else {
        lemma_uninvited(state, uid, id, allowed);
    }
}

proof fn lemma_uninvited(
    state: StateView,
    uid: Seq<char>,
    id: IdentityView,
    allowed: Set<IdentityView>,
)
    requires
        state.pending.contains_key(uid),
        state.pending[uid] == (PendingView::Ready { allowed }),
    ensures
        state.uninvited(uid, id).pending.contains_key(uid) <==> exists|other: IdentityView|
            other != id && #[trigger] allowed.contains(other),
{
    if exists|other: IdentityView| other != id && #[trigger] allowed.contains(other) {
        let other = choose|other: IdentityView| other != id && #[trigger] allowed.contains(other);
        assert(state.pending[uid]->allowed.contains(other));
        assert(state.pending[uid].survives(id));
    } else {
        assert(!state.pending[uid].survives(id));
    }
}

/// A worker that says it is ready for a request which does not wait for it gets nothing, and
/// nothing changes.
pub proof fn an_unasked_worker_gets_nothing(state: StateView, uid: Seq<char>, id: IdentityView)
    requires
        !state.pending.contains_key(uid) || state.pending[uid] is Response || !(
        state.pending[uid]->allowed).contains(id),
    ensures
        state.winner(uid, id) is None,
        state.marked_ready(uid, id) == state,
{
}

/// A candidate that could not be asked is struck off the request: it goes on waiting for the others
/// and is dropped where there is none. No other request changes, and no worker.
pub proof fn a_struck_candidate_is_no_longer_waited_for(
    state: StateView,
    uid: Seq<char>,
    id: IdentityView,
    allowed: Set<IdentityView>,
    other: Seq<char>,
)
    requires
        state.pending.contains_key(uid),
        state.pending[uid] == (PendingView::Ready { allowed }),
    ensures
        ({
            let after = state.uninvited(uid, id);
            &&& after == (StateView { pending: after.pending, ..state })
            &&& after.pending.contains_key(uid) <==> exists|left: IdentityView|
                left != id && #[trigger] allowed.contains(left)
            &&& after.pending.contains_key(uid) ==> after.pending[uid] is Ready && forall|
                left: IdentityView,
            | #[trigger]
                after.pending[uid]->allowed.contains(left) <==> allowed.contains(left) && left != id
            &&& other != uid ==> after.pending.contains_key(other) == state.pending.contains_key(
                other,
            ) && after.pending[other] == state.pending[other]
        }),
{
    lemma_uninvited(state, uid, id, allowed);
}

/// A request that waits for no ready worker has nobody to strike off.
pub proof fn only_a_request_for_ready_workers_is_struck(
    state: StateView,
    uid: Seq<char>,
    id: IdentityView,
)
    requires
        !state.pending.contains_key(uid) || state.pending[uid] is Response,
    ensures
        state.uninvited(uid, id) == state,
{
}

/// A response is accepted exactly where a request of that identifier waits for a response, from the
/// worker that it waits for or, where it is posted, from anybody. Then the request is closed and
/// nothing else changes; what is not accepted changes nothing.
pub proof fn a_response_is_accepted_where_it_is_waited_for(
    state: StateView,
    uid: Seq<char>,
    worker: Option<IdentityView>,
)
    ensures
        state.answers(uid, worker) <==> state.pending.contains_key(uid) && (state.pending[uid]
            matches PendingView::Response { worker: expected } && (worker is None || worker == Some(
            expected,
        ))),
        state.answered(uid, worker) == (if state.answers(uid, worker) {
            StateView { pending: state.pending.remove(uid), ..state }
        } else {
            state
        }),
{
}

/// A scrape is refused as unknown where no worker is registered for its instance, else for want of
/// capacity where as many scrapes are in flight as the limit allows, and otherwise not at all. Each
/// admitted scrape takes one unit of capacity, and gives one back.
pub proof fn capacity_is_taken_and_given_one_by_one(state: StateView, instance: Seq<char>)
    ensures
        (forall|name: Seq<char>| !#[trigger] state.workers.contains_key((instance, name)))
            ==> state.refusal(instance) == Some(ScrapeOutcome::UnknownInstance),
        (exists|name: Seq<char>| #[trigger] state.workers.contains_key((instance, name)))
            ==> state.refusal(instance) == (if state.in_flight < state.limits.max_in_flight {
            None
        } else {
            Some(ScrapeOutcome::Capacity)
        }),
        state.admitted() == (StateView { in_flight: state.in_flight + 1, ..state }),
        state.in_flight > 0 ==> state.discharged() == (StateView {
            in_flight: (state.in_flight - 1) as nat,
            ..state
        }),
        state.in_flight == 0 ==> state.discharged() == state,
{
    if exists|name: Seq<char>| #[trigger] state.workers.contains_key((instance, name)) {
        let name = choose|name: Seq<char>| #[trigger]
            state.workers.contains_key((instance, name));
        assert(state.knows(instance));
    }
}

/// An opened connection gets a number of its own and counts as open, and nothing else changes.
/// Numbers that run out begin again.
pub proof fn an_opened_connection_counts_as_open(state: StateView)
    ensures
        state.connected() == (StateView {
            next_link: if state.next_link < u64::MAX {
                (state.next_link + 1) as u64
            } else {
                0
            },
            metrics: MetricsView {
                open_connections: if state.metrics.open_connections < i64::MAX {
                    (state.metrics.open_connections + 1) as i64
                } else {
                    i64::MIN
                },
                ..state.metrics
            },
            ..state
        }),
{
}

/// A closed connection no longer counts as open and is counted under its reason alone; what it
/// registered ends, and a connection that registered nothing leaves workers and requests as they
/// are.
pub proof fn a_closed_connection_is_counted_by_its_reason(
    state: StateView,
    id: IdentityView,
    reason: CloseReason,
    other: CloseReason,
)
    requires
        state.metrics.closes.len() == 7,
    ensures
        ({
            let after = state.disconnected(None, reason);
            let counted = after.metrics.closes[other.position()];
            let before = state.metrics.closes[other.position()];
            &&& after == (StateView {
                metrics: MetricsView {
                    open_connections: if state.metrics.open_connections > i64::MIN {
                        (state.metrics.open_connections - 1) as i64
                    } else {
                        i64::MAX
                    },
                    closes: after.metrics.closes,
                    ..state.metrics
                },
                ..state
            })
            &&& after.metrics.closes.len() == 7
            &&& counted == if other != reason {
                before
            } else if before < u64::MAX {
                (before + 1) as u64
            } else {
                0
            }
            &&& state.disconnected(Some(id), reason) == (StateView {
                metrics: after.metrics,
                ..state.unregistered(id)
            })
        }),
{
}

/// The outcome of a scrape raises its own counter by one and no other, a retry raises the counter
/// of retries, and neither changes anything else.
pub proof fn outcomes_and_retries_are_counted(
    state: StateView,
    outcome: ScrapeOutcome,
    other: ScrapeOutcome,
)
    requires
        state.metrics.scrapes.len() == 7,
    ensures
        ({
            let after = state.concluded(outcome);
            let counted = after.metrics.scrapes[other.position()];
            let before = state.metrics.scrapes[other.position()];
            &&& after == (StateView {
                metrics: MetricsView { scrapes: after.metrics.scrapes, ..state.metrics },
                ..state
            })
            &&& after.metrics.scrapes.len() == 7
            &&& counted == if other != outcome {
                before
            } else if before < u64::MAX {
                (before + 1) as u64
            } else {
                0
            }
        }),
        state.retried() == (StateView {
            metrics: MetricsView {
                retries: if state.metrics.retries < u64::MAX {
                    (state.metrics.retries + 1) as u64
                } else {
                    0
                },
                ..state.metrics
            },
            ..state
        }),
{
}

/// The gauges show how many workers of wire version 1 and below, 2, and 3 and above are registered,
/// how many requests are open, and how many scrapes hold capacity.
pub proof fn the_gauges_count_what_is_there(state: StateView, snapshot: Snapshot)
    requires
        state.shows(snapshot),
    ensures
        snapshot.workers_by_version@[0] == Set::new(
            |key: WorkerKey| state.workers.contains_key(key) && state.workers[key].version <= 1,
        ).len(),
        snapshot.workers_by_version@[1] == Set::new(
            |key: WorkerKey| state.workers.contains_key(key) && state.workers[key].version == 2,
        ).len(),
        snapshot.workers_by_version@[2] == Set::new(
            |key: WorkerKey| state.workers.contains_key(key) && state.workers[key].version >= 3,
        ).len(),
        snapshot.pending == state.pending.dom().len(),
        snapshot.in_flight == state.in_flight,
{
    assert(snapshot.workers_by_version@[0] == state.class_size(0));
    assert(snapshot.workers_by_version@[1] == state.class_size(1));
    assert(snapshot.workers_by_version@[2] == state.class_size(2));
    assert(keys_where(state.workers, counted_under(0)) =~= Set::new(
        |key: WorkerKey| state.workers.contains_key(key) && state.workers[key].version <= 1,
    ));
    assert(keys_where(state.workers, counted_under(1)) =~= Set::new(
        |key: WorkerKey| state.workers.contains_key(key) && state.workers[key].version == 2,
    ));
    assert(keys_where(state.workers, counted_under(2)) =~= Set::new(
        |key: WorkerKey| state.workers.contains_key(key) && state.workers[key].version >= 3,
    ));
}

} // verus!

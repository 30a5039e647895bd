//! Which workers a scrape gets, said of what the server holds of each worker. The clock is read in
//! whole milliseconds, as far as they can be counted.

use crate::limits::{in_millis, silence};
use crate::metrics::ScrapeOutcome;
use crate::model::{
    CandidateView, Conditions, IdentityView, PendingView, ReserveError, ReservedView,
    SelectionView, StateView, WorkerView,
};
use crate::outside::is_random_uuid;
use crate::scrape::{
    asked_identities, attempted, begins, begins_anew, dispatched, retries, starts, ScrapeView,
    StepView,
};
use vstd::prelude::*;

verus! {

/// Silence is counted in whole milliseconds, and staleness in nanoseconds.
proof fn lemma_recent(now: u64, last_seen: u64, stale_after: u128)
    ensures
        silence(now, last_seen) <= in_millis(stale_after) <==> (now - last_seen) * 1_000_000
            <= stale_after,
{
}

/// What makes a worker usable, by its fields.
proof fn lemma_usable(state: StateView, terms: Conditions, name: Seq<char>)
    ensures
        state.usable((terms.instance, name), terms) <==> {
            let worker = state.workers[(terms.instance, name)];
            &&& state.workers.contains_key((terms.instance, name))
            &&& !worker.busy
            &&& !terms.closed.contains(worker.link)
            &&& !terms.excluded.contains(
                IdentityView {
                    instance: terms.instance,
                    name,
                    generation: worker.generation,
                },
            )
            &&& (terms.now - worker.last_seen) * 1_000_000 <= state.limits.stale_after
        },
{
    let worker = state.workers[(terms.instance, name)];
    lemma_recent(terms.now, worker.last_seen, state.limits.stale_after);
}

/// A selection succeeds where some worker of the instance serves no scrape, has an open connection,
/// is not excluded, and was silent for no longer than the limit; and where such a worker speaks
/// wire version 2 or newer, it is one of those that are asked, as far as they can all be asked.
pub proof fn a_free_worker_is_found(
    state: StateView,
    terms: Conditions,
    selection: Result<SelectionView, ReserveError>,
    name: Seq<char>,
    worker: WorkerView,
)
    requires
        state.offers(terms, selection),
        state.workers.contains_key((terms.instance, name)),
        state.workers[(terms.instance, name)] == worker,
        !worker.busy,
        !terms.closed.contains(worker.link),
        !terms.excluded.contains(
            (IdentityView { instance: terms.instance, name, generation: worker.generation }),
        ),
        (terms.now - worker.last_seen) * 1_000_000 <= state.limits.stale_after,
    ensures
        selection is Ok,
        worker.version >= 2 ==> {
            &&& selection matches Ok(SelectionView::Ready(asked))
            &&& asked.len() < 1024 ==> exists|i: int|
                0 <= i < asked.len() && #[trigger] asked[i] == (CandidateView {
                    identity: IdentityView {
                        instance: terms.instance,
                        name,
                        generation: worker.generation,
                    },
                    link: worker.link,
                })
        },
{
    let key = (terms.instance, name);
    lemma_usable(state, terms, name);
    assert(state.usable(key, terms));
    if worker.version >= 2 {
        assert(state.usable_ready(key, terms));
        if let Ok(SelectionView::Ready(asked)) = selection {
            if asked.len() < 1024 {
                assert(asked.contains(state.candidate_of(key)));
            }
        }
    } else {
        assert(state.usable_legacy(key, terms));
    }
}

/// Whoever a selection finds is registered for the instance under its name, generation and
/// connection, serves no scrape, has an open connection, is not excluded and was silent for no
/// longer than the limit. One worker of wire version 1 is taken, or up to 1024 of newer versions
/// are asked, each once.
pub proof fn whoever_is_found_is_free(
    state: StateView,
    terms: Conditions,
    selection: SelectionView,
)
    requires
        state.offers(terms, Ok(selection)),
    ensures
        match selection {
            SelectionView::Legacy(found) => {
                let worker = state.workers[(terms.instance, found.identity.name)];
                &&& state.workers.contains_key((terms.instance, found.identity.name))
                &&& found.identity.instance == terms.instance
                &&& found.identity.generation == worker.generation
                &&& found.link == worker.link
                &&& found.version == worker.version
                &&& worker.version < 2
                &&& !worker.busy
                &&& !terms.closed.contains(worker.link)
                &&& !terms.excluded.contains(found.identity)
                &&& (terms.now - worker.last_seen) * 1_000_000 <= state.limits.stale_after
            },
            SelectionView::Ready(asked) => {
                &&& 1 <= asked.len() <= 1024
                &&& forall|i: int|
                    0 <= i < asked.len() ==> {
                        let found = #[trigger] asked[i];
                        let worker = state.workers[(terms.instance, found.identity.name)];
                        &&& state.workers.contains_key((terms.instance, found.identity.name))
                        &&& found.identity.instance == terms.instance
                        &&& found.identity.generation == worker.generation
                        &&& found.link == worker.link
                        &&& worker.version >= 2
                        &&& !worker.busy
                        &&& !terms.closed.contains(worker.link)
                        &&& !terms.excluded.contains(found.identity)
                        &&& (terms.now - worker.last_seen) * 1_000_000 <= state.limits.stale_after
                    }
                &&& forall|i: int, j: int|
                    0 <= i < j < asked.len() ==> (#[trigger] asked[i]).identity.name != (
                    #[trigger] asked[j]).identity.name
            },
        },
{
    match selection {
        SelectionView::Legacy(found) => {
            let key = found.identity.key();
            assert(state.usable_legacy(key, terms));
            assert(found == state.reserved_of(key));
            lemma_usable(state, terms, found.identity.name);
        },
        SelectionView::Ready(asked) => {
            assert forall|i: int| 0 <= i < asked.len() implies {
                let found = #[trigger] asked[i];
                let worker = state.workers[(terms.instance, found.identity.name)];
                &&& state.workers.contains_key((terms.instance, found.identity.name))
                &&& found.identity.instance == terms.instance
                &&& found.identity.generation == worker.generation
                &&& found.link == worker.link
                &&& worker.version >= 2
                &&& !worker.busy
                &&& !terms.closed.contains(worker.link)
                &&& !terms.excluded.contains(found.identity)
                &&& (terms.now - worker.last_seen) * 1_000_000 <= state.limits.stale_after
            } by {
                let key = asked[i].identity.key();
                assert(state.usable_ready(key, terms));
                assert(asked[i] == state.candidate_of(key));
                lemma_usable(state, terms, asked[i].identity.name);
            }
            assert forall|i: int, j: int| 0 <= i < j < asked.len() implies (
            #[trigger] asked[i]).identity.name != (#[trigger] asked[j]).identity.name by {
                assert(asked[i].identity != asked[j].identity);
                assert(asked[i].identity.name == asked[j].identity.name ==> asked[i].identity
                    =~= asked[j].identity);
            }
        },
    }
}

/// A selection fails for two reasons: no worker at all is registered for the instance, or some are
/// and each of them serves a scrape, has a closed connection, is excluded, or was silent for longer
/// than the limit.
pub proof fn a_selection_fails_only_in_vain(
    state: StateView,
    terms: Conditions,
    selection: Result<SelectionView, ReserveError>,
)
    requires
        state.offers(terms, selection),
    ensures
        selection is Err <==> forall|name: Seq<char>| #[trigger]
            state.workers.contains_key((terms.instance, name)) ==> {
                let worker = state.workers[(terms.instance, name)];
                ||| worker.busy
                ||| terms.closed.contains(worker.link)
                ||| terms.excluded.contains(
                    IdentityView {
                        instance: terms.instance,
                        name,
                        generation: worker.generation,
                    },
                )
                ||| (terms.now - worker.last_seen) * 1_000_000 > state.limits.stale_after
            },
        selection == Err::<SelectionView, ReserveError>(ReserveError::Unknown) <==> forall|
            name: Seq<char>,
        | !#[trigger] state.workers.contains_key((terms.instance, name)),
{
    match selection {
        Ok(found) => {
            whoever_is_found_is_free(state, terms, found);
            let name = match found {
                SelectionView::Legacy(worker) => worker.identity.name,
                SelectionView::Ready(asked) => asked[0].identity.name,
            };
            assert(state.workers.contains_key((terms.instance, name)));
        },
        Err(_) => {
            assert forall|name: Seq<char>| #[trigger]
                state.workers.contains_key((terms.instance, name)) implies {
                let worker = state.workers[(terms.instance, name)];
                ||| worker.busy
                ||| terms.closed.contains(worker.link)
                ||| terms.excluded.contains(
                    IdentityView {
                        instance: terms.instance,
                        name,
                        generation: worker.generation,
                    },
                )
                ||| (terms.now - worker.last_seen) * 1_000_000 > state.limits.stale_after
            } by {
                let worker = state.workers[(terms.instance, name)];
                if !(worker.busy || terms.closed.contains(worker.link) || terms.excluded.contains(
                    IdentityView {
                        instance: terms.instance,
                        name,
                        generation: worker.generation,
                    },
                ) || (terms.now - worker.last_seen) * 1_000_000 > state.limits.stale_after) {
                    a_free_worker_is_found(state, terms, selection, name, worker);
                }
            }
        },
    }
}

/// A scrape that waits for a worker and looks again goes on waiting exactly where every worker of
/// the instance serves a scrape, has a closed connection, was lost before, or was silent for longer
/// than the limit. Then nothing changes, and the wait ends when it would have ended. Where some
/// worker is free, of whatever wire version, the scrape goes to a worker at once.
pub proof fn a_scrape_waits_on_only_in_vain(
    state: StateView,
    scrape: ScrapeView,
    until: u128,
    uid: Seq<char>,
    now: u128,
    clock: u64,
    closed: Set<u64>,
    after: (StateView, StepView),
)
    requires
        retries(state, scrape, until, uid, now, closed, after),
        clock * 1_000_000 <= now,
        clock < u64::MAX ==> now < (clock + 1) * 1_000_000,
    ensures
        after.1 is AwaitWorker <==> forall|name: Seq<char>| #[trigger]
            state.workers.contains_key((scrape.instance, name)) ==> {
                let worker = state.workers[(scrape.instance, name)];
                ||| worker.busy
                ||| closed.contains(worker.link)
                ||| scrape.excluded.contains(
                    IdentityView {
                        instance: scrape.instance,
                        name,
                        generation: worker.generation,
                    },
                )
                ||| (clock - worker.last_seen) * 1_000_000 > state.limits.stale_after
            },
        after.1 is AwaitWorker ==> after == (state, StepView::AwaitWorker { scrape, until }),
        after.1 !is AwaitWorker ==> after.1 is SendReady || after.1 is SendRequest,
{
    let terms = scrape.terms(now, closed);
    let selection = choose|selection: Result<SelectionView, ReserveError>| #[trigger]
        state.offers(terms, selection) && after == (match selection {
            Ok(found) => dispatched(state, scrape, uid, found),
            Err(_) => (state, StepView::AwaitWorker { scrape, until }),
        });
    a_selection_fails_only_in_vain(state, terms, selection);
}

/// An attempt goes to a worker exactly where some worker of the instance is free: it serves no
/// scrape, has an open connection, was not lost before, and was silent for no longer than the
/// limit. Otherwise a scrape that lost a worker waits for one, as long as the limit says, and any
/// other is over: its capacity is given back, and it is told apart whether the instance has
/// workers at all.
pub proof fn an_attempt_goes_to_a_worker_where_it_can(
    state: StateView,
    scrape: ScrapeView,
    uid: Seq<char>,
    now: u128,
    clock: u64,
    closed: Set<u64>,
    after: (StateView, StepView),
)
    requires
        begins(state, scrape, uid, now, closed, after),
        clock * 1_000_000 <= now,
        clock < u64::MAX ==> now < (clock + 1) * 1_000_000,
    ensures
        !(after.1 is SendReady || after.1 is SendRequest) <==> forall|name: Seq<char>| #[trigger]
            state.workers.contains_key((scrape.instance, name)) ==> {
                let worker = state.workers[(scrape.instance, name)];
                ||| worker.busy
                ||| closed.contains(worker.link)
                ||| scrape.excluded.contains(
                    IdentityView {
                        instance: scrape.instance,
                        name,
                        generation: worker.generation,
                    },
                )
                ||| (clock - worker.last_seen) * 1_000_000 > state.limits.stale_after
            },
        after.1 is AwaitWorker ==> {
            &&& scrape.lost_worker
            &&& after.0 == state
            &&& after.1 matches StepView::AwaitWorker { scrape: same, until }
            &&& same == scrape
            &&& until == if now + state.limits.retry_wait <= u128::MAX {
                now + state.limits.retry_wait
            } else {
                u128::MAX as int
            }
        },
        after.1 is Finished ==> {
            &&& !scrape.lost_worker
            &&& after.0 == (StateView { in_flight: after.0.in_flight, ..state })
            &&& state.in_flight > 0 ==> after.0.in_flight == state.in_flight - 1
            &&& after.1 == StepView::Finished(
                Err(
                    if exists|name: Seq<char>| #[trigger]
                        state.workers.contains_key((scrape.instance, name)) {
                        ScrapeOutcome::NoIdleWorker
                    } else {
                        ScrapeOutcome::UnknownInstance
                    },
                ),
            )
        },
        after.1 is SendReady || after.1 is SendRequest || after.1 is AwaitWorker
            || after.1 is Finished,
{
    let terms = scrape.terms(now, closed);
    let selection = choose|selection: Result<SelectionView, ReserveError>| #[trigger]
        state.offers(terms, selection) && after == attempted(state, scrape, uid, now, selection);
    a_selection_fails_only_in_vain(state, terms, selection);
}

/// Where an attempt asks workers whether they are ready, each of them is registered for the
/// instance, speaks wire version 2 or newer, serves no scrape, has an open connection, was not lost
/// before and was silent for no longer than the limit. The request waits for exactly those workers,
/// and nothing else changes. So it is where a scrape looks again.
pub proof fn an_attempt_asks_free_workers(
    state: StateView,
    scrape: ScrapeView,
    until: u128,
    uid: Seq<char>,
    now: u128,
    clock: u64,
    closed: Set<u64>,
    after: (StateView, StepView),
    asked: Seq<CandidateView>,
    i: int,
)
    requires
        begins(state, scrape, uid, now, closed, after) || retries(
            state,
            scrape,
            until,
            uid,
            now,
            closed,
            after,
        ),
        clock * 1_000_000 <= now,
        clock < u64::MAX ==> now < (clock + 1) * 1_000_000,
        after.1 is SendReady,
        after.1->SendReady_asked == asked,
        0 <= i < asked.len(),
    ensures
        ({
            let found = asked[i];
            let worker = state.workers[(scrape.instance, found.identity.name)];
            &&& state.workers.contains_key((scrape.instance, found.identity.name))
            &&& found.identity.instance == scrape.instance
            &&& found.identity.generation == worker.generation
            &&& found.link == worker.link
            &&& worker.version >= 2
            &&& !worker.busy
            &&& !closed.contains(worker.link)
            &&& !scrape.excluded.contains(found.identity)
            &&& (clock - worker.last_seen) * 1_000_000 <= state.limits.stale_after
        }),
        after.1 == (StepView::SendReady { scrape, uid, asked }),
        after.0 == (StateView { pending: after.0.pending, ..state }),
        ({
            let request = after.0.pending[uid];
            &&& after.0.pending == state.pending.insert(uid, request)
            &&& request is Ready
            &&& forall|id: IdentityView| #[trigger]
                request->allowed.contains(id) <==> exists|j: int|
                    0 <= j < asked.len() && (#[trigger] asked[j]).identity == id
        }),
{
    let terms = scrape.terms(now, closed);
    let selection = lemma_found(state, scrape, until, uid, now, closed, after);
    whoever_is_found_is_free(state, terms, selection);
    assert(after.0.pending[uid] == (PendingView::Ready { allowed: asked_identities(asked) }));
}

/// Where an attempt takes a worker without asking, the worker is registered for the instance,
/// speaks wire version 1, served no scrape, has an open connection, was not lost before and was
/// silent for no longer than the limit. Now it serves the scrape, and the request waits for its
/// response; nothing else changes. So it is where a scrape looks again.
pub proof fn an_attempt_takes_a_free_worker(
    state: StateView,
    scrape: ScrapeView,
    until: u128,
    uid: Seq<char>,
    now: u128,
    clock: u64,
    closed: Set<u64>,
    after: (StateView, StepView),
    found: ReservedView,
)
    requires
        begins(state, scrape, uid, now, closed, after) || retries(
            state,
            scrape,
            until,
            uid,
            now,
            closed,
            after,
        ),
        clock * 1_000_000 <= now,
        clock < u64::MAX ==> now < (clock + 1) * 1_000_000,
        after.1 is SendRequest,
        after.1->SendRequest_worker == found,
    ensures
        ({
            let key = (scrape.instance, found.identity.name);
            let worker = state.workers[key];
            &&& state.workers.contains_key(key)
            &&& found.identity.instance == scrape.instance
            &&& found.identity.generation == worker.generation
            &&& found.link == worker.link
            &&& found.version == worker.version
            &&& worker.version < 2
            &&& !worker.busy
            &&& !closed.contains(worker.link)
            &&& !scrape.excluded.contains(found.identity)
            &&& (clock - worker.last_seen) * 1_000_000 <= state.limits.stale_after
            &&& after.0.workers == state.workers.insert(key, WorkerView { busy: true, ..worker })
        }),
        after.1 == (StepView::SendRequest { scrape, uid, worker: found }),
        after.0 == (StateView {
            workers: after.0.workers,
            pending: state.pending.insert(
                uid,
                PendingView::Response { worker: found.identity },
            ),
            ..state
        }),
        forall|name: Seq<char>| #[trigger]
            state.workers.contains_key((scrape.instance, name)) ==> {
                let worker = state.workers[(scrape.instance, name)];
                ||| worker.version < 2
                ||| worker.busy
                ||| closed.contains(worker.link)
                ||| scrape.excluded.contains(
                    IdentityView {
                        instance: scrape.instance,
                        name,
                        generation: worker.generation,
                    },
                )
                ||| (clock - worker.last_seen) * 1_000_000 > state.limits.stale_after
            },
{
    let terms = scrape.terms(now, closed);
    let selection = lemma_found(state, scrape, until, uid, now, closed, after);
    whoever_is_found_is_free(state, terms, selection);
    assert forall|name: Seq<char>| #[trigger]
        state.workers.contains_key((scrape.instance, name)) implies {
        let worker = state.workers[(scrape.instance, name)];
        ||| worker.version < 2
        ||| worker.busy
        ||| closed.contains(worker.link)
        ||| scrape.excluded.contains(
            IdentityView { instance: scrape.instance, name, generation: worker.generation },
        )
        ||| (clock - worker.last_seen) * 1_000_000 > state.limits.stale_after
    } by {
        lemma_usable(state, terms, name);
        assert(!state.usable_ready((scrape.instance, name), terms));
    }
}

/// What an attempt that went to workers had found.
proof fn lemma_found(
    state: StateView,
    scrape: ScrapeView,
    until: u128,
    uid: Seq<char>,
    now: u128,
    closed: Set<u64>,
    after: (StateView, StepView),
) -> (selection: SelectionView)
    requires
        begins(state, scrape, uid, now, closed, after) || retries(
            state,
            scrape,
            until,
            uid,
            now,
            closed,
            after,
        ),
        after.1 is SendReady || after.1 is SendRequest,
    ensures
        state.offers(scrape.terms(now, closed), Ok(selection)),
        after == dispatched(state, scrape, uid, selection),
{
    let terms = scrape.terms(now, closed);
    if begins(state, scrape, uid, now, closed, after) {
        let selection = choose|selection: Result<SelectionView, ReserveError>| #[trigger]
            state.offers(terms, selection) && after == attempted(
                state,
                scrape,
                uid,
                now,
                selection,
            );
        selection->Ok_0
    } else {
        let selection = choose|selection: Result<SelectionView, ReserveError>| #[trigger]
            state.offers(terms, selection) && after == (match selection {
                Ok(found) => dispatched(state, scrape, uid, found),
                Err(_) => (state, StepView::AwaitWorker { scrape, until }),
            });
        selection->Ok_0
    }
}

/// A scrape of an instance without workers is refused as unknown, whatever else holds, and one of
/// another instance is refused where as many scrapes are in flight as the limit allows; a refused
/// scrape changes nothing. An admitted one takes one unit of capacity and begins an attempt, under
/// an identifier of its own, in the state that is otherwise the same.
pub proof fn a_scrape_is_admitted_where_there_is_room(
    state: StateView,
    scrape: ScrapeView,
    now: u128,
    closed: Set<u64>,
    after: (StateView, StepView),
)
    requires
        starts(state, scrape, now, closed, after),
    ensures
        (forall|name: Seq<char>| !#[trigger] state.workers.contains_key((scrape.instance, name)))
            ==> after == (
            state,
            StepView::Finished(Err(ScrapeOutcome::UnknownInstance)),
        ),
        (exists|name: Seq<char>| #[trigger] state.workers.contains_key((scrape.instance, name)))
            ==> if state.in_flight < state.limits.max_in_flight {
            exists|uid: Seq<char>|
                #![trigger is_random_uuid(uid)]
                is_random_uuid(uid) && begins(
                    StateView { in_flight: state.in_flight + 1, ..state },
                    scrape,
                    uid,
                    now,
                    closed,
                    after,
                )
        } else {
            after == (state, StepView::Finished(Err(ScrapeOutcome::Capacity)))
        },
{
    if exists|name: Seq<char>| #[trigger] state.workers.contains_key((scrape.instance, name)) {
        let name = choose|name: Seq<char>| #[trigger]
            state.workers.contains_key((scrape.instance, name));
        assert(state.knows(scrape.instance));
        if state.in_flight < state.limits.max_in_flight {
            assert(begins_anew(state.admitted(), scrape, now, closed, after));
        }
    } else {
        assert(!state.knows(scrape.instance));
    }
}

} // verus!

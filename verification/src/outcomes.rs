//! How scrapes go on and how they end, said of what the server holds before and after.

use crate::laws::{lemma_asked, not_reached};
use crate::metrics::{MetricsView, ScrapeOutcome};
use crate::model::{
    CandidateView, IdentityView, PendingView, ReserveError, ReservedView, SelectionView,
    StateView, WorkerView,
};
use crate::outside::is_random_uuid;
use crate::scrape::{
    abandoned, answered_in_time, asked_identities, asked_state, attempted, begins, begins_anew,
    broadcast_done, candidates_lost, goes_on, not_answered_in_time, not_ready_in_time,
    not_replaced_in_time, outcome_of, reply_of, request_done, result_view, taken, was_delivered,
    worker_lost, ResponseView, Scrape, ScrapeView, Step, StepView,
};
use crate::state::{identities, links, ProxyResponse, WorkerIdentity};
use vstd::prelude::*;

verus! {

/// A scrape that lost the worker selected for it, before or after the worker was given the
/// request, or all the candidates, because they disconnected or could not be asked, is over where
/// it has made three attempts or where its deadline is nearer than half a second. Otherwise it
/// makes one more attempt, as a scrape that lost a worker: under an identifier of its own, without
/// the workers that it lost now and before, for the same resource and until the same deadline. The
/// request of the attempt before is closed, its worker serves no scrape any more, as far as it is
/// still registered, and the retry is counted.
pub proof fn a_lost_worker_costs_an_attempt(
    state: StateView,
    scrape: ScrapeView,
    worker: Option<IdentityView>,
    uid: Seq<char>,
    lost: Set<IdentityView>,
    now: u128,
    closed: Set<u64>,
    after: (StateView, StepView),
    asked: Seq<CandidateView>,
    delivered: Seq<bool>,
    freed: StateView,
    next: ScrapeView,
)
    requires
        match worker {
            Some(id) => lost == set![id] && (worker_lost(
                state,
                scrape,
                uid,
                id,
                now,
                closed,
                after,
            ) || request_done(state, scrape, uid, id, false, now, closed, after)),
            None => {
                &&& forall|id: IdentityView| #[trigger]
                    lost.contains(id) <==> exists|i: int|
                        0 <= i < asked.len() && (#[trigger] asked[i]).identity == id
                &&& candidates_lost(state, scrape, uid, asked, now, closed, after) || {
                    &&& broadcast_done(state, scrape, uid, asked, delivered, now, closed, after)
                    &&& forall|i: int| 0 <= i < delivered.len() ==> !#[trigger] delivered[i]
                }
            },
        },
        freed == (StateView {
            workers: freed.workers,
            pending: state.pending.remove(uid),
            ..state
        }),
        worker is None ==> freed.workers == state.workers,
        worker matches Some(id) ==> {
            let key = (id.instance, id.name);
            if state.workers.contains_key(key) && state.workers[key].generation == id.generation {
                freed.workers == state.workers.insert(
                    key,
                    WorkerView { busy: false, ..state.workers[key] },
                )
            } else {
                freed.workers == state.workers
            }
        },
        next == (ScrapeView {
            excluded: scrape.excluded.union(lost),
            lost_worker: true,
            attempt: scrape.attempt + 1,
            ..scrape
        }),
    ensures
        scrape.attempt >= 3 || (scrape.deadline matches Some(end) && end < now + 500_000_000) ==> {
            &&& after.1 == StepView::Finished(Err(ScrapeOutcome::WorkerLost))
            &&& after.0 == (StateView { in_flight: after.0.in_flight, ..freed })
            &&& state.in_flight > 0 ==> after.0.in_flight == state.in_flight - 1
        },
        scrape.attempt < 3 && (scrape.deadline matches Some(end) ==> now + 500_000_000 <= end)
            ==> exists|own: Seq<char>|
            #![trigger is_random_uuid(own)]
            is_random_uuid(own) && begins(
                StateView {
                    metrics: MetricsView {
                        retries: freed.metrics.retries.wrapping_add(1),
                        ..freed.metrics
                    },
                    ..freed
                },
                next,
                own,
                now,
                closed,
                after,
            ),
{
    if worker is None {
        assert(lost =~= asked_identities(asked));
    }
    if worker is Some || candidates_lost(state, scrape, uid, asked, now, closed, after) {
        lemma_another_attempt(state, scrape, worker, uid, lost, now, closed, after, freed, next);
    } else {
        let n = asked.len() as int;
        let between = asked_state(state, uid, asked, delivered, n);
        assert forall|i: int| 0 <= i < n implies !#[trigger] was_delivered(delivered, i) by {
            assert(0 <= i < delivered.len() ==> !delivered[i]);
        }
        lemma_asking_touches_one_request(state, uid, asked, delivered, n);
        lemma_another_attempt(between, scrape, worker, uid, lost, now, closed, after, freed, next);
    }
}

proof fn lemma_another_attempt(
    state: StateView,
    scrape: ScrapeView,
    worker: Option<IdentityView>,
    uid: Seq<char>,
    lost: Set<IdentityView>,
    now: u128,
    closed: Set<u64>,
    after: (StateView, StepView),
    freed: StateView,
    next: ScrapeView,
)
    requires
        goes_on(state, scrape, worker, uid, lost, now, closed, after),
        freed == state.finished(worker, uid),
        next == scrape.without(lost).next(),
    ensures
        scrape.attempt >= 3 || (scrape.deadline matches Some(end) && end < now + 500_000_000) ==> {
            &&& after.1 == StepView::Finished(Err(ScrapeOutcome::WorkerLost))
            &&& after.0 == freed.discharged()
        },
        scrape.attempt < 3 && (scrape.deadline matches Some(end) ==> now + 500_000_000 <= end)
            ==> exists|own: Seq<char>|
            #![trigger is_random_uuid(own)]
            is_random_uuid(own) && begins(freed.retried(), next, own, now, closed, after),
{
    if scrape.attempt < 3 && (scrape.deadline matches Some(end) ==> now + 500_000_000 <= end) {
        assert(!scrape.exhausted(now));
        assert(begins_anew(freed.retried(), next, now, closed, after));
    }
}

proof fn lemma_asking_touches_one_request(
    state: StateView,
    uid: Seq<char>,
    asked: Seq<CandidateView>,
    delivered: Seq<bool>,
    n: int,
)
    ensures
        ({
            let after = asked_state(state, uid, asked, delivered, n);
            &&& after == (StateView { pending: after.pending, ..state })
            &&& after.pending.remove(uid) == state.pending.remove(uid)
        }),
    decreases n,
{
    if n > 0 {
        lemma_asking_touches_one_request(state, uid, asked, delivered, n - 1);
        let before = asked_state(state, uid, asked, delivered, n - 1);
        let after = asked_state(state, uid, asked, delivered, n);
        assert(after.pending.remove(uid) =~= before.pending.remove(uid));
    }
}

proof fn lemma_goes_on_without(
    state: StateView,
    scrape: ScrapeView,
    worker: Option<IdentityView>,
    uid: Seq<char>,
    lost: Set<IdentityView>,
    now: u128,
    closed: Set<u64>,
    after: (StateView, StepView),
    gone: IdentityView,
)
    requires
        goes_on(state, scrape, worker, uid, lost, now, closed, after),
        lost.contains(gone) || scrape.excluded.contains(gone),
    ensures
        match after.1 {
            StepView::SendReady { asked, .. } => forall|i: int|
                0 <= i < asked.len() ==> (#[trigger] asked[i]).identity != gone,
            StepView::SendRequest { worker: found, .. } => found.identity != gone,
            StepView::AwaitWorker { scrape: next, .. } => next.excluded.contains(gone),
            StepView::Finished(result) => result == Err::<ResponseView, ScrapeOutcome>(
                ScrapeOutcome::WorkerLost,
            ),
            _ => false,
        },
{
    if !scrape.exhausted(now) {
        let freed = state.finished(worker, uid).retried();
        let next = scrape.without(lost).next();
        let terms = next.terms(now, closed);
        let own = choose|own: Seq<char>| #[trigger]
            is_random_uuid(own) && begins(freed, next, own, now, closed, after);
        let selection = choose|selection: Result<SelectionView, ReserveError>| #[trigger]
            freed.offers(terms, selection) && after == attempted(freed, next, own, now, selection);
        match selection {
            Ok(SelectionView::Ready(asked)) => {
                assert forall|i: int| 0 <= i < asked.len() implies (#[trigger] asked[i]).identity
                    != gone by {
                    assert(freed.usable_ready(asked[i].identity.key(), terms));
                    assert(asked[i] == freed.candidate_of(asked[i].identity.key()));
                }
            },
            Ok(SelectionView::Legacy(found)) => {
                assert(freed.usable_legacy(found.identity.key(), terms));
            },
            Err(_) => {},
        }
    }
}

/// A worker that was lost, before or after it was given the request, is not tried again, nor is
/// one that the scrape had lost before: none of them is asked or given the request, and a scrape
/// that waits remembers them.
pub proof fn a_lost_worker_is_not_tried_again(
    state: StateView,
    scrape: ScrapeView,
    uid: Seq<char>,
    worker: IdentityView,
    now: u128,
    closed: Set<u64>,
    after: (StateView, StepView),
    gone: IdentityView,
)
    requires
        worker_lost(state, scrape, uid, worker, now, closed, after) || request_done(
            state,
            scrape,
            uid,
            worker,
            false,
            now,
            closed,
            after,
        ),
        gone == worker || scrape.excluded.contains(gone),
    ensures
        match after.1 {
            StepView::SendReady { asked, .. } => forall|i: int|
                0 <= i < asked.len() ==> (#[trigger] asked[i]).identity != gone,
            StepView::SendRequest { worker: found, .. } => found.identity != gone,
            StepView::AwaitWorker { scrape: next, .. } => next.excluded.contains(gone),
            StepView::Finished(result) => result == Err::<ResponseView, ScrapeOutcome>(
                ScrapeOutcome::WorkerLost,
            ),
            _ => false,
        },
        ({
            let key = (worker.instance, worker.name);
            state.workers.contains_key(key) && state.workers[key].generation == worker.generation
                ==> after.0.workers.contains_key(key) && !after.0.workers[key].busy
        }),
{
    lemma_goes_on_without(
        state,
        scrape,
        Some(worker),
        uid,
        set![worker],
        now,
        closed,
        after,
        gone,
    );
    lemma_goes_on_without(
        state,
        scrape,
        Some(worker),
        uid,
        set![worker],
        now,
        closed,
        after,
        worker,
    );
    if !scrape.exhausted(now) {
        let freed = state.finished(Some(worker), uid).retried();
        let next = scrape.without(set![worker]).next();
        let own = choose|own: Seq<char>| #[trigger]
            is_random_uuid(own) && begins(freed, next, own, now, closed, after);
        let terms = next.terms(now, closed);
        let selection = choose|selection: Result<SelectionView, ReserveError>| #[trigger]
            freed.offers(terms, selection) && after == attempted(freed, next, own, now, selection);
        if let Ok(SelectionView::Legacy(found)) = selection {
            assert(freed.usable_legacy(found.identity.key(), terms));
            if found.identity.key() == worker.key() && state.holds(worker) {
                assert(found.identity =~= worker);
            }
        }
    }
}

/// Candidates that were lost, because none of them could be asked or because all of them
/// disconnected, are not tried again, nor are workers that the scrape had lost before.
pub proof fn lost_candidates_are_not_tried_again(
    state: StateView,
    scrape: ScrapeView,
    uid: Seq<char>,
    asked: Seq<CandidateView>,
    delivered: Seq<bool>,
    now: u128,
    closed: Set<u64>,
    after: (StateView, StepView),
    gone: IdentityView,
)
    requires
        candidates_lost(state, scrape, uid, asked, now, closed, after) || {
            &&& broadcast_done(state, scrape, uid, asked, delivered, now, closed, after)
            &&& forall|i: int| 0 <= i < delivered.len() ==> !#[trigger] delivered[i]
        },
        scrape.excluded.contains(gone) || exists|i: int|
            0 <= i < asked.len() && (#[trigger] asked[i]).identity == gone,
    ensures
        match after.1 {
            StepView::SendReady { asked: others, .. } => forall|i: int|
                0 <= i < others.len() ==> (#[trigger] others[i]).identity != gone,
            StepView::SendRequest { worker: found, .. } => found.identity != gone,
            StepView::AwaitWorker { scrape: next, .. } => next.excluded.contains(gone),
            StepView::Finished(result) => result == Err::<ResponseView, ScrapeOutcome>(
                ScrapeOutcome::WorkerLost,
            ),
            _ => false,
        },
{
    let lost = asked_identities(asked);
    if candidates_lost(state, scrape, uid, asked, now, closed, after) {
        lemma_goes_on_without(state, scrape, None, uid, lost, now, closed, after, gone);
    } else {
        assert forall|i: int| 0 <= i < asked.len() implies !#[trigger] was_delivered(
            delivered,
            i,
        ) by {
            assert(0 <= i < delivered.len() ==> !delivered[i]);
        }
        let asked_all = asked_state(state, uid, asked, delivered, asked.len() as int);
        lemma_goes_on_without(asked_all, scrape, None, uid, lost, now, closed, after, gone);
    }
}

/// The candidate that was selected gets the request of the same scrape, under the same identifier,
/// which from now on waits for its response; no worker changes.
pub proof fn the_selected_candidate_gets_the_request(
    state: StateView,
    scrape: ScrapeView,
    uid: Seq<char>,
    worker: ReservedView,
)
    ensures
        ({
            let after = taken(state, scrape, uid, worker);
            &&& after.1 == (StepView::SendRequest { scrape, uid, worker })
            &&& after.0 == (StateView { pending: after.0.pending, ..state })
            &&& after.0.pending.contains_key(uid)
            &&& after.0.pending[uid] == (PendingView::Response { worker: worker.identity })
            &&& forall|other: Seq<char>|
                other != uid ==> (#[trigger] after.0.pending.contains_key(other)
                    == state.pending.contains_key(other)) && after.0.pending[other]
                    == state.pending[other]
        }),
{
}

/// Whatever ends a scrape, one unit of capacity is free again, its request is closed and no other,
/// and no worker but its own changes: the worker that it had serves no scrape any more, as far as
/// it is still registered.
pub proof fn an_ended_scrape_gives_back_what_it_had(
    state: StateView,
    uid: Seq<char>,
    worker: IdentityView,
    late: ReservedView,
    response: ResponseView,
    after: (StateView, StepView),
    id: IdentityView,
    other: (Seq<char>, Seq<char>),
    request: Seq<char>,
)
    requires
        ({
            ||| after == answered_in_time(state, uid, worker, response) && id == worker
            ||| after == not_answered_in_time(state, uid, worker) && id == worker
            ||| after == not_ready_in_time(state, uid, Some(late)) && id == late.identity
        }),
    ensures
        state.in_flight > 0 ==> after.0.in_flight == state.in_flight - 1,
        !after.0.pending.contains_key(uid),
        request != uid ==> after.0.pending.contains_key(request) == state.pending.contains_key(
            request,
        ) && after.0.pending[request] == state.pending[request],
        state.workers.contains_key((id.instance, id.name)) && state.workers[(
            id.instance,
            id.name,
        )].generation == id.generation ==> after.0.workers.contains_key((id.instance, id.name))
            && after.0.workers[(id.instance, id.name)] == (WorkerView {
            busy: false,
            ..state.workers[(id.instance, id.name)]
        }),
        other != (id.instance, id.name) ==> after.0.workers.contains_key(other)
            == state.workers.contains_key(other) && after.0.workers[other] == state.workers[other],
        after.0.metrics == state.metrics,
        after.0.limits == state.limits,
        after.0.generation == state.generation,
        after.0.next_link == state.next_link,
{
}

/// A response ends its scrape with exactly that response; an answer that stays out ends it with the
/// timeout of the response, and a candidate that stays out with the timeout of readiness; a worker
/// that no one replaced in time ends it as lost. The capacity is given back each time.
pub proof fn each_end_has_its_outcome(
    state: StateView,
    uid: Seq<char>,
    worker: IdentityView,
    late: Option<ReservedView>,
    response: ResponseView,
)
    requires
        state.in_flight > 0,
    ensures
        answered_in_time(state, uid, worker, response).1 == StepView::Finished(Ok(response)),
        not_answered_in_time(state, uid, worker).1 == StepView::Finished(
            Err(ScrapeOutcome::ResponseTimeout),
        ),
        not_ready_in_time(state, uid, late).1 == StepView::Finished(
            Err(ScrapeOutcome::ReadyTimeout),
        ),
        not_replaced_in_time(state).1 == StepView::Finished(Err(ScrapeOutcome::WorkerLost)),
        answered_in_time(state, uid, worker, response).0.in_flight == state.in_flight - 1,
        not_answered_in_time(state, uid, worker).0.in_flight == state.in_flight - 1,
        not_ready_in_time(state, uid, late).0.in_flight == state.in_flight - 1,
        not_replaced_in_time(state).0 == (StateView {
            in_flight: (state.in_flight - 1) as nat,
            ..state
        }),
        not_ready_in_time(state, uid, None).0 == (StateView {
            pending: state.pending.remove(uid),
            in_flight: (state.in_flight - 1) as nat,
            ..state
        }),
{
}

/// A scrape that nobody waits for any more leaves nothing behind: its request is closed, the
/// worker that it has serves no scrape any more, as far as it is still registered, and its
/// capacity is free again. What is over already changes nothing.
pub proof fn an_abandoned_scrape_gives_back_what_it_has(
    state: StateView,
    step: StepView,
    scrape: ScrapeView,
    uid: Seq<char>,
    asked: Seq<CandidateView>,
    found: ReservedView,
    wait: u128,
)
    requires
        state.in_flight > 0,
    ensures
        ({
            let waiting = StepView::AwaitWorker { scrape, until: wait };
            let asking = StepView::SendReady { scrape, uid, asked };
            let hoping = StepView::AwaitReady { scrape, uid, asked, wait };
            let free = StateView { in_flight: (state.in_flight - 1) as nat, ..state };
            &&& abandoned(state, waiting) == free
            &&& abandoned(state, asking) == (StateView {
                pending: state.pending.remove(uid),
                ..free
            })
            &&& abandoned(state, hoping) == abandoned(state, asking)
        }),
        ({
            let id = found.identity;
            let key = (id.instance, id.name);
            let sending = StepView::SendRequest { scrape, uid, worker: found };
            let expecting = StepView::AwaitResponse { scrape, uid, worker: id, wait };
            let after = abandoned(state, sending);
            &&& abandoned(state, expecting) == after
            &&& after == (StateView {
                workers: after.workers,
                pending: state.pending.remove(uid),
                in_flight: (state.in_flight - 1) as nat,
                ..state
            })
            &&& if state.workers.contains_key(key) && state.workers[key].generation
                == id.generation {
                after.workers == state.workers.insert(
                    key,
                    WorkerView { busy: false, ..state.workers[key] },
                )
            } else {
                after.workers == state.workers
            }
        }),
        step is Finished ==> abandoned(state, step) == state,
{
}

/// Prometheus gets what the exporter returned, or the status of the failure: 404 and a text where
/// no worker is registered, 501 where the exporter took too long, and 503 for everything else,
/// without a text. What it got is what is counted: a response as proxied, and a failure as what it
/// is.
pub proof fn prometheus_is_told_what_happened(
    result: Result<ResponseView, ScrapeOutcome>,
    reply: (u16, Seq<char>),
)
    requires
        reply == reply_of(result),
    ensures
        result matches Ok(response) ==> reply.0 == response.status && reply.1 == response.body
            && outcome_of(result) == ScrapeOutcome::Proxied,
        result matches Err(outcome) ==> {
            &&& outcome_of(result) == outcome
            &&& outcome == ScrapeOutcome::UnknownInstance ==> reply == (404u16, "no such client"@)
            &&& outcome == ScrapeOutcome::ResponseTimeout ==> reply.0 == 501
            &&& outcome != ScrapeOutcome::UnknownInstance && outcome
                != ScrapeOutcome::ResponseTimeout ==> reply.0 == 503
            &&& outcome != ScrapeOutcome::UnknownInstance ==> reply.1.len() == 0
        },
{
}

/// The reply is made from the very status and body that the exporter returned, or from the very
/// outcome that the scrape ended with.
pub proof fn a_reply_is_made_from_the_result(response: ProxyResponse, outcome: ScrapeOutcome)
    ensures
        reply_of(result_view(Ok(response))) == (response.status, response.body@),
        outcome_of(result_view(Ok(response))) == ScrapeOutcome::Proxied,
        result_view(Err(outcome)) == Err::<ResponseView, ScrapeOutcome>(outcome),
{
}

/// A scrape begins with its first attempt, has lost no worker, and asks for the resource of the
/// instance until the deadline that it was given.
pub proof fn a_scrape_begins_with_its_first_attempt(
    instance: Seq<char>,
    resource: Seq<char>,
    deadline: Option<u128>,
    id: IdentityView,
)
    ensures
        ({
            let scrape = ScrapeView::fresh(instance, resource, deadline);
            &&& scrape.instance == instance
            &&& scrape.resource == resource
            &&& scrape.deadline == deadline
            &&& !scrape.excluded.contains(id)
            &&& !scrape.lost_worker
            &&& scrape.attempt == 1
        }),
{
}

/// After a broadcast that reached a candidate, the request goes on waiting for exactly those
/// workers that it waited for before, less those whose question was not sent; where nobody is left
/// it is dropped. No other request changes.
pub proof fn a_request_waits_for_those_that_were_asked(
    state: StateView,
    scrape: ScrapeView,
    uid: Seq<char>,
    allowed: Set<IdentityView>,
    asked: Seq<CandidateView>,
    delivered: Seq<bool>,
    now: u128,
    closed: Set<u64>,
    after: (StateView, StepView),
    one: int,
    id: IdentityView,
    other: Seq<char>,
)
    requires
        broadcast_done(state, scrape, uid, asked, delivered, now, closed, after),
        state.pending.contains_key(uid),
        state.pending[uid] == (PendingView::Ready { allowed }),
        allowed.contains(id),
        0 <= one < asked.len() && one < delivered.len() && delivered[one],
    ensures
        ({
            let missed = exists|i: int|
                0 <= i < asked.len() && (#[trigger] asked[i]).identity == id && !(i
                    < delivered.len() && delivered[i]);
            if missed {
                after.0.pending.contains_key(uid) ==> !(
                after.0.pending[uid]->allowed).contains(id)
            } else {
                &&& after.0.pending.contains_key(uid)
                &&& after.0.pending[uid] is Ready
                &&& after.0.pending[uid]->allowed.contains(id)
            }
        }),
        after.0.pending.contains_key(uid) ==> after.0.pending[uid] is Ready
            && after.0.pending[uid]->allowed.subset_of(allowed) && exists|left: IdentityView|
            after.0.pending[uid]->allowed.contains(left),
        other != uid ==> after.0.pending.contains_key(other) == state.pending.contains_key(other)
            && after.0.pending[other] == state.pending[other],
{
    let n = asked.len() as int;
    let gone = not_reached(asked, delivered, n);
    let left = allowed.difference(gone);
    assert(was_delivered(delivered, one));
    assert(state.awaiting_ready(uid, allowed) =~= state);
    lemma_asked(state, uid, allowed, asked, delivered, n);
    assert(after.0 == asked_state(state, uid, asked, delivered, n));
    if gone.contains(id) {
        let i = choose|i: int|
            0 <= i < n && (#[trigger] asked[i]).identity == id && !was_delivered(delivered, i);
        assert(asked[i].identity == id && !(i < delivered.len() && delivered[i]));
        assert(!left.contains(id));
    } else {
        assert forall|i: int|
            0 <= i < n && (#[trigger] asked[i]).identity == id implies i < delivered.len()
            && delivered[i] by {
            assert(was_delivered(delivered, i));
        }
        assert(left.contains(id));
    }
    if exists|some: IdentityView| #[trigger] left.contains(some) {
        assert(after.0 == state.awaiting_ready(uid, left));
        assert(after.0.pending[uid] == (PendingView::Ready { allowed: left }));
        assert(after.0.pending[uid]->allowed == left);
    }
}

/// A broadcast for a request that is gone, or that waits for a response by now, changes no request.
pub proof fn a_broadcast_for_a_closed_request_changes_nothing(
    state: StateView,
    scrape: ScrapeView,
    uid: Seq<char>,
    asked: Seq<CandidateView>,
    delivered: Seq<bool>,
    now: u128,
    closed: Set<u64>,
    after: (StateView, StepView),
    one: int,
)
    requires
        broadcast_done(state, scrape, uid, asked, delivered, now, closed, after),
        !state.pending.contains_key(uid) || state.pending[uid] is Response,
        0 <= one < asked.len() && one < delivered.len() && delivered[one],
    ensures
        after.0 == state,
{
    assert(was_delivered(delivered, one));
    lemma_nobody_to_strike_off(state, uid, asked, delivered, asked.len() as int);
}

proof fn lemma_nobody_to_strike_off(
    state: StateView,
    uid: Seq<char>,
    asked: Seq<CandidateView>,
    delivered: Seq<bool>,
    n: int,
)
    requires
        !state.pending.contains_key(uid) || state.pending[uid] is Response,
    ensures
        asked_state(state, uid, asked, delivered, n) == state,
    decreases n,
{
    if n > 0 {
        lemma_nobody_to_strike_off(state, uid, asked, delivered, n - 1);
    }
}

/// What has to happen next in a scrape is what the value says: whom to ask, whom to send to, and
/// how long to wait.
pub proof fn a_step_is_taken_by_its_word(step: Step, scrape: Scrape, i: int)
    ensures
        scrape@.instance == scrape.instance@,
        scrape@.resource == scrape.resource@,
        scrape@.deadline == scrape.deadline,
        scrape@.lost_worker == scrape.lost_worker,
        scrape@.attempt == scrape.attempt,
        0 <= i < scrape.excluded@.len() ==> scrape@.excluded.contains(scrape.excluded@[i]@),
        step matches Step::AwaitWorker(it) ==> step@ == (StepView::AwaitWorker {
            scrape: it.scrape@,
            until: it.until,
        }),
        step matches Step::SendReady(it) ==> {
            &&& step@ matches StepView::SendReady { scrape: whole, uid, asked }
            &&& whole == it.scrape@ && uid == it.uid@ && asked.len() == it.candidates@.len()
            &&& 0 <= i < asked.len() ==> asked[i].identity == it.candidates@[i].identity@
                && asked[i].link == it.candidates@[i].link
        },
        step matches Step::AwaitReady(it) ==> {
            &&& step@ matches StepView::AwaitReady { scrape: whole, uid, asked, wait }
            &&& whole == it.scrape@ && uid == it.uid@ && wait == it.wait
            &&& asked.len() == it.candidates@.len()
            &&& 0 <= i < asked.len() ==> asked[i].identity == it.candidates@[i].identity@
                && asked[i].link == it.candidates@[i].link
        },
        step matches Step::SendRequest(it) ==> {
            &&& step@ matches StepView::SendRequest { scrape: whole, uid, worker }
            &&& whole == it.scrape@ && uid == it.uid@
            &&& worker.identity == it.worker.identity@
            &&& worker.version == it.worker.version
            &&& worker.link == it.worker.link
        },
        step matches Step::AwaitResponse(it) ==> step@ == (StepView::AwaitResponse {
            scrape: it.scrape@,
            uid: it.uid@,
            worker: it.worker@,
            wait: it.wait,
        }),
        step matches Step::Finished(Ok(response)) ==> {
            &&& step@ matches StepView::Finished(Ok(shown))
            &&& shown.status == response.status && shown.body == response.body@
        },
        step matches Step::Finished(Err(outcome)) ==> step@ == StepView::Finished(Err(outcome)),
{
}

/// A registration is told by its instance, its name and its generation; lists of registrations and
/// of connections hold what is in them and nothing else.
pub proof fn lists_hold_what_is_in_them(
    list: Seq<WorkerIdentity>,
    id: IdentityView,
    connections: Seq<u64>,
    link: u64,
    one: WorkerIdentity,
)
    ensures
        one@.instance == one.instance@ && one@.name == one.name@ && one@.generation
            == one.generation,
        identities(list).contains(id) <==> exists|i: int|
            0 <= i < list.len() && #[trigger] list[i]@ == id,
        links(connections).contains(link) <==> exists|i: int|
            0 <= i < connections.len() && #[trigger] connections[i] == link,
{
}

} // verus!

//! What holds of the server as a whole, whatever the order in which things happen.

use crate::assoc::keys_where;
use crate::cache::{
    a_stored_response_is_found, body_key_of, effects, response_commands, status_key_of, CacheView,
};
use crate::connection::{
    reaction, response_given, ActionView, ConnectionView, Event, Reaction,
};
use crate::limits::{
    bounded_wait, deadline_of, in_millis, remaining_wait, silence, Limits, MAX_DISPATCH_ATTEMPTS,
    MAX_INSTANT,
};
use crate::metrics::{CloseReason, ScrapeOutcome};
use crate::model::{
    counted_under, CandidateView, Conditions, IdentityView, PendingView, ReserveError,
    SelectionView, StateView, WorkerKey,
};
use crate::outside::{is_random_uuid, is_status};
use crate::routes::{base_path, posted, route_table, Endpoint};
use crate::scrape::{
    asked_identities, asked_state, attempted, begins, begins_anew, broadcast_done,
    dispatched, ended, goes_on, reply_of, retries, starts, was_delivered, ResponseView, ScrapeView,
    StepView,
};
use crate::text::{decimal, is_digit, lemma_decimal, read_u16, unsigned, without_slashes};
use crate::ws_clients::{
    after_pings, missed, read_status, with_worker, without_worker, without_workers, ClientView,
    ClientsView, Pinged,
};
use vstd::prelude::*;

verus! {

/// A response is accepted once: after it was, no response answers the request any more, whoever
/// gives it, and nothing changes.
pub proof fn a_request_is_answered_once(
    state: StateView,
    uid: Seq<char>,
    worker: Option<IdentityView>,
    later: Option<IdentityView>,
)
    requires
        state.answers(uid, worker),
    ensures
        !state.answered(uid, worker).answers(uid, later),
        state.answered(uid, worker).answered(uid, later) == state.answered(uid, worker),
{
}

/// A response of a worker that was not asked is ignored.
pub proof fn only_the_selected_worker_answers(
    state: StateView,
    uid: Seq<char>,
    selected: IdentityView,
    other: IdentityView,
)
    requires
        other != selected,
    ensures
        !state.awaiting_response(uid, selected).answers(uid, Some(other)),
        state.awaiting_response(uid, selected).answers(uid, Some(selected)),
        state.awaiting_response(uid, selected).answers(uid, None),
{
}

/// One worker wins a request: when a worker was selected for it, no other is.
pub proof fn a_request_is_won_once(
    state: StateView,
    uid: Seq<char>,
    first: IdentityView,
    second: IdentityView,
)
    requires
        state.winner(uid, first) is Some,
    ensures
        state.marked_ready(uid, first).winner(uid, second) is None,
        state.marked_ready(uid, first).marked_ready(uid, second) == state.marked_ready(uid, first),
{
}

/// A worker serves one scrape at a time: while it serves one, it is selected for no other, neither
/// by saying that it is ready nor by being looked for.
pub proof fn a_worker_serves_one_scrape(
    state: StateView,
    uid: Seq<char>,
    id: IdentityView,
    other: Seq<char>,
    terms: Conditions,
)
    requires
        state.winner(uid, id) is Some,
    ensures
        state.marked_ready(uid, id).winner(other, id) is None,
        !state.marked_ready(uid, id).usable(id.key(), terms),
        !state.with_busy(id, true).usable(id.key(), terms),
        state.marked_ready(uid, id).released(id).idle(id),
{
}

/// Every worker that a selection finds is registered for the instance, serves no scrape, takes
/// messages, was not lost before and was heard of lately.
pub proof fn only_usable_workers_are_selected(
    state: StateView,
    terms: Conditions,
    selection: SelectionView,
)
    requires
        state.offers(terms, Ok(selection)),
    ensures
        match selection {
            SelectionView::Legacy(worker) => {
                let id = worker.identity;
                &&& state.idle(id)
                &&& id.instance == terms.instance
                &&& !terms.excluded.contains(id)
                &&& !terms.closed.contains(worker.link)
                &&& silence(terms.now, state.workers[id.key()].last_seen) <= in_millis(
                    state.limits.stale_after,
                )
                &&& !state.selected(selection).idle(id)
            },
            SelectionView::Ready(asked) => forall|i: int|
                0 <= i < asked.len() ==> {
                    let id = (#[trigger] asked[i]).identity;
                    &&& state.idle(id)
                    &&& id.instance == terms.instance
                    &&& !terms.excluded.contains(id)
                    &&& !terms.closed.contains(asked[i].link)
                    &&& silence(terms.now, state.workers[id.key()].last_seen) <= in_millis(
                        state.limits.stale_after,
                    )
                },
        },
{
    match selection {
        SelectionView::Legacy(worker) => {
            let key = worker.identity.key();
            assert(state.usable_legacy(key, terms));
            assert(worker.identity == state.identity_of(key));
        },
        SelectionView::Ready(asked) => {
            assert forall|i: int| 0 <= i < asked.len() implies {
                let id = (#[trigger] asked[i]).identity;
                &&& state.idle(id)
                &&& id.instance == terms.instance
                &&& !terms.excluded.contains(id)
                &&& !terms.closed.contains(asked[i].link)
                &&& silence(terms.now, state.workers[id.key()].last_seen) <= in_millis(
                    state.limits.stale_after,
                )
            } by {
                let key = asked[i].identity.key();
                assert(state.usable_ready(key, terms));
                assert(asked[i] == state.candidate_of(key));
                assert(asked[i].identity == state.identity_of(key));
            }
        },
    }
}

/// What a selection finds depends on the state alone, up to which of several workers it finds:
/// it succeeds exactly where some worker of the instance is usable.
pub proof fn a_selection_succeeds_where_it_can(
    state: StateView,
    terms: Conditions,
    selection: Result<SelectionView, ReserveError>,
)
    requires
        state.offers(terms, selection),
    ensures
        selection is Ok <==> exists|key: WorkerKey| #[trigger] state.usable(key, terms),
        selection == Err::<SelectionView, ReserveError>(ReserveError::Unknown) <==> !state.knows(
            terms.instance,
        ),
{
    match selection {
        Ok(SelectionView::Ready(asked)) => {
            let key = asked[0].identity.key();
            assert(state.usable_ready(key, terms));
            assert(state.usable(key, terms));
            assert(state.workers.contains_key((terms.instance, key.1)));
        },
        Ok(SelectionView::Legacy(worker)) => {
            let key = worker.identity.key();
            assert(state.usable_legacy(key, terms));
            assert(state.usable(key, terms));
            assert(state.workers.contains_key((terms.instance, key.1)));
        },
        Err(_) => {
            assert forall|key: WorkerKey| #[trigger] state.usable(key, terms) implies false by {
                assert(state.workers.contains_key((terms.instance, key.1)));
                if state.workers[key].version >= 2 {
                    assert(state.usable_ready(key, terms));
                } else {
                    assert(state.usable_legacy(key, terms));
                }
            }
        },
    }
}

/// A scrape of an unknown instance is answered as unknown even where no capacity is left, and a
/// known instance is refused only for want of capacity.
pub proof fn an_unknown_instance_stays_unknown(state: StateView, instance: Seq<char>)
    ensures
        state.refusal(instance) == Some(ScrapeOutcome::UnknownInstance) <==> !state.knows(
            instance,
        ),
        state.refusal(instance) == Some(ScrapeOutcome::Capacity) <==> state.knows(instance)
            && state.in_flight >= state.limits.max_in_flight,
        reply_of(Err(ScrapeOutcome::UnknownInstance)).0 == 404,
        reply_of(Err(ScrapeOutcome::Capacity)).0 == 503,
{
}

/// No more scrapes are admitted than the limit allows.
pub proof fn capacity_is_never_exceeded(state: StateView, instance: Seq<char>)
    requires
        state.in_flight <= state.limits.max_in_flight,
        state.refusal(instance) is None,
    ensures
        state.admitted().in_flight <= state.limits.max_in_flight,
        state.admitted().discharged() == state,
{
}

/// A registration that ended leaves nothing behind: it is not current, no request waits for it,
/// and an instance without other workers is unknown.
pub proof fn an_ended_registration_leaves_nothing(state: StateView, id: IdentityView)
    requires
        state.holds(id),
    ensures
        !state.unregistered(id).workers.contains_key(id.key()),
        forall|uid: Seq<char>| #[trigger]
            state.unregistered(id).pending.contains_key(uid) ==> !state.unregistered(
                id,
            ).pending[uid].waits_for(id),
        (forall|name: Seq<char>| #[trigger]
            state.workers.contains_key((id.instance, name)) ==> name == id.name)
            ==> !state.unregistered(id).knows(id.instance),
{
}

/// The requests of other workers stay as they are when a registration ends.
pub proof fn other_requests_stay(state: StateView, id: IdentityView, uid: Seq<char>)
    requires
        state.pending.contains_key(uid),
        !state.pending[uid].waits_for(id),
        state.pending[uid].can_be_answered(),
    ensures
        state.unregistered(id).pending.contains_key(uid),
        state.unregistered(id).pending[uid] == state.pending[uid],
{
    let request = state.pending[uid];
    let other = choose|other: IdentityView| #[trigger] request.waits_for(other);
    match request {
        PendingView::Ready { allowed } => {
            assert(allowed.contains(other) && other != id);
            assert(allowed.remove(id) =~= allowed);
        },
        PendingView::Response { .. } => {},
    }
}

/// A frame changes nothing but when its connection was last heard of.
pub proof fn a_frame_changes_only_its_connection(state: StateView, link: u64, now: u64)
    ensures
        state.touched(link, now).pending == state.pending,
        state.touched(link, now).workers.dom() == state.workers.dom(),
        forall|key: WorkerKey| #[trigger]
            state.workers.contains_key(key) && state.workers[key].link != link
                ==> state.touched(link, now).workers[key] == state.workers[key],
        forall|id: IdentityView| #[trigger]
            state.idle(id) ==> state.touched(link, now).idle(id),
        forall|key: WorkerKey| #[trigger]
            state.workers.contains_key(key) && state.workers[key].link == link
                ==> state.touched(link, now).workers[key].last_seen == now,
{
    assert(state.touched(link, now).workers.dom() =~= state.workers.dom());
}

/// An attempt that ended leaves no request open and its worker idle, if it is still registered.
pub proof fn an_ended_attempt_frees_its_worker(
    state: StateView,
    id: IdentityView,
    uid: Seq<char>,
)
    ensures
        !state.finished(Some(id), uid).pending.contains_key(uid),
        state.holds(id) ==> state.finished(Some(id), uid).idle(id),
        !state.holds(id) ==> state.finished(Some(id), uid).workers == state.workers,
{
}

/// A wait never goes beyond the deadline, nor beyond its own limit.
pub proof fn waits_end_by_the_deadline(limit: u128, deadline: Option<u128>, now: u128)
    ensures
        bounded_wait(limit, deadline, now) <= limit,
        deadline matches Some(end) ==> bounded_wait(limit, deadline, now) == 0 || now
            + bounded_wait(limit, deadline, now) <= end,
        deadline is None ==> bounded_wait(limit, deadline, now) == limit,
{
}

/// Without an announced timeout a scrape on a server with the standard limits takes at most 60
/// seconds, retries and all.
pub proof fn a_scrape_ends_within_a_minute(now: u128)
    requires
        now + 60_000_000_000 <= MAX_INSTANT,
    ensures
        deadline_of(None, now, Limits::standard()) == Some((now + 60_000_000_000) as u128),
{
}

/// The scrape that a step belongs to.
pub open spec fn scrape_of(step: StepView) -> Option<ScrapeView> {
    match step {
        StepView::AwaitWorker { scrape, .. } => Some(scrape),
        StepView::SendReady { scrape, .. } => Some(scrape),
        StepView::AwaitReady { scrape, .. } => Some(scrape),
        StepView::SendRequest { scrape, .. } => Some(scrape),
        StepView::AwaitResponse { scrape, .. } => Some(scrape),
        StepView::Finished(_) => None,
    }
}

/// How long a step may wait from `now` on.
pub open spec fn wait_of(step: StepView, now: u128) -> u128 {
    match step {
        StepView::AwaitWorker { scrape, until } => remaining_wait(until, scrape.deadline, now),
        StepView::AwaitReady { wait, .. } => wait,
        StepView::AwaitResponse { wait, .. } => wait,
        _ => 0,
    }
}

/// The scrape goes on within its attempts and within its deadline, for the same resource of the
/// same instance.
pub open spec fn keeps_bounds(scrape: ScrapeView, now: u128, step: StepView) -> bool {
    scrape_of(step) matches Some(after) ==> {
        &&& after.attempt <= MAX_DISPATCH_ATTEMPTS
        &&& after.deadline == scrape.deadline
        &&& after.instance == scrape.instance
        &&& after.resource == scrape.resource
        &&& scrape.excluded.subset_of(after.excluded)
        &&& scrape.deadline matches Some(end) ==> wait_of(step, now) == 0 || now + wait_of(
            step,
            now,
        ) <= end
    }
}

/// The step hands the scrape to none of the workers that it lost before.
pub open spec fn avoids_lost_workers(step: StepView) -> bool {
    match step {
        StepView::SendReady { scrape, asked, .. } => forall|i: int|
            0 <= i < asked.len() ==> !scrape.excluded.contains((#[trigger] asked[i]).identity),
        StepView::SendRequest { scrape, worker, .. } => !scrape.excluded.contains(worker.identity),
        _ => true,
    }
}

/// Capacity is held as long as the scrape goes on, and given back when it is over.
pub open spec fn keeps_capacity(before: StateView, after: (StateView, StepView)) -> bool {
    after.0.in_flight == (if after.1 is Finished {
        before.discharged().in_flight
    } else {
        before.in_flight
    })
}

proof fn lemma_dispatched(
    state: StateView,
    scrape: ScrapeView,
    uid: Seq<char>,
    now: u128,
    closed: Set<u64>,
    selection: SelectionView,
)
    requires
        state.offers(scrape.terms(now, closed), Ok(selection)),
        scrape.attempt <= MAX_DISPATCH_ATTEMPTS,
    ensures
        keeps_bounds(scrape, now, dispatched(state, scrape, uid, selection).1),
        avoids_lost_workers(dispatched(state, scrape, uid, selection).1),
        keeps_capacity(state, dispatched(state, scrape, uid, selection)),
{
    only_usable_workers_are_selected(state, scrape.terms(now, closed), selection);
}

/// An attempt keeps to the bounds of its scrape, avoids the workers that it lost, and holds its
/// capacity until it is over.
pub proof fn an_attempt_keeps_its_bounds(
    state: StateView,
    scrape: ScrapeView,
    now: u128,
    closed: Set<u64>,
    after: (StateView, StepView),
)
    requires
        scrape.attempt <= MAX_DISPATCH_ATTEMPTS,
        begins_anew(state, scrape, now, closed, after),
    ensures
        keeps_bounds(scrape, now, after.1),
        avoids_lost_workers(after.1),
        keeps_capacity(state, after),
{
    let uid = choose|uid: Seq<char>| #[trigger]
        is_random_uuid(uid) && begins(state, scrape, uid, now, closed, after);
    let terms = scrape.terms(now, closed);
    let selection = choose|selection: Result<SelectionView, ReserveError>| #[trigger]
        state.offers(terms, selection) && after == attempted(state, scrape, uid, now, selection);
    match selection {
        Ok(found) => {
            lemma_dispatched(state, scrape, uid, now, closed, found);
        },
        Err(_) => {
        },
    }
}

/// A scrape is refused for these reasons only, and then leaves no trace: the instance is unknown,
/// or too many scrapes are in flight, or no worker of the instance is usable. Otherwise it goes
/// to a worker at once.
pub proof fn a_scrape_is_refused_only_where_it_must(
    state: StateView,
    scrape: ScrapeView,
    now: u128,
    closed: Set<u64>,
    after: (StateView, StepView),
)
    requires
        !scrape.lost_worker,
        starts(state, scrape, now, closed, after),
    ensures
        ({
            let known = state.knows(scrape.instance);
            let full = state.in_flight >= state.limits.max_in_flight;
            let served = exists|key: WorkerKey| #[trigger]
                state.usable(key, scrape.terms(now, closed));
            &&& after.1 == StepView::Finished(Err(ScrapeOutcome::UnknownInstance)) <==> !known
            &&& after.1 == StepView::Finished(Err(ScrapeOutcome::Capacity)) <==> known && full
            &&& after.1 == StepView::Finished(Err(ScrapeOutcome::NoIdleWorker)) <==> known && !full
                && !served
            &&& after.1 is Finished ==> after.0 == state
            &&& known && !full && served ==> after.1 is SendReady || after.1 is SendRequest
        }),
{
    if state.refusal(scrape.instance) is None {
        let admitted = state.admitted();
        let terms = scrape.terms(now, closed);
        let uid = choose|uid: Seq<char>| #[trigger]
            is_random_uuid(uid) && begins(
                admitted,
                scrape,
                uid,
                now,
                closed,
                after,
            );
        let selection = choose|selection: Result<SelectionView, ReserveError>| #[trigger]
            admitted.offers(terms, selection) && after == attempted(
                admitted,
                scrape,
                uid,
                now,
                selection,
            );
        a_selection_succeeds_where_it_can(admitted, terms, selection);
        assert forall|key: WorkerKey| #[trigger] state.usable(key, terms) == admitted.usable(
            key,
            terms,
        ) by {}
        let name = choose|name: Seq<char>| #[trigger]
            state.workers.contains_key((scrape.instance, name));
        assert(admitted.workers.contains_key((scrape.instance, name)));
        if selection is Ok {
            let key = choose|key: WorkerKey| #[trigger] admitted.usable(key, terms);
            assert(state.usable(key, terms));
        }
    }
}

/// An unknown instance is answered with 404, a timeout of the exporter with 501, and every other
/// failure with 503; what the exporter returned is passed on.
pub proof fn outcomes_have_their_status(outcome: ScrapeOutcome, response: ResponseView)
    ensures
        reply_of(Err(outcome)).0 == 404 <==> outcome == ScrapeOutcome::UnknownInstance,
        reply_of(Err(outcome)).0 == 501 <==> outcome == ScrapeOutcome::ResponseTimeout,
        reply_of(Err(outcome)).0 == 503 <==> outcome != ScrapeOutcome::UnknownInstance && outcome
            != ScrapeOutcome::ResponseTimeout,
        reply_of(Ok(response)) == (response.status, response.body),
{
}

/// A scrape begins with its first attempt; a refused one takes no capacity.
pub proof fn a_scrape_starts_within_its_bounds(
    state: StateView,
    instance: Seq<char>,
    resource: Seq<char>,
    deadline: Option<u128>,
    now: u128,
    closed: Set<u64>,
    after: (StateView, StepView),
)
    requires
        starts(state, ScrapeView::fresh(instance, resource, deadline), now, closed, after),
    ensures
        keeps_bounds(ScrapeView::fresh(instance, resource, deadline), now, after.1),
        avoids_lost_workers(after.1),
        after.0.in_flight == (if after.1 is Finished {
            state.in_flight
        } else {
            state.in_flight + 1
        }),
{
    let scrape = ScrapeView::fresh(instance, resource, deadline);
    if state.refusal(instance) is None {
        an_attempt_keeps_its_bounds(state.admitted(), scrape, now, closed, after);
    }
}

/// A scrape that lost workers makes at most three attempts in all, never asks a lost worker
/// again, and holds its capacity until it is over.
pub proof fn a_retry_keeps_the_bounds(
    state: StateView,
    scrape: ScrapeView,
    worker: Option<IdentityView>,
    uid: Seq<char>,
    lost: Set<IdentityView>,
    now: u128,
    closed: Set<u64>,
    after: (StateView, StepView),
)
    requires
        goes_on(state, scrape, worker, uid, lost, now, closed, after),
    ensures
        keeps_bounds(scrape, now, after.1),
        avoids_lost_workers(after.1),
        keeps_capacity(state, after),
        scrape.attempt >= MAX_DISPATCH_ATTEMPTS ==> after.1 == StepView::Finished(
            Err(ScrapeOutcome::WorkerLost),
        ),
        scrape_of(after.1) matches Some(next) ==> lost.subset_of(next.excluded) && next.attempt
            == scrape.attempt + 1,
{
    if !scrape.exhausted(now) {
        let next = scrape.without(lost).next();
        let freed = state.finished(worker, uid).retried();
        an_attempt_keeps_its_bounds(freed, next, now, closed, after);
        lemma_attempt_scrape(freed, next, now, closed, after);
        assert(scrape.excluded.subset_of(next.excluded));
    }
}

/// A step of an attempt carries the scrape of the attempt.
proof fn lemma_attempt_scrape(
    state: StateView,
    scrape: ScrapeView,
    now: u128,
    closed: Set<u64>,
    after: (StateView, StepView),
)
    requires
        begins_anew(state, scrape, now, closed, after),
    ensures
        scrape_of(after.1) matches Some(next) ==> next == scrape,
{
}

/// A scrape that waits for a worker keeps to its bounds whenever it looks again: it goes on with a
/// worker that it did not lose, or goes on waiting until the same instant as before and never
/// beyond its deadline.
pub proof fn waiting_for_a_worker_keeps_the_bounds(
    state: StateView,
    scrape: ScrapeView,
    until: u128,
    uid: Seq<char>,
    now: u128,
    closed: Set<u64>,
    after: (StateView, StepView),
)
    requires
        scrape.attempt <= MAX_DISPATCH_ATTEMPTS,
        retries(state, scrape, until, uid, now, closed, after),
    ensures
        keeps_bounds(scrape, now, after.1),
        after.1 is AwaitWorker ==> after == (state, StepView::AwaitWorker { scrape, until }),
        avoids_lost_workers(after.1),
        keeps_capacity(state, after),
{
    let terms = scrape.terms(now, closed);
    let selection = choose|selection: Result<SelectionView, ReserveError>| #[trigger]
        state.offers(terms, selection) && after == (match selection {
            Ok(found) => dispatched(state, scrape, uid, found),
            Err(_) => (state, StepView::AwaitWorker { scrape, until }),
        });
    if let Ok(found) = selection {
        lemma_dispatched(state, scrape, uid, now, closed, found);
    }
}

/// A scrape that lost its workers and finds no other waits as long as the limit says, counted
/// from the first look, and not beyond its deadline: at any later time no more than the rest is
/// left, and nothing once the limit has passed.
pub proof fn a_wait_for_a_worker_ends(
    state: StateView,
    scrape: ScrapeView,
    now: u128,
    closed: Set<u64>,
    after: (StateView, StepView),
    later: u128,
)
    requires
        begins_anew(state, scrape, now, closed, after),
        after.1 is AwaitWorker,
        now <= later,
    ensures
        now + state.limits.retry_wait <= u128::MAX ==> wait_of(after.1, now) == bounded_wait(
            state.limits.retry_wait,
            scrape.deadline,
            now,
        ),
        wait_of(after.1, later) == 0 || later + wait_of(after.1, later) <= now
            + state.limits.retry_wait,
        later >= now + state.limits.retry_wait ==> wait_of(after.1, later) == 0,
        scrape.deadline matches Some(end) ==> wait_of(after.1, later) == 0 || later + wait_of(
            after.1,
            later,
        ) <= end,
{
}

/// Asking the candidates changes neither the workers nor the capacity.
pub proof fn asking_changes_only_requests(
    state: StateView,
    uid: Seq<char>,
    asked: Seq<CandidateView>,
    delivered: Seq<bool>,
    n: int,
)
    ensures
        asked_state(state, uid, asked, delivered, n).workers == state.workers,
        asked_state(state, uid, asked, delivered, n).in_flight == state.in_flight,
        asked_state(state, uid, asked, delivered, n).limits == state.limits,
    decreases n,
{
    if n > 0 {
        asking_changes_only_requests(state, uid, asked, delivered, n - 1);
    }
}

/// The candidates among the first `n` that were not reached.
pub open spec fn not_reached(
    asked: Seq<CandidateView>,
    delivered: Seq<bool>,
    n: int,
) -> Set<IdentityView> {
    Set::new(
        |id: IdentityView|
            exists|i: int|
                0 <= i < n && (#[trigger] asked[i]).identity == id && !was_delivered(delivered, i),
    )
}

/// The candidates that were reached.
pub open spec fn reached(asked: Seq<CandidateView>, delivered: Seq<bool>) -> Set<IdentityView> {
    Set::new(
        |id: IdentityView|
            exists|i: int|
                0 <= i < asked.len() && (#[trigger] asked[i]).identity == id && was_delivered(
                    delivered,
                    i,
                ),
    )
}

proof fn lemma_ready_survives(allowed: Set<IdentityView>, id: IdentityView, other: IdentityView)
    requires
        allowed.contains(other),
        other != id,
    ensures
        (PendingView::Ready { allowed }).survives(id),
{
    let request = PendingView::Ready { allowed };
    assert(request->allowed.contains(other));
}

/// A request that waits for ready workers waits, after the first `n` candidates were asked, for
/// those of them that are left, and is gone where none is.
pub proof fn lemma_asked(
    state: StateView,
    uid: Seq<char>,
    allowed: Set<IdentityView>,
    asked: Seq<CandidateView>,
    delivered: Seq<bool>,
    n: int,
)
    requires
        0 <= n <= asked.len(),
        exists|id: IdentityView| #[trigger] allowed.contains(id),
    ensures
        ({
            let left = allowed.difference(not_reached(asked, delivered, n));
            let after = asked_state(
                state.awaiting_ready(uid, allowed),
                uid,
                asked,
                delivered,
                n,
            );
            if exists|id: IdentityView| #[trigger] left.contains(id) {
                after == state.awaiting_ready(uid, left)
            } else {
                after == (StateView { pending: state.pending.remove(uid), ..state })
            }
        }),
    decreases n,
{
    let left = allowed.difference(not_reached(asked, delivered, n));
    if n == 0 {
        assert(left =~= allowed);
    } else {
        lemma_asked(state, uid, allowed, asked, delivered, n - 1);
        let before = allowed.difference(not_reached(asked, delivered, n - 1));
        let prior = asked_state(
            state.awaiting_ready(uid, allowed),
            uid,
            asked,
            delivered,
            n - 1,
        );
        let id = asked[n - 1].identity;
        if was_delivered(delivered, n - 1) {
            assert(left =~= before);
        } else {
            assert forall|other: IdentityView| left.contains(other) == before.remove(
                id,
            ).contains(other) by {
                if not_reached(asked, delivered, n).contains(other) {
                    let i = choose|i: int|
                        0 <= i < n && (#[trigger] asked[i]).identity == other && !was_delivered(
                            delivered,
                            i,
                        );
                    assert(i < n - 1 || other == id);
                }
                if other == id {
                    assert(asked[n - 1].identity == other);
                }
            }
            assert(left =~= before.remove(id));
            if exists|other: IdentityView| #[trigger] before.contains(other) {
                assert(prior.pending[uid] == (PendingView::Ready { allowed: before }));
                if exists|other: IdentityView| #[trigger] left.contains(other) {
                    let other = choose|other: IdentityView| #[trigger] left.contains(other);
                    assert(left.contains(other) == before.remove(id).contains(other));
                    lemma_ready_survives(before, id, other);
                    assert(prior.uninvited(uid, id).pending =~= state.awaiting_ready(
                        uid,
                        left,
                    ).pending);
                } else {
                    assert forall|other: IdentityView| !(#[trigger] before.contains(other)
                        && other != id) by {
                        assert(left.contains(other) == (before.contains(other) && other != id));
                    }
                    assert(!prior.pending[uid].survives(id));
                    assert(prior.uninvited(uid, id).pending =~= state.pending.remove(uid));
                }
            } else {
                assert forall|other: IdentityView| !#[trigger] left.contains(other) by {
                    assert(!before.contains(other));
                }
                assert(!prior.pending.contains_key(uid));
            }
        }
    }
}

/// After the candidates of a request were asked, it waits for exactly those that were reached, and
/// is gone where none was; nothing else changed.
pub proof fn a_broadcast_leaves_the_reached(
    state: StateView,
    uid: Seq<char>,
    terms: Conditions,
    asked: Seq<CandidateView>,
    delivered: Seq<bool>,
)
    requires
        state.asks(asked, terms),
    ensures
        ({
            let after = asked_state(
                state.awaiting_ready(uid, asked_identities(asked)),
                uid,
                asked,
                delivered,
                asked.len() as int,
            );
            if exists|i: int| 0 <= i < asked.len() && #[trigger] was_delivered(delivered, i) {
                after == state.awaiting_ready(uid, reached(asked, delivered))
            } else {
                after == (StateView { pending: state.pending.remove(uid), ..state })
            }
        }),
{
    let n = asked.len() as int;
    let allowed = asked_identities(asked);
    let left = allowed.difference(not_reached(asked, delivered, n));
    assert(allowed.contains(asked[0].identity));
    lemma_asked(state, uid, allowed, asked, delivered, n);
    assert forall|id: IdentityView| left.contains(id) == reached(asked, delivered).contains(id) by {
        if left.contains(id) {
            let i = choose|i: int| 0 <= i < n && (#[trigger] asked[i]).identity == id;
            assert(asked[i].identity == id);
        }
        if reached(asked, delivered).contains(id) {
            let i = choose|i: int|
                0 <= i < n && (#[trigger] asked[i]).identity == id && was_delivered(delivered, i);
            assert(allowed.contains(id));
            if not_reached(asked, delivered, n).contains(id) {
                let j = choose|j: int|
                    0 <= j < n && (#[trigger] asked[j]).identity == id && !was_delivered(
                        delivered,
                        j,
                    );
                assert(asked[i].identity == asked[j].identity);
            }
        }
    }
    assert(left =~= reached(asked, delivered));
    if exists|i: int| 0 <= i < n && #[trigger] was_delivered(delivered, i) {
        let i = choose|i: int| 0 <= i < n && #[trigger] was_delivered(delivered, i);
        assert(asked[i].identity == asked[i].identity);
        assert(reached(asked, delivered).contains(asked[i].identity));
    } else {
        assert forall|id: IdentityView| !#[trigger] left.contains(id) by {}
    }
}

/// A scrape whose candidates were asked waits no longer than its deadline, or goes on without
/// them where none could be asked; either way it holds its capacity until it is over.
pub proof fn asking_keeps_the_bounds(
    state: StateView,
    scrape: ScrapeView,
    uid: Seq<char>,
    asked: Seq<CandidateView>,
    delivered: Seq<bool>,
    now: u128,
    closed: Set<u64>,
    after: (StateView, StepView),
)
    requires
        scrape.attempt <= MAX_DISPATCH_ATTEMPTS,
        broadcast_done(state, scrape, uid, asked, delivered, now, closed, after),
    ensures
        keeps_bounds(scrape, now, after.1),
        avoids_lost_workers(after.1),
        keeps_capacity(state, after),
{
    let reached = asked_state(state, uid, asked, delivered, asked.len() as int);
    asking_changes_only_requests(state, uid, asked, delivered, asked.len() as int);
    waits_end_by_the_deadline(state.limits.ready_timeout, scrape.deadline, now);
    if !exists|i: int|
        0 <= i < asked.len() && #[trigger] was_delivered(delivered, i) {
        a_retry_keeps_the_bounds(
            reached,
            scrape,
            None,
            uid,
            asked_identities(asked),
            now,
            closed,
            after,
        );
    }
}

/// What the selected worker answers over its connection is what Prometheus is answered: the same
/// status and the same body.
pub proof fn an_answer_is_passed_on_unchanged(
    state: StateView,
    connection: ConnectionView,
    id: IdentityView,
    uid: Seq<char>,
    status: u16,
    body: Seq<char>,
)
    requires
        connection.identity == Some(id),
        is_status(status),
    ensures
        ({
            let response = ResponseView { status, body };
            let after = response_given(
                state.awaiting_response(uid, id),
                connection,
                uid,
                status,
                body,
            );
            &&& after.action == (ActionView::Responded { uid, response })
            &&& ended(after.state, Some(id), uid, Ok(response)).1 == StepView::Finished(
                Ok(response),
            )
            &&& reply_of(Ok(response)) == (status, body)
        }),
{
}

/// What is posted for the selected worker, as wire version 3 does, is what Prometheus is
/// answered: the same status and the same body.
pub proof fn a_posted_answer_is_passed_on_unchanged(
    state: StateView,
    id: IdentityView,
    uid: Seq<char>,
    status: u16,
    body: Seq<char>,
)
    requires
        is_status(status),
    ensures
        ({
            let response = ResponseView { status, body };
            let after = posted(state.awaiting_response(uid, id), uid, status, body);
            &&& after.status == 200
            &&& after.delivered == Some(response)
            &&& !after.state.pending.contains_key(uid)
            &&& ended(after.state, Some(id), uid, Ok(response)).1 == StepView::Finished(
                Ok(response),
            )
            &&& reply_of(Ok(response)) == (status, body)
        }),
{
}

/// Every worker is counted under one class of wire versions.
pub proof fn version_classes_add_up(state: StateView)
    requires
        state.workers.dom().finite(),
    ensures
        state.class_size(0) + state.class_size(1) + state.class_size(2)
            == state.workers.dom().len(),
{
    let all = state.workers.dom();
    let first = keys_where(state.workers, counted_under(0));
    let second = keys_where(state.workers, counted_under(1));
    let third = keys_where(state.workers, counted_under(2));
    assert(first.subset_of(all) && second.subset_of(all) && third.subset_of(all));
    vstd::set_lib::lemma_len_subset(first, all);
    vstd::set_lib::lemma_len_subset(second, all);
    vstd::set_lib::lemma_len_subset(third, all);
    assert(first.disjoint(second));
    assert((first + second).disjoint(third));
    vstd::set_lib::lemma_set_disjoint_lens(first, second);
    vstd::set_lib::lemma_set_disjoint_lens(first + second, third);
    assert((first + second) + third =~= all);
}

/// What the connection registered, as far as it is current, belongs to the connection and was
/// heard of when the connection was.
pub open spec fn in_step(state: StateView, connection: ConnectionView) -> bool {
    connection.identity matches Some(id) ==> state.holds(id) ==> {
        &&& state.workers[id.key()].link == connection.link
        &&& state.workers[id.key()].last_seen == connection.last_seen
    }
}

/// Whatever happens on a connection, its worker is as recent as the connection itself.
pub proof fn a_worker_is_as_recent_as_its_connection(
    state: StateView,
    connection: ConnectionView,
    event: Event,
    now: u128,
    after: Reaction,
)
    requires
        in_step(state, connection),
        reaction(state, connection, event, now, after),
    ensures
        in_step(after.state, after.connection),
        after.connection.link == connection.link,
{
}

/// Nothing that happens on a connection changes how many connections are open or were closed:
/// only opening and closing do, each by one.
pub proof fn only_opening_and_closing_count_connections(
    state: StateView,
    connection: ConnectionView,
    event: Event,
    now: u128,
    after: Reaction,
    id: Option<IdentityView>,
    reason: CloseReason,
)
    requires
        reaction(state, connection, event, now, after),
    ensures
        after.state.metrics.open_connections == state.metrics.open_connections,
        after.state.metrics.closes == state.metrics.closes,
        state.connected().metrics == state.metrics.opened(),
        state.disconnected(id, reason).metrics == state.metrics.closed(reason),
{
}

proof fn lemma_trailing_slash(prefix: Seq<char>)
    ensures
        without_slashes(prefix.push('/')) == without_slashes(prefix),
    decreases prefix.len(),
{
    let longer = prefix.push('/');
    if prefix.len() == 0 {
        assert(longer.drop_first() =~= prefix);
    } else if prefix[0] == '/' {
        assert(longer.drop_first() =~= prefix.drop_first().push('/'));
        lemma_trailing_slash(prefix.drop_first());
    } else {
        assert(longer.drop_last() =~= prefix);
    }
}

/// Slashes around the configured prefix do not matter.
pub proof fn slashes_around_the_prefix_do_not_matter(prefix: Seq<char>)
    ensures
        route_table(prefix.push('/')) == route_table(prefix),
        route_table(seq!['/'] + prefix) == route_table(prefix),
{
    lemma_trailing_slash(prefix);
    assert((seq!['/'] + prefix).drop_first() =~= prefix);
    assert(without_slashes(seq!['/'] + prefix) == without_slashes(prefix));
}

/// Every route below the prefix is served without and with a slash at its end, by the same
/// method and to the same endpoint.
pub proof fn routes_come_in_both_forms(prefix: Seq<char>, i: int)
    requires
        0 <= i < 4,
    ensures
        ({
            let table = route_table(prefix);
            let plain = table[1 + 2 * i];
            let slashed = table[2 + 2 * i];
            &&& table.len() == 9
            &&& slashed.path == plain.path + "/"@
            &&& slashed.method == plain.method
            &&& slashed.endpoint == plain.endpoint
            &&& plain.endpoint != Endpoint::Metrics
            &&& plain.path == base_path(prefix) + plain.endpoint.tail()
        }),
{
}

/// A response that a worker of protocol version 2 handed in is read back with the same status
/// and the same body.
pub proof fn a_stored_response_is_read_back(
    cache: CacheView,
    uid: Seq<char>,
    status: u16,
    body: Seq<char>,
)
    requires
        is_status(status),
    ensures
        ({
            let after = effects(response_commands(uid, status, body), cache);
            &&& read_status(after[status_key_of(uid)]) == Some(status)
            &&& after[body_key_of(uid)] == body
        }),
{
    a_stored_response_is_found(cache, uid, status, body);
    lemma_decimal(status as nat);
    let text = decimal(status as nat);
    assert(is_digit(text[0]));
    assert(unsigned(text) == text);
    assert(read_u16(text) == Some(status));
}

/// An instance that once had a worker stays known, and a worker that was removed is gone, while
/// the others stay.
pub proof fn removing_a_worker_keeps_the_others(
    clients: ClientsView,
    instance: Seq<char>,
    worker: Seq<char>,
    version: u16,
    link: u64,
    other: Seq<char>,
)
    requires
        other != worker,
    ensures
        ({
            let with = with_worker(clients, instance, worker, version, link);
            let without = without_worker(with, instance, worker);
            &&& with[instance].senders[worker] == link
            &&& with[instance].version == version
            &&& without.contains_key(instance)
            &&& !without[instance].senders.contains_key(worker)
            &&& clients.contains_key(instance) && clients[instance].senders.contains_key(other)
                ==> without[instance].senders.contains_key(other)
                && without[instance].senders[other] == clients[instance].senders[other]
        }),
{
}

/// The workers that a message missed are those of the list to which it was not sent.
pub proof fn the_missed_were_not_sent_to(
    senders: Seq<(Seq<char>, u64)>,
    sent: Seq<bool>,
    n: int,
    name: Seq<char>,
)
    requires
        0 <= n <= senders.len(),
    ensures
        missed(senders, sent, n).contains(name) <==> exists|i: int|
            0 <= i < n && (#[trigger] senders[i]).0 == name && !was_delivered(sent, i),
    decreases n,
{
    if n > 0 {
        the_missed_were_not_sent_to(senders, sent, n - 1, name);
        let before = missed(senders, sent, n - 1);
        let last = senders[n - 1].0;
        if was_delivered(sent, n - 1) {
            assert(missed(senders, sent, n) == before);
        } else {
            assert(missed(senders, sent, n) == before.push(last));
            if before.contains(name) {
                let j = choose|j: int| 0 <= j < before.len() && before[j] == name;
                assert(before.push(last)[j] == name);
            }
            if name == last {
                assert(before.push(last)[before.len() as int] == name);
                assert(senders[n - 1].0 == name);
            }
            if before.push(last).contains(name) && name != last {
                let j = choose|j: int| 0 <= j < before.len() + 1 && before.push(last)[j] == name;
                assert(before[j] == name);
            }
        }
    }
}

/// Removing workers of an instance removes exactly those that are named, and touches neither the
/// other instances nor the version.
pub proof fn removing_workers_removes_the_named(
    clients: ClientsView,
    instance: Seq<char>,
    names: Seq<Seq<char>>,
    n: int,
)
    requires
        clients.contains_key(instance),
        0 <= n <= names.len(),
    ensures
        without_workers(clients, instance, names, n) == clients.insert(
            instance,
            ClientView {
                senders: clients[instance].senders.remove_keys(
                    Set::new(|name: Seq<char>| names.take(n).contains(name)),
                ),
                ..clients[instance]
            },
        ),
    decreases n,
{
    let gone = Set::new(|name: Seq<char>| names.take(n).contains(name));
    let after = without_workers(clients, instance, names, n);
    if n == 0 {
        assert(names.take(0) =~= Seq::empty());
        assert(clients[instance].senders.remove_keys(gone) =~= clients[instance].senders);
        assert(after =~= clients.insert(instance, clients[instance]));
    } else {
        removing_workers_removes_the_named(clients, instance, names, n - 1);
        let earlier = Set::new(|name: Seq<char>| names.take(n - 1).contains(name));
        let front = names.take(n - 1);
        let whole = names.take(n);
        assert(whole =~= front.push(names[n - 1]));
        assert forall|name: Seq<char>| gone.contains(name) == (earlier.contains(name) || name
            == names[n - 1]) by {
            if earlier.contains(name) {
                let j = choose|j: int| 0 <= j < front.len() && front[j] == name;
                assert(whole[j] == name);
            }
            if name == names[n - 1] {
                assert(whole[n - 1] == name);
            }
            if gone.contains(name) && name != names[n - 1] {
                let j = choose|j: int| 0 <= j < whole.len() && whole[j] == name;
                assert(front[j] == name);
            }
        }
        assert(clients[instance].senders.remove_keys(earlier).remove(names[n - 1])
            =~= clients[instance].senders.remove_keys(gone));
        assert(after =~= clients.insert(
            instance,
            ClientView {
                senders: clients[instance].senders.remove_keys(gone),
                ..clients[instance]
            },
        ));
    }
}

/// Pinging the clients removes exactly the workers that their pings did not reach, and no
/// client.
pub proof fn pings_remove_the_unreached(
    clients: ClientsView,
    pinged: Seq<Pinged>,
    n: int,
    instance: Seq<char>,
    worker: Seq<char>,
)
    requires
        0 <= n <= pinged.len(),
        forall|i: int|
            0 <= i < pinged.len() ==> clients.contains_key(
                (#[trigger] pinged[i]).client.instance_id@,
            ),
    ensures
        ({
            let after = after_pings(clients, pinged, n);
            &&& after.dom() == clients.dom()
            &&& clients.contains_key(instance) ==> {
                &&& after[instance].version == clients[instance].version
                &&& after[instance].senders.contains_key(worker) <==> {
                    &&& clients[instance].senders.contains_key(worker)
                    &&& !exists|i: int|
                        0 <= i < n && (#[trigger] pinged[i]).client.instance_id@ == instance
                            && pinged[i].dead().contains(worker)
                }
                &&& after[instance].senders.contains_key(worker)
                    ==> after[instance].senders[worker] == clients[instance].senders[worker]
            }
        }),
    decreases n,
{
    if n > 0 {
        pings_remove_the_unreached(clients, pinged, n - 1, instance, worker);
        let before = after_pings(clients, pinged, n - 1);
        let one = pinged[n - 1];
        let who = one.client.instance_id@;
        let dead = one.dead();
        assert(clients.contains_key(who));
        assert(before.contains_key(who));
        removing_workers_removes_the_named(before, who, dead, dead.len() as int);
        assert(dead.take(dead.len() as int) =~= dead);
        let after = after_pings(clients, pinged, n);
        assert(after.dom() =~= clients.dom());
        if who == instance && dead.contains(worker) {
            assert(pinged[n - 1].client.instance_id@ == instance);
        }
    }
}

} // verus!

//! When things happen: deadlines, waits, retries, staleness and heartbeats, said of the instants
//! and durations that they are made of.

use crate::connection::{reaction, ActionView, ConnectionView, Event, Reaction};
use crate::limits::{
    announced_deadline, bounded_wait, deadline_of, in_millis, remaining_wait, silence, time_left,
    wait_end, Limits,
};
use crate::metrics::CloseReason;
use crate::model::{CandidateView, IdentityView, StateView};
use crate::scrape::{
    asked_state, broadcast_done, request_done, was_delivered, ScrapeView, StepView,
};
use vstd::prelude::*;

verus! {

/// A wait is as long as its limit unless the deadline is nearer. Where the deadline is nearer, the
/// wait ends exactly with it, and where the deadline is past, there is no wait.
pub proof fn a_wait_is_the_limit_or_what_is_left(
    limit: u128,
    deadline: Option<u128>,
    now: u128,
    wait: u128,
)
    requires
        wait == bounded_wait(limit, deadline, now),
    ensures
        deadline is None ==> wait == limit,
        deadline matches Some(end) ==> now + limit <= end ==> wait == limit,
        deadline matches Some(end) ==> now <= end < now + limit ==> now + wait == end,
        deadline matches Some(end) ==> end < now ==> wait == 0,
{
}

/// However often it is asked what is left of a wait, the answer points to the same instant: the end
/// of the wait, or the deadline where that is earlier; once it has passed, nothing is left.
pub proof fn what_is_left_ends_at_the_same_instant(
    until: u128,
    deadline: Option<u128>,
    now: u128,
    left: u128,
)
    requires
        left == remaining_wait(until, deadline, now),
    ensures
        deadline is None && now <= until ==> now + left == until,
        deadline matches Some(end) ==> now <= end <= until ==> now + left == end,
        deadline matches Some(end) ==> now <= until <= end ==> now + left == until,
        until < now ==> left == 0,
        deadline matches Some(end) ==> end < now ==> left == 0,
{
    a_wait_is_the_limit_or_what_is_left(time_left(until, now), deadline, now, left);
}

/// A wait ends when its limit has passed, and as long as the clock can hold that instant no sooner
/// and no later: what is left of it at once is the whole of it.
pub proof fn a_wait_lasts_as_long_as_its_limit(now: u128, limit: u128, until: u128)
    requires
        until == wait_end(now, limit),
    ensures
        now + limit <= u128::MAX ==> until - now == limit && remaining_wait(until, None, now)
            == limit,
        now + limit > u128::MAX ==> until == u128::MAX,
{
}

/// Milliseconds are counted whole: none more and none fewer than the duration holds, up to the
/// largest count.
pub proof fn milliseconds_are_counted_whole(nanos: u128, count: u64)
    requires
        count == in_millis(nanos),
    ensures
        count * 1_000_000 <= nanos,
        count < u64::MAX ==> nanos < (count + 1) * 1_000_000,
{
}

/// Silence is the time since something was heard of; what lies ahead was heard of just now.
pub proof fn silence_is_the_time_since(now: u64, earlier: u64)
    ensures
        earlier <= now ==> earlier + silence(now, earlier) == now,
        now < earlier ==> silence(now, earlier) == 0,
{
}

/// An announced timeout ends a scrape exactly when it has passed. One of no length, or one that the
/// clock cannot hold, does not count as announced.
pub proof fn an_announced_timeout_is_the_deadline(timeout: Option<u128>, now: u128)
    ensures
        timeout is None ==> announced_deadline(timeout, now) is None,
        timeout matches Some(length) ==> match announced_deadline(timeout, now) {
            Some(end) => length > 0 && end - now == length && end
                <= 9_223_372_036_854_775_807_999_999_999,
            None => length == 0 || now + length > 9_223_372_036_854_775_807_999_999_999,
        },
{
}

/// Without a timeout that counts as announced, a scrape may take as long as one wait for a ready
/// worker and one for its response; with one, exactly the announced time, whatever the limits are.
pub proof fn a_scrape_has_the_announced_time_or_that_of_one_attempt(
    timeout: Option<u128>,
    now: u128,
    limits: Limits,
)
    ensures
        timeout matches Some(length) ==> length > 0 && now + length
            <= 9_223_372_036_854_775_807_999_999_999 ==> deadline_of(timeout, now, limits) == Some(
            (now + length) as u128,
        ),
        timeout is None || timeout == Some(0u128) || (timeout matches Some(length) && now + length
            > 9_223_372_036_854_775_807_999_999_999) ==> match deadline_of(timeout, now, limits) {
            Some(end) => end - now == limits.ready_timeout + limits.response_timeout,
            None => now + limits.ready_timeout + limits.response_timeout
                > 9_223_372_036_854_775_807_999_999_999,
        },
{
}

/// The standard limits fit together: a worker goes stale after two heartbeats and is given up after
/// three, a scrape waits half a minute for a ready worker and as long for its response, and for a
/// replacement three seconds; 1024 scrapes may be in flight.
pub proof fn standard_limits_fit_together()
    ensures
        Limits::standard().heartbeat_interval == 15 * 1_000_000_000,
        Limits::standard().stale_after == 2 * Limits::standard().heartbeat_interval,
        Limits::standard().heartbeat_timeout == 3 * Limits::standard().heartbeat_interval,
        Limits::standard().ready_timeout == 30 * 1_000_000_000,
        Limits::standard().response_timeout == Limits::standard().ready_timeout,
        Limits::standard().retry_wait == 3 * 1_000_000_000,
        Limits::standard().max_in_flight == 1024,
{
}

/// After a broadcast that reached a candidate, the scrape waits for a ready worker exactly as long
/// as the ready timeout, or until the deadline where that is nearer, and not at all where the
/// deadline is past. It waits for the same request, and no worker changes.
pub proof fn a_broadcast_is_waited_for_as_long_as_the_limit(
    state: StateView,
    scrape: ScrapeView,
    uid: Seq<char>,
    asked: Seq<CandidateView>,
    delivered: Seq<bool>,
    now: u128,
    closed: Set<u64>,
    after: (StateView, StepView),
    reached: int,
)
    requires
        broadcast_done(state, scrape, uid, asked, delivered, now, closed, after),
        0 <= reached < asked.len(),
        reached < delivered.len(),
        delivered[reached],
    ensures
        ({
            &&& after.1 matches StepView::AwaitReady {
                scrape: same,
                uid: request,
                asked: all,
                wait,
            }
            &&& same == scrape && request == uid && all == asked
            &&& scrape.deadline is None ==> wait == state.limits.ready_timeout
            &&& scrape.deadline matches Some(end) ==> {
                &&& now + state.limits.ready_timeout <= end ==> wait == state.limits.ready_timeout
                &&& now <= end < now + state.limits.ready_timeout ==> now + wait == end
                &&& end < now ==> wait == 0
            }
        }),
        after.0 == (StateView { pending: after.0.pending, ..state }),
{
    assert(was_delivered(delivered, reached));
    lemma_asking(state, uid, asked, delivered, asked.len() as int);
}

proof fn lemma_asking(
    state: StateView,
    uid: Seq<char>,
    asked: Seq<CandidateView>,
    delivered: Seq<bool>,
    n: int,
)
    ensures
        ({
            let after = asked_state(state, uid, asked, delivered, n);
            after == (StateView { pending: after.pending, ..state })
        }),
    decreases n,
{
    if n > 0 {
        lemma_asking(state, uid, asked, delivered, n - 1);
    }
}

/// After the request was sent, the scrape waits for the response exactly as long as the response
/// timeout, or until the deadline where that is nearer, and not at all where the deadline is past.
/// It waits for the worker that the request was sent to, and nothing changes.
pub proof fn a_request_is_waited_for_as_long_as_the_limit(
    state: StateView,
    scrape: ScrapeView,
    uid: Seq<char>,
    worker: IdentityView,
    now: u128,
    closed: Set<u64>,
    after: (StateView, StepView),
)
    requires
        request_done(state, scrape, uid, worker, true, now, closed, after),
    ensures
        after.0 == state,
        ({
            &&& after.1 matches StepView::AwaitResponse {
                scrape: same,
                uid: request,
                worker: who,
                wait,
            }
            &&& same == scrape && request == uid && who == worker
            &&& scrape.deadline is None ==> wait == state.limits.response_timeout
            &&& scrape.deadline matches Some(end) ==> {
                &&& now + state.limits.response_timeout <= end ==> wait
                    == state.limits.response_timeout
                &&& now <= end < now + state.limits.response_timeout ==> now + wait == end
                &&& end < now ==> wait == 0
            }
        }),
{
}

/// A heartbeat finds the peer gone exactly where nothing was heard of it for as many whole
/// milliseconds as the heartbeat timeout has; then the connection is closed for that reason, and
/// the peer is told. Otherwise the peer is pinged. Either way nothing changes by that.
pub proof fn a_heartbeat_closes_after_the_timeout(
    state: StateView,
    connection: ConnectionView,
    now: u128,
    clock: u64,
    timeout: u64,
    after: Reaction,
)
    requires
        reaction(state, connection, Event::Tick, now, after),
        clock * 1_000_000 <= now,
        clock < u64::MAX ==> now < (clock + 1) * 1_000_000,
        timeout * 1_000_000 <= state.limits.heartbeat_timeout,
        timeout < u64::MAX ==> state.limits.heartbeat_timeout < (timeout + 1) * 1_000_000,
    ensures
        ({
            let gone = clock - connection.last_seen >= timeout || timeout == 0;
            after.action == (if gone {
                ActionView::Close {
                    reason: CloseReason::HeartbeatTimeout,
                    farewell: Some("heartbeat timeout"@),
                    flush: false,
                }
            } else {
                ActionView::Heartbeat
            })
        }),
        after.state == state,
        after.connection == connection,
{
}

} // verus!

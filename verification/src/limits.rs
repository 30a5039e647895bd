//! Time and capacity limits.
//!
//! Durations are counted in nanoseconds. An instant is counted in nanoseconds since the server
//! state was created.

use vstd::prelude::*;

verus! {

/// Largest HTTP form body, WebSocket frame and WebSocket message, in bytes.
pub const MAX_MESSAGE_SIZE: usize = 64 * 1024 * 1024;

pub const MAX_IN_FLIGHT: usize = 1024;

pub const MAX_READY_CANDIDATES: usize = 1024;

/// How many messages wait for a connection to send them.
pub const WORKER_OUTBOX_SIZE: usize = 8;

pub const READY_TIMEOUT: u128 = 30_000_000_000;

pub const RESPONSE_TIMEOUT: u128 = 30_000_000_000;

pub const HEARTBEAT_INTERVAL: u128 = 15_000_000_000;

pub const HEARTBEAT_TIMEOUT: u128 = 45_000_000_000;

pub const SOCKET_SEND_TIMEOUT: u128 = 5_000_000_000;

pub const CLOSE_SEND_TIMEOUT: u128 = 1_000_000_000;

/// A worker that has sent nothing for two heartbeat intervals is not given new scrapes; its
/// connection stays open until the heartbeat timeout decides.
pub const STALE_AFTER: u128 = 30_000_000_000;

/// Upper bound for waiting on a replacement worker after the selected one disconnected
/// mid-scrape. Clients reconnect after about one second.
pub const RETRY_WAIT: u128 = 3_000_000_000;

pub const MIN_RETRY_BUDGET: u128 = 500_000_000;

pub const MAX_DISPATCH_ATTEMPTS: usize = 3;

pub const SCRAPE_TIMEOUT_HEADER: &'static str = "x-prometheus-scrape-timeout-seconds";

/// How long a process that was asked to stop waits for its connections.
pub const SHUTDOWN_GRACE: u128 = 15_000_000_000;

/// The longest duration that the standard library can hold: `u64::MAX` seconds and the
/// nanoseconds of one second.
pub const MAX_DURATION: u128 = 18_446_744_073_709_551_615_999_999_999;

/// The last instant that the clock can hold: `i64::MAX` seconds and the nanoseconds of one
/// second.
pub const MAX_INSTANT: u128 = 9_223_372_036_854_775_807_999_999_999;

pub const NANOS_PER_MILLI: u128 = 1_000_000;

/// The limits that a server runs with.
#[derive(Clone, Copy, Debug, PartialEq, Eq, Structural)]
pub struct Limits {
    pub ready_timeout: u128,
    pub response_timeout: u128,
    pub max_in_flight: usize,
    pub heartbeat_interval: u128,
    pub heartbeat_timeout: u128,
    pub stale_after: u128,
    pub retry_wait: u128,
}

impl Limits {
    /// The limits of a server that is not configured otherwise.
    pub open spec fn standard() -> Limits {
        Limits {
            ready_timeout: READY_TIMEOUT,
            response_timeout: RESPONSE_TIMEOUT,
            max_in_flight: MAX_IN_FLIGHT,
            heartbeat_interval: HEARTBEAT_INTERVAL,
            heartbeat_timeout: HEARTBEAT_TIMEOUT,
            stale_after: STALE_AFTER,
            retry_wait: RETRY_WAIT,
        }
    }
}

impl Default for Limits {
    fn default() -> (limits: Self)
        ensures
            limits == Limits::standard(),
    {
        Limits {
            ready_timeout: READY_TIMEOUT,
            response_timeout: RESPONSE_TIMEOUT,
            max_in_flight: MAX_IN_FLIGHT,
            heartbeat_interval: HEARTBEAT_INTERVAL,
            heartbeat_timeout: HEARTBEAT_TIMEOUT,
            stale_after: STALE_AFTER,
            retry_wait: RETRY_WAIT,
        }
    }
}

/// The whole milliseconds of a duration, or the largest number that fits.
pub open spec fn in_millis(nanos: u128) -> u64 {
    if nanos / NANOS_PER_MILLI <= u64::MAX {
        (nanos / NANOS_PER_MILLI) as u64
    } else {
        u64::MAX
    }
}

/// The whole milliseconds of a duration, or the largest number that fits.
pub fn millis(nanos: u128) -> (count: u64)
    ensures
        count == in_millis(nanos),
{
    let whole: u128 = nanos / NANOS_PER_MILLI;
    if whole <= u64::MAX as u128 {
        whole as u64
    } else {
        u64::MAX
    }
}

/// How many milliseconds passed from `earlier` to `now`; none when `earlier` lies ahead.
pub open spec fn silence(now: u64, earlier: u64) -> u64 {
    if now >= earlier {
        (now - earlier) as u64
    } else {
        0
    }
}

/// The instant `duration` after `now`, where the clock can hold it.
pub open spec fn instant_after(now: u128, duration: int) -> Option<u128> {
    if now + duration <= MAX_INSTANT {
        Some((now + duration) as u128)
    } else {
        None
    }
}

/// What is left of `limit` when nothing may last beyond `deadline`.
pub open spec fn bounded_wait(limit: u128, deadline: Option<u128>, now: u128) -> u128 {
    match deadline {
        Some(end) => {
            let left = if end >= now {
                (end - now) as u128
            } else {
                0
            };
            if limit <= left {
                limit
            } else {
                left
            }
        },
        None => limit,
    }
}

/// What is left of `limit` when nothing may last beyond `deadline`.
pub fn bounded(limit: u128, deadline: Option<u128>, now: u128) -> (wait: u128)
    ensures
        wait == bounded_wait(limit, deadline, now),
{
    match deadline {
        Some(end) => {
            let left: u128 = if end >= now {
                end - now
            } else {
                0
            };
            if limit <= left {
                limit
            } else {
                left
            }
        },
        None => limit,
    }
}

/// When a wait of `limit` that begins at `now` is over. One that would outlast the clock ends with
/// it.
pub open spec fn wait_end(now: u128, limit: u128) -> u128 {
    if now + limit <= u128::MAX {
        (now + limit) as u128
    } else {
        u128::MAX
    }
}

/// When a wait of `limit` that begins at `now` is over.
pub fn end_of_wait(now: u128, limit: u128) -> (until: u128)
    ensures
        until == wait_end(now, limit),
{
    if limit <= u128::MAX - now {
        now + limit
    } else {
        u128::MAX
    }
}

/// What is left at `now` of a wait that ends at `until`, where nothing may last beyond
/// `deadline`.
pub open spec fn remaining_wait(until: u128, deadline: Option<u128>, now: u128) -> u128 {
    bounded_wait(time_left(until, now), deadline, now)
}

/// The time from `now` to `until`; none when `until` lies behind.
pub open spec fn time_left(until: u128, now: u128) -> u128 {
    if until >= now {
        (until - now) as u128
    } else {
        0
    }
}

/// What is left at `now` of a wait that ends at `until`, where nothing may last beyond
/// `deadline`.
pub fn remaining(until: u128, deadline: Option<u128>, now: u128) -> (wait: u128)
    ensures
        wait == remaining_wait(until, deadline, now),
{
    let left: u128 = if until >= now {
        until - now
    } else {
        0
    };
    bounded(left, deadline, now)
}

/// When Prometheus gives up on a scrape that announced `timeout`.
pub open spec fn announced_deadline(timeout: Option<u128>, now: u128) -> Option<u128> {
    match timeout {
        Some(duration) => if duration == 0 {
            None
        } else {
            instant_after(now, duration as int)
        },
        None => None,
    }
}

/// Prometheus announces its scrape timeout; waiting past it keeps a worker reserved for a
/// request nobody reads. The deadline is the timeout itself: a response that arrives just
/// before it still counts for Prometheus.
///
/// `timeout` is the announced duration, absent where the request announced none that can be
/// read.
pub fn scrape_deadline(timeout: Option<u128>, now: u128) -> (deadline: Option<u128>)
    ensures
        deadline == announced_deadline(timeout, now),
{
    match timeout {
        Some(duration) => {
            if duration == 0 || now > MAX_INSTANT || duration > MAX_INSTANT - now {
                None
            } else {
                Some(now + duration)
            }
        },
        None => None,
    }
}

/// The deadline of a scrape: the announced one, or else the end of the single-attempt worst
/// case.
pub open spec fn deadline_of(timeout: Option<u128>, now: u128, limits: Limits) -> Option<u128> {
    match announced_deadline(timeout, now) {
        Some(deadline) => Some(deadline),
        None => instant_after(now, limits.ready_timeout + limits.response_timeout),
    }
}

/// The deadline of a scrape. Without an announced timeout, retries stay within the
/// single-attempt worst case.
pub fn request_deadline(timeout: Option<u128>, now: u128, limits: &Limits) -> (deadline: Option<
    u128,
>)
    requires
        announced_deadline(timeout, now) is None ==> limits.ready_timeout + limits.response_timeout
            <= MAX_DURATION,
    ensures
        deadline == deadline_of(timeout, now, *limits),
{
    match scrape_deadline(timeout, now) {
        Some(deadline) => Some(deadline),
        None => {
            let worst: u128 = limits.ready_timeout + limits.response_timeout;
            if now > MAX_INSTANT || worst > MAX_INSTANT - now {
                None
            } else {
                Some(now + worst)
            }
        },
    }
}

} // verus!

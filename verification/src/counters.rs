//! What the counters stand at after any run of counts.

use crate::metrics::{version_class, CloseReason, MetricsView, ScrapeOutcome};
use vstd::prelude::*;

verus! {

/// Something that is counted.
pub enum Count {
    Opened,
    Closed(CloseReason),
    Registered(u16),
    Finished(ScrapeOutcome),
    Retried,
}

impl MetricsView {
    /// After something was counted.
    pub open spec fn counted(self, count: Count) -> MetricsView {
        match count {
            Count::Opened => self.opened(),
            Count::Closed(reason) => self.closed(reason),
            Count::Registered(version) => self.registered(version),
            Count::Finished(outcome) => self.finished(outcome),
            Count::Retried => self.retried(),
        }
    }
}

/// What the counters of a fresh server stand at after a run of counts.
pub open spec fn after_run(run: Seq<Count>) -> MetricsView
    decreases run.len(),
{
    if run.len() == 0 {
        MetricsView::zero()
    } else {
        after_run(run.drop_last()).counted(run.last())
    }
}

/// How often a run holds a count that fits.
pub open spec fn times(run: Seq<Count>, fits: spec_fn(Count) -> bool) -> nat
    decreases run.len(),
{
    if run.len() == 0 {
        0
    } else {
        times(run.drop_last(), fits) + if fits(run.last()) {
            1nat
        } else {
            0nat
        }
    }
}

/// A connection was opened.
pub open spec fn is_opened() -> spec_fn(Count) -> bool {
    |count: Count| count is Opened
}

/// A connection was closed, for whatever reason.
pub open spec fn is_closed() -> spec_fn(Count) -> bool {
    |count: Count| count is Closed
}

/// A connection was closed for `reason`.
pub open spec fn is_closed_for(reason: CloseReason) -> spec_fn(Count) -> bool {
    |count: Count| count == Count::Closed(reason)
}

/// A worker was registered whose wire version is counted under `class`.
pub open spec fn is_registered_under(class: int) -> spec_fn(Count) -> bool {
    |count: Count| count matches Count::Registered(version) && version_class(version) == class
}

/// A scrape ended with `outcome`.
pub open spec fn is_finished_with(outcome: ScrapeOutcome) -> spec_fn(Count) -> bool {
    |count: Count| count == Count::Finished(outcome)
}

/// A scrape was dispatched again.
pub open spec fn is_retried() -> spec_fn(Count) -> bool {
    |count: Count| count is Retried
}

proof fn lemma_times(run: Seq<Count>, fits: spec_fn(Count) -> bool)
    ensures
        times(run, fits) <= run.len(),
    decreases run.len(),
{
    if run.len() > 0 {
        lemma_times(run.drop_last(), fits);
    }
}

/// After any run of counts, as long as no counter has run through: the gauge of open connections
/// is what was opened less what was closed; each counter stands at how often its own thing was
/// counted; and the counters of the reasons add up to what was closed.
pub proof fn counters_count(run: Seq<Count>)
    requires
        run.len() <= i64::MAX,
    ensures
        after_run(run).complete(),
        after_run(run).open_connections == times(run, is_opened()) - times(run, is_closed()),
        forall|reason: CloseReason|
            after_run(run).closes[#[trigger] reason.position()] == times(
                run,
                is_closed_for(reason),
            ),
        forall|class: int|
            0 <= class < 3 ==> #[trigger] after_run(run).registrations[class] == times(
                run,
                is_registered_under(class),
            ),
        forall|outcome: ScrapeOutcome|
            after_run(run).scrapes[#[trigger] outcome.position()] == times(
                run,
                is_finished_with(outcome),
            ),
        after_run(run).retries == times(run, is_retried()),
        times(run, is_closed()) == times(run, is_closed_for(CloseReason::ClientClose)) + times(
            run,
            is_closed_for(CloseReason::Reset),
        ) + times(run, is_closed_for(CloseReason::ReceiveError)) + times(
            run,
            is_closed_for(CloseReason::HeartbeatTimeout),
        ) + times(run, is_closed_for(CloseReason::SendFailed)) + times(
            run,
            is_closed_for(CloseReason::Replaced),
        ) + times(run, is_closed_for(CloseReason::Shutdown)),
    decreases run.len(),
{
    if run.len() > 0 {
        let before = run.drop_last();
        counters_count(before);
        lemma_times(before, is_opened());
        lemma_times(before, is_closed());
        lemma_times(before, is_retried());
        assert forall|reason: CloseReason| after_run(run).closes[#[trigger] reason.position()]
            == times(run, is_closed_for(reason)) by {
            lemma_times(before, is_closed_for(reason));
            assert(after_run(before).closes[reason.position()] == times(
                before,
                is_closed_for(reason),
            ));
            if let Count::Closed(other) = run.last() {
                assert(other.position() == reason.position() ==> other == reason);
            }
        }
        assert forall|class: int| 0 <= class < 3 implies #[trigger] after_run(
            run,
        ).registrations[class] == times(run, is_registered_under(class)) by {
            lemma_times(before, is_registered_under(class));
            assert(after_run(before).registrations[class] == times(
                before,
                is_registered_under(class),
            ));
        }
        assert forall|outcome: ScrapeOutcome| after_run(run).scrapes[#[trigger] outcome.position()]
            == times(run, is_finished_with(outcome)) by {
            lemma_times(before, is_finished_with(outcome));
            assert(after_run(before).scrapes[outcome.position()] == times(
                before,
                is_finished_with(outcome),
            ));
            if let Count::Finished(other) = run.last() {
                assert(other.position() == outcome.position() ==> other == outcome);
            }
        }
    }
}

} // verus!

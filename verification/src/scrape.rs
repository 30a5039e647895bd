//! One scrape, from its admission to the reply: selection of a worker, dispatch of the request,
//! and the retries after a worker was lost.
//!
//! A scrape alternates between decisions, which are made here, and work that takes time or
//! leaves the process. Each [`Step`] says what has to happen next; what came of it is handed
//! back to the value that the step carries.

use crate::limits::{
    announced_deadline, bounded, bounded_wait, deadline_of, end_of_wait, in_millis, millis,
    remaining, remaining_wait, request_deadline, wait_end, MAX_DISPATCH_ATTEMPTS, MAX_DURATION,
    MIN_RETRY_BUDGET,
};
use crate::metrics::ScrapeOutcome;
use crate::model::{
    CandidateView, Conditions, IdentityView, ReserveError, ReservedView, SelectionView, StateView,
};
use crate::outside::{is_random_uuid, random_uuid};
use crate::state::{
    candidates, conditions, identities, links, optional_identity, optional_reserved,
    selection_view, AppState, DispatchSelection, ProxyResponse, ReadyCandidate, ReservedWorker,
    WorkerIdentity,
};
use vstd::prelude::*;

verus! {

/// What a scrape knows across its attempts.
pub struct Scrape {
    pub instance: String,
    pub resource: String,
    /// When nobody waits for the reply any more.
    pub deadline: Option<u128>,
    /// Workers that were lost during the scrape.
    pub excluded: Vec<WorkerIdentity>,
    pub lost_worker: bool,
    /// The number of the current attempt; the first one is 1.
    pub attempt: usize,
}

/// No worker is available after one was lost: the scrape waits for one to register or to become
/// idle. The wait is over at `until`, however often the scrape looks again meanwhile.
pub struct WorkerWait {
    pub scrape: Scrape,
    pub until: u128,
}

/// The candidates have to be asked whether they are ready.
pub struct ReadyBroadcast {
    pub scrape: Scrape,
    pub uid: String,
    pub candidates: Vec<ReadyCandidate>,
}

/// The scrape waits for a candidate to be selected, no longer than `wait`.
pub struct ReadyWait {
    pub scrape: Scrape,
    pub uid: String,
    pub candidates: Vec<ReadyCandidate>,
    pub wait: u128,
}

/// The request has to be sent to the selected worker.
pub struct RequestSend {
    pub scrape: Scrape,
    pub uid: String,
    pub worker: ReservedWorker,
}

/// The scrape waits for the response of the selected worker, no longer than `wait`.
pub struct ResponseWait {
    pub scrape: Scrape,
    pub uid: String,
    pub worker: WorkerIdentity,
    pub wait: u128,
}

/// What has to happen next in a scrape.
pub enum Step {
    AwaitWorker(WorkerWait),
    SendReady(ReadyBroadcast),
    AwaitReady(ReadyWait),
    SendRequest(RequestSend),
    AwaitResponse(ResponseWait),
    /// The scrape is over and holds nothing any more.
    Finished(Result<ProxyResponse, ScrapeOutcome>),
}

/// What Prometheus is answered.
pub struct HttpReply {
    pub status: u16,
    pub body: String,
}

/// What a scrape knows across its attempts.
#[verifier::ext_equal]
pub struct ScrapeView {
    pub instance: Seq<char>,
    pub resource: Seq<char>,
    pub deadline: Option<u128>,
    pub excluded: Set<IdentityView>,
    pub lost_worker: bool,
    pub attempt: nat,
}

/// What an exporter returned.
pub struct ResponseView {
    pub status: u16,
    pub body: Seq<char>,
}

/// What has to happen next in a scrape.
#[allow(inconsistent_fields)]
pub enum StepView {
    AwaitWorker { scrape: ScrapeView, until: u128 },
    SendReady { scrape: ScrapeView, uid: Seq<char>, asked: Seq<CandidateView> },
    AwaitReady { scrape: ScrapeView, uid: Seq<char>, asked: Seq<CandidateView>, wait: u128 },
    SendRequest { scrape: ScrapeView, uid: Seq<char>, worker: ReservedView },
    AwaitResponse { scrape: ScrapeView, uid: Seq<char>, worker: IdentityView, wait: u128 },
    Finished(Result<ResponseView, ScrapeOutcome>),
}

impl View for Scrape {
    type V = ScrapeView;

    open spec fn view(&self) -> ScrapeView {
        ScrapeView {
            instance: self.instance@,
            resource: self.resource@,
            deadline: self.deadline,
            excluded: identities(self.excluded@),
            lost_worker: self.lost_worker,
            attempt: self.attempt as nat,
        }
    }
}

impl View for ProxyResponse {
    type V = ResponseView;

    open spec fn view(&self) -> ResponseView {
        ResponseView { status: self.status, body: self.body@ }
    }
}

impl View for Step {
    type V = StepView;

    open spec fn view(&self) -> StepView {
        match self {
            Step::AwaitWorker(it) => StepView::AwaitWorker {
                scrape: it.scrape@,
                until: it.until,
            },
            Step::SendReady(it) => StepView::SendReady {
                scrape: it.scrape@,
                uid: it.uid@,
                asked: candidates(it.candidates@),
            },
            Step::AwaitReady(it) => StepView::AwaitReady {
                scrape: it.scrape@,
                uid: it.uid@,
                asked: candidates(it.candidates@),
                wait: it.wait,
            },
            Step::SendRequest(it) => StepView::SendRequest {
                scrape: it.scrape@,
                uid: it.uid@,
                worker: it.worker@,
            },
            Step::AwaitResponse(it) => StepView::AwaitResponse {
                scrape: it.scrape@,
                uid: it.uid@,
                worker: it.worker@,
                wait: it.wait,
            },
            Step::Finished(result) => StepView::Finished(
                match result {
                    Ok(response) => Ok(response@),
                    Err(outcome) => Err(*outcome),
                },
            ),
        }
    }
}

/// The registrations of the workers that are asked.
pub open spec fn asked_identities(asked: Seq<CandidateView>) -> Set<IdentityView> {
    Set::new(
        |id: IdentityView|
            exists|i: int| 0 <= i < asked.len() && (#[trigger] asked[i]).identity == id,
    )
}

impl ScrapeView {
    /// A scrape before its first attempt.
    pub open spec fn fresh(
        instance: Seq<char>,
        resource: Seq<char>,
        deadline: Option<u128>,
    ) -> ScrapeView {
        ScrapeView {
            instance,
            resource,
            deadline,
            excluded: Set::empty(),
            lost_worker: false,
            attempt: 1,
        }
    }

    /// The circumstances under which the scrape selects workers.
    pub open spec fn terms(self, now: u128, closed: Set<u64>) -> Conditions {
        Conditions {
            instance: self.instance,
            excluded: self.excluded,
            now: in_millis(now),
            closed,
        }
    }

    /// After workers were lost.
    pub open spec fn without(self, lost: Set<IdentityView>) -> ScrapeView {
        ScrapeView { excluded: self.excluded.union(lost), lost_worker: true, ..self }
    }

    /// With the next attempt.
    pub open spec fn next(self) -> ScrapeView {
        ScrapeView { attempt: self.attempt + 1, ..self }
    }

    /// A lost worker ends the scrape: no attempt is left or no time for one.
    pub open spec fn exhausted(self, now: u128) -> bool {
        self.attempt >= MAX_DISPATCH_ATTEMPTS || bounded_wait(MAX_DURATION, self.deadline, now)
            < MIN_RETRY_BUDGET
    }
}

/// How a scrape goes on with the workers that were selected for it.
pub open spec fn dispatched(
    state: StateView,
    scrape: ScrapeView,
    uid: Seq<char>,
    selection: SelectionView,
) -> (StateView, StepView) {
    match selection {
        SelectionView::Legacy(worker) => (
            state.selected(selection).awaiting_response(uid, worker.identity),
            StepView::SendRequest { scrape, uid, worker },
        ),
        SelectionView::Ready(asked) => (
            state.selected(selection).awaiting_ready(uid, asked_identities(asked)),
            StepView::SendReady { scrape, uid, asked },
        ),
    }
}

/// How a scrape ends that found no worker without having lost one. A busy instance is refused at
/// once: without a disconnect there is nothing to wait for.
pub open spec fn refused(error: ReserveError) -> ScrapeOutcome {
    match error {
        ReserveError::Unknown => ScrapeOutcome::UnknownInstance,
        ReserveError::Unavailable => ScrapeOutcome::NoIdleWorker,
    }
}

/// How an attempt goes on after its selection.
pub open spec fn attempted(
    state: StateView,
    scrape: ScrapeView,
    uid: Seq<char>,
    now: u128,
    selection: Result<SelectionView, ReserveError>,
) -> (StateView, StepView) {
    match selection {
        Ok(found) => dispatched(state, scrape, uid, found),
        Err(error) => if scrape.lost_worker {
            (
                state,
                StepView::AwaitWorker {
                    scrape,
                    until: wait_end(now, state.limits.retry_wait),
                },
            )
        } else {
            (state.discharged(), StepView::Finished(Err(refused(error))))
        },
    }
}

/// `after` is a way in which an attempt may begin: it selects among the workers that are usable.
pub open spec fn begins(
    state: StateView,
    scrape: ScrapeView,
    uid: Seq<char>,
    now: u128,
    closed: Set<u64>,
    after: (StateView, StepView),
) -> bool {
    exists|selection: Result<SelectionView, ReserveError>| #[trigger]
        state.offers(scrape.terms(now, closed), selection) && after == attempted(
            state,
            scrape,
            uid,
            now,
            selection,
        )
}

/// `after` is a way in which an attempt may begin whose request gets an identifier of its own.
pub open spec fn begins_anew(
    state: StateView,
    scrape: ScrapeView,
    now: u128,
    closed: Set<u64>,
    after: (StateView, StepView),
) -> bool {
    exists|uid: Seq<char>| #[trigger]
        is_random_uuid(uid) && begins(state, scrape, uid, now, closed, after)
}

/// How a scrape ends for good: its request is closed, its worker released, its capacity given
/// back.
pub open spec fn ended(
    state: StateView,
    worker: Option<IdentityView>,
    uid: Seq<char>,
    result: Result<ResponseView, ScrapeOutcome>,
) -> (StateView, StepView) {
    (state.finished(worker, uid).discharged(), StepView::Finished(result))
}

/// How a scrape goes on with the candidate that was selected for it: the request is opened to it.
pub open spec fn taken(
    state: StateView,
    scrape: ScrapeView,
    uid: Seq<char>,
    worker: ReservedView,
) -> (StateView, StepView) {
    (
        state.awaiting_response(uid, worker.identity),
        StepView::SendRequest { scrape, uid, worker },
    )
}

/// How a scrape ends for which no candidate was selected in time. One that was selected too late is
/// given back.
pub open spec fn not_ready_in_time(
    state: StateView,
    uid: Seq<char>,
    late: Option<ReservedView>,
) -> (StateView, StepView) {
    ended(state.returned(late), None, uid, Err(ScrapeOutcome::ReadyTimeout))
}

/// How a scrape ends whose worker answered.
pub open spec fn answered_in_time(
    state: StateView,
    uid: Seq<char>,
    worker: IdentityView,
    response: ResponseView,
) -> (StateView, StepView) {
    ended(state, Some(worker), uid, Ok(response))
}

/// How a scrape ends whose worker did not answer in time.
pub open spec fn not_answered_in_time(
    state: StateView,
    uid: Seq<char>,
    worker: IdentityView,
) -> (StateView, StepView) {
    ended(state, Some(worker), uid, Err(ScrapeOutcome::ResponseTimeout))
}

/// How a scrape ends that waited for a worker in vain.
pub open spec fn not_replaced_in_time(state: StateView) -> (StateView, StepView) {
    (state.discharged(), StepView::Finished(Err(ScrapeOutcome::WorkerLost)))
}

/// `after` is a way in which a scrape may go on after the workers in `lost` were lost: the
/// attempt is closed, and the scrape is dispatched again, without those workers, unless it is
/// exhausted.
pub open spec fn goes_on(
    state: StateView,
    scrape: ScrapeView,
    worker: Option<IdentityView>,
    uid: Seq<char>,
    lost: Set<IdentityView>,
    now: u128,
    closed: Set<u64>,
    after: (StateView, StepView),
) -> bool {
    if scrape.exhausted(now) {
        after == ended(state, worker, uid, Err(ScrapeOutcome::WorkerLost))
    } else {
        begins_anew(
            state.finished(worker, uid).retried(),
            scrape.without(lost).next(),
            now,
            closed,
            after,
        )
    }
}

/// `after` is a way in which a scrape may go on whose candidates were all lost before one was
/// selected.
pub open spec fn candidates_lost(
    state: StateView,
    scrape: ScrapeView,
    uid: Seq<char>,
    asked: Seq<CandidateView>,
    now: u128,
    closed: Set<u64>,
    after: (StateView, StepView),
) -> bool {
    goes_on(state, scrape, None, uid, asked_identities(asked), now, closed, after)
}

/// `after` is a way in which a scrape may go on that lost the worker selected for it.
pub open spec fn worker_lost(
    state: StateView,
    scrape: ScrapeView,
    uid: Seq<char>,
    worker: IdentityView,
    now: u128,
    closed: Set<u64>,
    after: (StateView, StepView),
) -> bool {
    goes_on(state, scrape, Some(worker), uid, set![worker], now, closed, after)
}

/// The state after the first `n` candidates were asked. One that could not be asked is taken off
/// the list of those that the request waits for.
pub open spec fn asked_state(
    state: StateView,
    uid: Seq<char>,
    asked: Seq<CandidateView>,
    delivered: Seq<bool>,
    n: int,
) -> StateView
    decreases n,
{
    if n <= 0 {
        state
    } else {
        let before = asked_state(state, uid, asked, delivered, n - 1);
        if was_delivered(delivered, n - 1) {
            before
        } else {
            before.uninvited(uid, asked[n - 1].identity)
        }
    }
}

/// `after` is a way in which a scrape may go on after its candidates were asked.
pub open spec fn broadcast_done(
    state: StateView,
    scrape: ScrapeView,
    uid: Seq<char>,
    asked: Seq<CandidateView>,
    delivered: Seq<bool>,
    now: u128,
    closed: Set<u64>,
    after: (StateView, StepView),
) -> bool {
    let reached = asked_state(state, uid, asked, delivered, asked.len() as int);
    if exists|i: int| 0 <= i < asked.len() && #[trigger] was_delivered(delivered, i) {
        after == (
            reached,
            StepView::AwaitReady {
                scrape,
                uid,
                asked,
                wait: bounded_wait(state.limits.ready_timeout, scrape.deadline, now),
            },
        )
    } else {
        candidates_lost(reached, scrape, uid, asked, now, closed, after)
    }
}

/// `after` is a way in which a scrape may go on after the request was sent to the selected worker,
/// or could not be.
pub open spec fn request_done(
    state: StateView,
    scrape: ScrapeView,
    uid: Seq<char>,
    worker: IdentityView,
    delivered: bool,
    now: u128,
    closed: Set<u64>,
    after: (StateView, StepView),
) -> bool {
    if delivered {
        after == (
            state,
            StepView::AwaitResponse {
                scrape,
                uid,
                worker,
                wait: bounded_wait(state.limits.response_timeout, scrape.deadline, now),
            },
        )
    } else {
        worker_lost(state, scrape, uid, worker, now, closed, after)
    }
}

/// `after` is a way in which a scrape may go on that waits for a worker: without one it goes on
/// waiting, for no longer than before.
pub open spec fn retries(
    state: StateView,
    scrape: ScrapeView,
    until: u128,
    uid: Seq<char>,
    now: u128,
    closed: Set<u64>,
    after: (StateView, StepView),
) -> bool {
    exists|selection: Result<SelectionView, ReserveError>| #[trigger]
        state.offers(scrape.terms(now, closed), selection) && after == (match selection {
            Ok(found) => dispatched(state, scrape, uid, found),
            Err(_) => (state, StepView::AwaitWorker { scrape, until }),
        })
}

/// `after` is a way in which a scrape may start.
pub open spec fn starts(
    state: StateView,
    scrape: ScrapeView,
    now: u128,
    closed: Set<u64>,
    after: (StateView, StepView),
) -> bool {
    match state.refusal(scrape.instance) {
        Some(outcome) => after == (state, StepView::Finished(Err(outcome))),
        None => begins_anew(state.admitted(), scrape, now, closed, after),
    }
}

/// The state after a scrape was given up.
pub open spec fn abandoned(state: StateView, step: StepView) -> StateView {
    match step {
        StepView::AwaitWorker { .. } => state.discharged(),
        StepView::SendReady { uid, .. } => state.finished(None, uid).discharged(),
        StepView::AwaitReady { uid, .. } => state.finished(None, uid).discharged(),
        StepView::SendRequest { uid, worker, .. } => state.finished(
            Some(worker.identity),
            uid,
        ).discharged(),
        StepView::AwaitResponse { uid, worker, .. } => state.finished(
            Some(worker),
            uid,
        ).discharged(),
        StepView::Finished(_) => state,
    }
}

/// The question to the candidate at a place was sent.
pub open spec fn was_delivered(delivered: Seq<bool>, i: int) -> bool {
    0 <= i < delivered.len() && delivered[i]
}

/// What Prometheus is answered: the exporter's own status and body where the scrape was
/// proxied.
pub open spec fn reply_of(result: Result<ResponseView, ScrapeOutcome>) -> (u16, Seq<char>) {
    match result {
        Ok(response) => (response.status, response.body),
        Err(ScrapeOutcome::UnknownInstance) => (404, "no such client"@),
        Err(ScrapeOutcome::ResponseTimeout) => (501, Seq::empty()),
        Err(_) => (503, Seq::empty()),
    }
}

/// The outcome under which a scrape is counted.
pub open spec fn outcome_of(result: Result<ResponseView, ScrapeOutcome>) -> ScrapeOutcome {
    match result {
        Ok(_) => ScrapeOutcome::Proxied,
        Err(outcome) => outcome,
    }
}

/// The result of a scrape, as the model sees it.
pub open spec fn result_view(result: Result<ProxyResponse, ScrapeOutcome>) -> Result<
    ResponseView,
    ScrapeOutcome,
> {
    match result {
        Ok(response) => Ok(response@),
        Err(outcome) => Err(outcome),
    }
}

/// The registrations of a list of candidates.
fn identities_of(list: &Vec<ReadyCandidate>) -> (ids: Vec<WorkerIdentity>)
    ensures
        identities(ids@) == asked_identities(candidates(list@)),
{
    let mut ids: Vec<WorkerIdentity> = Vec::new();
    for i in 0..list.len()
        invariant
            ids@.len() == i,
            forall|j: int| 0 <= j < i ==> (#[trigger] ids@[j])@ == list@[j].identity@,
    {
        ids.push(list[i].identity.clone());
    }
    proof {
        let asked = candidates(list@);
        assert forall|id: IdentityView| identities(ids@).contains(id) == asked_identities(
            asked,
        ).contains(id) by {
            if identities(ids@).contains(id) {
                let j = choose|j: int| 0 <= j < ids@.len() && #[trigger] ids@[j]@ == id;
                assert(asked[j].identity == id);
            }
            if asked_identities(asked).contains(id) {
                let j = choose|j: int| 0 <= j < asked.len() && (#[trigger] asked[j]).identity == id;
                assert(ids@[j]@ == id);
            }
        }
        assert(identities(ids@) =~= asked_identities(asked));
    }
    ids
}

/// Appends registrations to a list.
fn extend(list: &mut Vec<WorkerIdentity>, more: &Vec<WorkerIdentity>)
    ensures
        identities(final(list)@) == identities(old(list)@).union(identities(more@)),
{
    let ghost before = list@;
    for i in 0..more.len()
        invariant
            list@.len() == before.len() + i,
            forall|j: int| 0 <= j < before.len() ==> #[trigger] list@[j] == before[j],
            forall|j: int| 0 <= j < i ==> list@[before.len() + j]@ == (#[trigger] more@[j])@,
    {
        list.push(more[i].clone());
    }
    proof {
        let all = identities(before).union(identities(more@));
        assert forall|id: IdentityView| identities(list@).contains(id) == all.contains(id) by {
            if identities(list@).contains(id) {
                let j = choose|j: int| 0 <= j < list@.len() && #[trigger] list@[j]@ == id;
                if j < before.len() {
                    assert(before[j]@ == id);
                } else {
                    assert(more@[j - before.len()]@ == id);
                }
            }
            if identities(before).contains(id) {
                let j = choose|j: int| 0 <= j < before.len() && #[trigger] before[j]@ == id;
                assert(list@[j]@ == id);
            }
            if identities(more@).contains(id) {
                let j = choose|j: int| 0 <= j < more@.len() && #[trigger] more@[j]@ == id;
                assert(list@[before.len() + j]@ == id);
            }
        }
        assert(identities(list@) =~= all);
    }
}

impl Scrape {
    /// Goes on with selected workers: opens the request of the attempt.
    fn dispatch(
        self,
        state: &mut AppState,
        uid: String,
        selection: DispatchSelection,
    ) -> (step: Step)
        requires
            old(state).wf(),
        ensures
            final(state).wf(),
            ({
                let reserved = old(state)@;
                match selection@ {
                    SelectionView::Legacy(worker) => {
                        &&& final(state)@ == reserved.awaiting_response(uid@, worker.identity)
                        &&& step@ == (StepView::SendRequest { scrape: self@, uid: uid@, worker })
                    },
                    SelectionView::Ready(asked) => {
                        &&& final(state)@ == reserved.awaiting_ready(uid@, asked_identities(asked))
                        &&& step@ == (StepView::SendReady { scrape: self@, uid: uid@, asked })
                    },
                }
            }),
    {
        match selection {
            DispatchSelection::Legacy(worker) => {
                state.insert_response(uid.clone(), worker.identity.clone());
                Step::SendRequest(RequestSend { scrape: self, uid, worker })
            },
            DispatchSelection::Ready(asked) => {
                state.insert_ready(uid.clone(), identities_of(&asked));
                Step::SendReady(ReadyBroadcast { scrape: self, uid, candidates: asked })
            },
        }
    }

    /// Begins an attempt whose request is identified by `uid`.
    pub fn begin_with(
        self,
        state: &mut AppState,
        uid: String,
        now: u128,
        closed: &Vec<u64>,
    ) -> (step: Step)
        requires
            old(state).wf(),
        ensures
            final(state).wf(),
            begins(
                old(state)@,
                self@,
                uid@,
                now,
                links(closed@),
                (final(state)@, step@),
            ),
    {
        let selection = state.select_workers(
            self.instance.as_str(),
            &self.excluded,
            millis(now),
            closed,
        );
        let ghost found = selection_view(selection);
        assert(conditions(self.instance@, self.excluded@, in_millis(now), closed@) == self@.terms(
            now,
            links(closed@),
        ));
        assert(old(state)@.offers(self@.terms(now, links(closed@)), found));
        let ghost scrape = self@;
        let step = match selection {
            Ok(workers) => self.dispatch(state, uid, workers),
            Err(error) => {
                if self.lost_worker {
                    let limits = state.limits();
                    let until = end_of_wait(now, limits.retry_wait);
                    Step::AwaitWorker(WorkerWait { scrape: self, until })
                } else {
                    state.discharge();
                    match error {
                        ReserveError::Unknown => Step::Finished(
                            Err(ScrapeOutcome::UnknownInstance),
                        ),
                        ReserveError::Unavailable => Step::Finished(
                            Err(ScrapeOutcome::NoIdleWorker),
                        ),
                    }
                }
            },
        };
        assert((state@, step@) == attempted(old(state)@, scrape, uid@, now, found));
        step
    }

    /// Begins an attempt.
    pub fn begin(self, state: &mut AppState, now: u128, closed: &Vec<u64>) -> (step: Step)
        requires
            old(state).wf(),
        ensures
            final(state).wf(),
            begins_anew(old(state)@, self@, now, links(closed@), (final(state)@, step@)),
    {
        let uid = random_uuid();
        self.begin_with(state, uid, now, closed)
    }

    /// Goes on after workers were lost: closes the attempt and begins another, unless the scrape
    /// is exhausted.
    fn go_on(
        self,
        state: &mut AppState,
        worker: Option<&WorkerIdentity>,
        uid: &str,
        lost: &Vec<WorkerIdentity>,
        now: u128,
        closed: &Vec<u64>,
    ) -> (step: Step)
        requires
            old(state).wf(),
        ensures
            final(state).wf(),
            goes_on(
                old(state)@,
                self@,
                optional_identity(worker),
                uid@,
                identities(lost@),
                now,
                links(closed@),
                (final(state)@, step@),
            ),
    {
        let mut scrape = self;
        state.finish_request(worker, uid);
        extend(&mut scrape.excluded, lost);
        scrape.lost_worker = true;
        let remaining = bounded(MAX_DURATION, scrape.deadline, now);
        if scrape.attempt >= MAX_DISPATCH_ATTEMPTS || remaining < MIN_RETRY_BUDGET {
            state.discharge();
            return Step::Finished(Err(ScrapeOutcome::WorkerLost));
        }
        state.dispatch_retried();
        scrape.attempt = scrape.attempt + 1;
        scrape.begin(state, now, closed)
    }
}

impl WorkerWait {
    /// How long the scrape may still wait: neither beyond the end of the wait nor beyond its own
    /// deadline.
    pub fn wait(&self, now: u128) -> (wait: u128)
        ensures
            wait == remaining_wait(self.until, self.scrape.deadline, now),
    {
        remaining(self.until, self.scrape.deadline, now)
    }

    /// Selects again, for a request identified by `uid`, and goes on waiting where no worker is
    /// available.
    pub fn retry_with(
        self,
        state: &mut AppState,
        uid: String,
        now: u128,
        closed: &Vec<u64>,
    ) -> (step: Step)
        requires
            old(state).wf(),
        ensures
            final(state).wf(),
            retries(
                old(state)@,
                self.scrape@,
                self.until,
                uid@,
                now,
                links(closed@),
                (final(state)@, step@),
            ),
    {
        let selection = state.select_workers(
            self.scrape.instance.as_str(),
            &self.scrape.excluded,
            millis(now),
            closed,
        );
        let ghost found = selection_view(selection);
        let ghost terms = self.scrape@.terms(now, links(closed@));
        assert(conditions(
            self.scrape.instance@,
            self.scrape.excluded@,
            in_millis(now),
            closed@,
        ) == terms);
        assert(old(state)@.offers(terms, found));
        match selection {
            Ok(workers) => self.scrape.dispatch(state, uid, workers),
            Err(_) => Step::AwaitWorker(self),
        }
    }

    /// Selects again, and goes on waiting where no worker is available.
    pub fn retry(self, state: &mut AppState, now: u128, closed: &Vec<u64>) -> (step: Step)
        requires
            old(state).wf(),
        ensures
            final(state).wf(),
            exists|uid: Seq<char>| #[trigger]
                is_random_uuid(uid) && retries(
                    old(state)@,
                    self.scrape@,
                    self.until,
                    uid,
                    now,
                    links(closed@),
                    (final(state)@, step@),
                ),
    {
        let uid = random_uuid();
        self.retry_with(state, uid, now, closed)
    }

    /// No worker appeared in time.
    pub fn expired(self, state: &mut AppState) -> (step: Step)
        requires
            old(state).wf(),
        ensures
            final(state).wf(),
            (final(state)@, step@) == not_replaced_in_time(old(state)@),
    {
        state.discharge();
        Step::Finished(Err(ScrapeOutcome::WorkerLost))
    }
}

impl ReadyBroadcast {
    /// The candidates were asked; `delivered` says of each, in their order, whether the question
    /// was sent. Where none was, all of them count as lost.
    pub fn sent(
        self,
        state: &mut AppState,
        delivered: &Vec<bool>,
        now: u128,
        closed: &Vec<u64>,
    ) -> (step: Step)
        requires
            old(state).wf(),
        ensures
            final(state).wf(),
            broadcast_done(
                old(state)@,
                self.scrape@,
                self.uid@,
                candidates(self.candidates@),
                delivered@,
                now,
                links(closed@),
                (final(state)@, step@),
            ),
    {
        let ghost asked = candidates(self.candidates@);
        let mut any = false;
        let count: usize = self.candidates.len();
        for i in 0..count
            invariant
                state.wf(),
                count == self.candidates@.len(),
                asked == candidates(self.candidates@),
                state@ == asked_state(old(state)@, self.uid@, asked, delivered@, i as int),
                state@.limits == old(state)@.limits,
                any == exists|j: int| 0 <= j < i && #[trigger] was_delivered(delivered@, j),
        {
            if i < delivered.len() && delivered[i] {
                assert(was_delivered(delivered@, i as int));
                any = true;
            } else {
                state.remove_ready_candidate(
                    self.uid.as_str(),
                    &self.candidates[i].identity,
                );
                assert(asked[i as int].identity == self.candidates@[i as int].identity@);
                assert(!was_delivered(delivered@, i as int));
            }
        }
        if !any {
            let lost = identities_of(&self.candidates);
            return self.scrape.go_on(state, None, self.uid.as_str(), &lost, now, closed);
        }
        let limits = state.limits();
        let wait = bounded(limits.ready_timeout, self.scrape.deadline, now);
        Step::AwaitReady(
            ReadyWait { scrape: self.scrape, uid: self.uid, candidates: self.candidates, wait },
        )
    }
}

impl ReadyWait {
    /// A candidate was selected: opens the request to it.
    pub fn selected(self, state: &mut AppState, worker: ReservedWorker) -> (step: Step)
        requires
            old(state).wf(),
        ensures
            final(state).wf(),
            (final(state)@, step@) == taken(old(state)@, self.scrape@, self.uid@, worker@),
    {
        state.insert_response(self.uid.clone(), worker.identity.clone());
        Step::SendRequest(RequestSend { scrape: self.scrape, uid: self.uid, worker })
    }

    /// Every candidate disconnected before one was selected.
    pub fn dropped(self, state: &mut AppState, now: u128, closed: &Vec<u64>) -> (step: Step)
        requires
            old(state).wf(),
        ensures
            final(state).wf(),
            candidates_lost(
                old(state)@,
                self.scrape@,
                self.uid@,
                candidates(self.candidates@),
                now,
                links(closed@),
                (final(state)@, step@),
            ),
    {
        let lost = identities_of(&self.candidates);
        self.scrape.go_on(state, None, self.uid.as_str(), &lost, now, closed)
    }

    /// No candidate was selected in time. A candidate that was selected too late is given back.
    pub fn timed_out(self, state: &mut AppState, late: Option<ReservedWorker>) -> (step: Step)
        requires
            old(state).wf(),
        ensures
            final(state).wf(),
            (final(state)@, step@) == not_ready_in_time(
                old(state)@,
                self.uid@,
                optional_reserved(late),
            ),
    {
        state.return_worker(late);
        state.finish_request(None, self.uid.as_str());
        state.discharge();
        Step::Finished(Err(ScrapeOutcome::ReadyTimeout))
    }
}

/// A list that holds one registration.
fn only(identity: &WorkerIdentity) -> (list: Vec<WorkerIdentity>)
    ensures
        identities(list@) == set![identity@],
{
    let mut list: Vec<WorkerIdentity> = Vec::new();
    list.push(identity.clone());
    proof {
        assert(list@[0]@ == identity@);
        assert(identities(list@) =~= set![identity@]);
    }
    list
}

impl RequestSend {
    /// The request was sent, or could not be.
    pub fn sent(
        self,
        state: &mut AppState,
        delivered: bool,
        now: u128,
        closed: &Vec<u64>,
    ) -> (step: Step)
        requires
            old(state).wf(),
        ensures
            final(state).wf(),
            request_done(
                old(state)@,
                self.scrape@,
                self.uid@,
                self.worker@.identity,
                delivered,
                now,
                links(closed@),
                (final(state)@, step@),
            ),
    {
        if !delivered {
            let lost = only(&self.worker.identity);
            return self.scrape.go_on(
                state,
                Some(&self.worker.identity),
                self.uid.as_str(),
                &lost,
                now,
                closed,
            );
        }
        let limits = state.limits();
        let wait = bounded(limits.response_timeout, self.scrape.deadline, now);
        Step::AwaitResponse(
            ResponseWait {
                scrape: self.scrape,
                uid: self.uid,
                worker: self.worker.identity,
                wait,
            },
        )
    }
}

impl ResponseWait {
    /// The worker answered.
    pub fn responded(self, state: &mut AppState, response: ProxyResponse) -> (step: Step)
        requires
            old(state).wf(),
        ensures
            final(state).wf(),
            (final(state)@, step@) == answered_in_time(
                old(state)@,
                self.uid@,
                self.worker@,
                response@,
            ),
    {
        state.finish_request(Some(&self.worker), self.uid.as_str());
        state.discharge();
        Step::Finished(Ok(response))
    }

    /// The worker disconnected or was replaced while the request was open.
    pub fn dropped(self, state: &mut AppState, now: u128, closed: &Vec<u64>) -> (step: Step)
        requires
            old(state).wf(),
        ensures
            final(state).wf(),
            worker_lost(
                old(state)@,
                self.scrape@,
                self.uid@,
                self.worker@,
                now,
                links(closed@),
                (final(state)@, step@),
            ),
    {
        let lost = only(&self.worker);
        self.scrape.go_on(state, Some(&self.worker), self.uid.as_str(), &lost, now, closed)
    }

    /// The worker did not answer in time.
    pub fn timed_out(self, state: &mut AppState) -> (step: Step)
        requires
            old(state).wf(),
        ensures
            final(state).wf(),
            (final(state)@, step@) == not_answered_in_time(
                old(state)@,
                self.uid@,
                self.worker@,
            ),
    {
        state.finish_request(Some(&self.worker), self.uid.as_str());
        state.discharge();
        Step::Finished(Err(ScrapeOutcome::ResponseTimeout))
    }
}

impl Step {
    /// Nobody waits for the scrape any more: closes its request, releases its worker and gives
    /// its capacity back. A candidate that was selected for it and not used is given back too.
    pub fn abandon(self, state: &mut AppState, late: Option<ReservedWorker>)
        requires
            old(state).wf(),
        ensures
            final(state).wf(),
            final(state)@ == abandoned(
                old(state)@.returned(optional_reserved(late)),
                self@,
            ),
    {
        state.return_worker(late);
        match self {
            Step::AwaitWorker(_) => {
                state.discharge();
            },
            Step::SendReady(it) => {
                state.finish_request(None, it.uid.as_str());
                state.discharge();
            },
            Step::AwaitReady(it) => {
                state.finish_request(None, it.uid.as_str());
                state.discharge();
            },
            Step::SendRequest(it) => {
                state.finish_request(Some(&it.worker.identity), it.uid.as_str());
                state.discharge();
            },
            Step::AwaitResponse(it) => {
                state.finish_request(Some(&it.worker), it.uid.as_str());
                state.discharge();
            },
            Step::Finished(_) => {},
        }
    }
}

/// Begins a scrape that is to be over by `deadline`.
///
/// It is refused without taking capacity where the instance is unknown or where too many scrapes
/// are in flight.
pub fn proxy_scrape(
    state: &mut AppState,
    instance: &str,
    resource: String,
    deadline: Option<u128>,
    now: u128,
    closed: &Vec<u64>,
) -> (step: Step)
    requires
        old(state).wf(),
    ensures
        final(state).wf(),
        starts(
            old(state)@,
            ScrapeView::fresh(instance@, resource@, deadline),
            now,
            links(closed@),
            (final(state)@, step@),
        ),
{
    match state.accept_scrape(instance) {
        Some(outcome) => Step::Finished(Err(outcome)),
        None => {
            let scrape = Scrape {
                instance: instance.to_owned(),
                resource,
                deadline,
                excluded: Vec::new(),
                lost_worker: false,
                attempt: 1,
            };
            assert(identities(scrape.excluded@) =~= Set::empty());
            scrape.begin(state, now, closed)
        },
    }
}

/// Begins the scrape of `resource` on `instance`. `timeout` is what the request announced as its
/// timeout; without one the scrape may take as long as one attempt may take at worst.
pub fn call_resource_handler(
    state: &mut AppState,
    instance: &str,
    resource: String,
    timeout: Option<u128>,
    now: u128,
    closed: &Vec<u64>,
) -> (step: Step)
    requires
        old(state).wf(),
        announced_deadline(timeout, now) is None ==> old(state)@.limits.ready_timeout + old(
            state,
        )@.limits.response_timeout <= MAX_DURATION,
    ensures
        final(state).wf(),
        starts(
            old(state)@,
            ScrapeView::fresh(
                instance@,
                resource@,
                deadline_of(timeout, now, old(state)@.limits),
            ),
            now,
            links(closed@),
            (final(state)@, step@),
        ),
{
    let limits = state.limits();
    let deadline = request_deadline(timeout, now, &limits);
    proxy_scrape(state, instance, resource, deadline, now, closed)
}

/// Counts the outcome of a scrape and gives the answer to it.
pub fn scrape_reply(state: &mut AppState, result: Result<ProxyResponse, ScrapeOutcome>) -> (reply:
    HttpReply)
    requires
        old(state).wf(),
    ensures
        final(state).wf(),
        final(state)@ == old(state)@.concluded(outcome_of(result_view(result))),
        (reply.status, reply.body@) == reply_of(result_view(result)),
{
    let outcome = match &result {
        Ok(_) => ScrapeOutcome::Proxied,
        Err(outcome) => *outcome,
    };
    state.scrape_finished(outcome);
    match result {
        Ok(response) => HttpReply { status: response.status, body: response.body },
        Err(ScrapeOutcome::UnknownInstance) => HttpReply {
            status: 404,
            body: "no such client".to_owned(),
        },
        Err(ScrapeOutcome::ResponseTimeout) => HttpReply { status: 501, body: String::new() },
        Err(_) => HttpReply { status: 503, body: String::new() },
    }
}

} // verus!

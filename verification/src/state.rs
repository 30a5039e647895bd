//! The state of the server: registered workers, open requests and admitted scrapes.

use crate::assoc::{
    keys_distinct, lemma_count, lemma_entry, lemma_place, lemma_push, lemma_remove, lemma_tally,
    lemma_update, tally, to_map,
};
use crate::limits::{millis, Limits, MAX_READY_CANDIDATES};
use crate::metrics::{
    metrics_are_complete, version_index, CloseReason, Metrics, ScrapeOutcome, Snapshot,
};
use crate::model::{
    counted_under, pending_without, CandidateView, Conditions, IdentityView, PendingView,
    ReserveError, ReservedView, SelectionView, StateView, WorkerKey, WorkerView,
};
use crate::outside::{is_random_uuid, random_uuid};
use crate::text::same_text;
use vstd::prelude::*;

verus! {

/// One registration of a worker: the generation tells it from earlier ones of the same name.
#[derive(Debug)]
pub struct WorkerIdentity {
    pub instance: String,
    pub name: String,
    pub generation: u64,
}

impl View for WorkerIdentity {
    type V = IdentityView;

    open spec fn view(&self) -> IdentityView {
        IdentityView {
            instance: self.instance@,
            name: self.name@,
            generation: self.generation,
        }
    }
}

impl Clone for WorkerIdentity {
    fn clone(&self) -> (copy: Self)
        ensures
            copy@ == self@,
    {
        WorkerIdentity {
            instance: self.instance.clone(),
            name: self.name.clone(),
            generation: self.generation,
        }
    }
}

impl WorkerIdentity {
    /// Tells whether two values stand for the same registration.
    pub fn same(&self, other: &WorkerIdentity) -> (same: bool)
        ensures
            same == (self@ == other@),
    {
        let same = self.generation == other.generation && self.name == other.name && self.instance
            == other.instance;
        assert(same ==> self@ =~= other@);
        same
    }
}

/// The registrations that a list holds.
pub open spec fn identities(list: Seq<WorkerIdentity>) -> Set<IdentityView> {
    Set::new(|id: IdentityView| exists|i: int| 0 <= i < list.len() && #[trigger] list[i]@ == id)
}

/// The connections that a list holds.
pub open spec fn links(list: Seq<u64>) -> Set<u64> {
    list.to_set()
}

/// Takes a registration out of a list and tells whether it was there.
fn remove_identity(list: &mut Vec<WorkerIdentity>, id: &WorkerIdentity) -> (found: bool)
    ensures
        identities(final(list)@) == identities(old(list)@).remove(id@),
        found == identities(old(list)@).contains(id@),
        final(list)@.len() == 0 <==> forall|other: IdentityView| #[trigger]
            identities(old(list)@).contains(other) ==> other == id@,
{
    let ghost all = identities(list@);
    let mut found = false;
    let mut i: usize = 0;
    while i < list.len()
        invariant
            i <= list@.len(),
            all == identities(old(list)@),
            forall|j: int| 0 <= j < i ==> (#[trigger] list@[j])@ != id@,
            identities(list@).remove(id@) == all.remove(id@),
            found ==> all.contains(id@),
            !found ==> identities(list@) == all,
        decreases list@.len() - i,
    {
        if list[i].same(id) {
            let ghost before = list@;
            assert(identities(before).contains(before[i as int]@));
            list.remove(i);
            found = true;
            assert forall|other: IdentityView| other != id@ implies identities(list@).contains(
                other,
            ) == identities(before).contains(other) by {
                if identities(list@).contains(other) {
                    let j = choose|j: int| 0 <= j < list@.len() && #[trigger] list@[j]@ == other;
                    let k = if j < i { j } else { j + 1 };
                    assert(before[k]@ == other);
                }
                if identities(before).contains(other) {
                    let j = choose|j: int| 0 <= j < before.len() && #[trigger] before[j]@ == other;
                    let k = if j < i { j } else { j - 1 };
                    assert(list@[k]@ == other);
                }
            }
            assert(identities(list@).remove(id@) =~= identities(before).remove(id@));
        } else {
            i += 1;
        }
    }
    assert(!identities(list@).contains(id@));
    assert(identities(list@) =~= all.remove(id@));
    proof {
        if list@.len() > 0 {
            assert(identities(list@).contains(list@[0]@));
        }
    }
    found
}

/// Tells whether a list holds a registration.
fn holds_identity(list: &Vec<WorkerIdentity>, id: &WorkerIdentity) -> (found: bool)
    ensures
        found == identities(list@).contains(id@),
{
    for i in 0..list.len()
        invariant
            forall|j: int| 0 <= j < i ==> (#[trigger] list@[j])@ != id@,
    {
        if list[i].same(id) {
            return true;
        }
    }
    false
}

/// Tells whether a list holds a connection.
fn holds_link(list: &Vec<u64>, link: u64) -> (found: bool)
    ensures
        found == links(list@).contains(link),
{
    for i in 0..list.len()
        invariant
            forall|j: int| 0 <= j < i ==> list@[j] != link,
    {
        if list[i] == link {
            return true;
        }
    }
    false
}

/// A registered worker.
pub struct Worker {
    identity: WorkerIdentity,
    version: u16,
    link: u64,
    busy: bool,
    last_seen: u64,
}

impl Worker {
    pub closed spec fn entry(self) -> (WorkerKey, WorkerView) {
        (
            self.identity@.key(),
            WorkerView {
                generation: self.identity.generation,
                version: self.version,
                link: self.link,
                busy: self.busy,
                last_seen: self.last_seen,
            },
        )
    }
}

/// What an open request waits for.
pub enum PendingPhase {
    Ready { allowed: Vec<WorkerIdentity> },
    Response { worker: WorkerIdentity },
}

impl View for PendingPhase {
    type V = PendingView;

    open spec fn view(&self) -> PendingView {
        match self {
            PendingPhase::Ready { allowed } => PendingView::Ready {
                allowed: identities(allowed@),
            },
            PendingPhase::Response { worker } => PendingView::Response { worker: worker@ },
        }
    }
}

/// An open request.
pub struct Pending {
    uid: String,
    phase: PendingPhase,
}

impl Pending {
    pub closed spec fn entry(self) -> (Seq<char>, PendingView) {
        (self.uid@, self.phase@)
    }
}

/// A worker that was taken for one scrape.
#[derive(Debug)]
pub struct ReservedWorker {
    pub identity: WorkerIdentity,
    pub version: u16,
    pub link: u64,
}

impl View for ReservedWorker {
    type V = ReservedView;

    open spec fn view(&self) -> ReservedView {
        ReservedView { identity: self.identity@, version: self.version, link: self.link }
    }
}

/// A worker that is asked whether it is ready.
#[derive(Debug)]
pub struct ReadyCandidate {
    pub identity: WorkerIdentity,
    pub link: u64,
}

impl View for ReadyCandidate {
    type V = CandidateView;

    open spec fn view(&self) -> CandidateView {
        CandidateView { identity: self.identity@, link: self.link }
    }
}

/// The workers of a list of candidates, as they are asked.
pub open spec fn candidates(list: Seq<ReadyCandidate>) -> Seq<CandidateView> {
    list.map_values(|candidate: ReadyCandidate| candidate@)
}

/// The workers that a selection found.
pub enum DispatchSelection {
    Legacy(ReservedWorker),
    Ready(Vec<ReadyCandidate>),
}

impl View for DispatchSelection {
    type V = SelectionView;

    open spec fn view(&self) -> SelectionView {
        match self {
            DispatchSelection::Legacy(worker) => SelectionView::Legacy(worker@),
            DispatchSelection::Ready(list) => SelectionView::Ready(candidates(list@)),
        }
    }
}

/// A selection or its failure, as the model sees it.
pub open spec fn selection_view(
    selection: Result<DispatchSelection, ReserveError>,
) -> Result<SelectionView, ReserveError> {
    match selection {
        Ok(found) => Ok(found@),
        Err(error) => Err(error),
    }
}

/// What an exporter returned.
#[derive(Debug)]
pub struct ProxyResponse {
    pub status: u16,
    pub body: String,
}

/// A worker that asked for the name `requested` gave no name of its own.
pub open spec fn is_anonymous(requested: Seq<char>) -> bool {
    requested.len() == 0 || requested == "unknown"@
}

/// `name` is a name under which a worker that asked for `requested` may register: a worker that
/// gave no name of its own is named by a random identifier.
pub open spec fn may_be_named(requested: Seq<char>, name: Seq<char>) -> bool {
    if is_anonymous(requested) {
        is_random_uuid(name)
    } else {
        name == requested
    }
}

/// Chooses the name of a worker.
pub fn worker_name(requested: String) -> (name: String)
    ensures
        may_be_named(requested@, name@),
{
    if requested.as_str().is_empty() || same_text(requested.as_str(), "unknown") {
        random_uuid()
    } else {
        requested
    }
}

/// The state of the server.
pub struct AppState {
    workers: Vec<Worker>,
    pending: Vec<Pending>,
    in_flight: usize,
    generation: u64,
    next_link: u64,
    limits: Limits,
    metrics: Metrics,
}

/// The workers with their keys.
spec fn worker_entries(workers: Seq<Worker>) -> Seq<(WorkerKey, WorkerView)> {
    workers.map_values(|worker: Worker| worker.entry())
}

/// The open requests with their identifiers.
spec fn pending_entries(pending: Seq<Pending>) -> Seq<(Seq<char>, PendingView)> {
    pending.map_values(|request: Pending| request.entry())
}

impl View for AppState {
    type V = StateView;

    closed spec fn view(&self) -> StateView {
        StateView {
            workers: to_map(worker_entries(self.workers@)),
            pending: to_map(pending_entries(self.pending@)),
            in_flight: self.in_flight as nat,
            generation: self.generation,
            next_link: self.next_link,
            limits: self.limits,
            metrics: self.metrics@,
        }
    }
}

impl Default for AppState {
    fn default() -> (state: Self)
        ensures
            state.wf(),
            state@ == StateView::fresh(Limits::standard()),
    {
        AppState::new()
    }
}

impl AppState {
    /// No worker and no request is listed twice, and no more scrapes are admitted than the
    /// limit allows.
    pub closed spec fn wf(&self) -> bool {
        &&& keys_distinct(worker_entries(self.workers@))
        &&& keys_distinct(pending_entries(self.pending@))
        &&& self.in_flight <= self.limits.max_in_flight
    }

    /// A server with the standard limits.
    pub fn new() -> (state: AppState)
        ensures
            state.wf(),
            state@ == StateView::fresh(Limits::standard()),
    {
        AppState::with_limits(Limits::default())
    }

    /// A server without workers and requests.
    pub fn with_limits(limits: Limits) -> (state: AppState)
        ensures
            state.wf(),
            state@ == StateView::fresh(limits),
    {
        let state = AppState {
            workers: Vec::new(),
            pending: Vec::new(),
            in_flight: 0,
            generation: 1,
            next_link: 0,
            limits,
            metrics: Metrics::default(),
        };
        assert(state@.workers =~= Map::<WorkerKey, WorkerView>::empty());
        assert(state@.pending =~= Map::<Seq<char>, PendingView>::empty());
        state
    }

    /// Where a worker is listed.
    fn find_worker(&self, instance: &str, name: &str) -> (place: Option<usize>)
        requires
            self.wf(),
        ensures
            match place {
                Some(i) => {
                    &&& i < self.workers@.len()
                    &&& self.workers@[i as int].identity@.key() == (instance@, name@)
                    &&& self@.workers.contains_key((instance@, name@))
                    &&& self@.workers[(instance@, name@)] == self.workers@[i as int].entry().1
                },
                None => !self@.workers.contains_key((instance@, name@)),
            },
    {
        for i in 0..self.workers.len()
            invariant
                self.wf(),
                forall|j: int|
                    0 <= j < i ==> (#[trigger] self.workers@[j]).identity@.key() != (
                        instance@,
                        name@,
                    ),
        {
            if same_text(self.workers[i].identity.name.as_str(), name) && same_text(
                self.workers[i].identity.instance.as_str(),
                instance,
            ) {
                proof {
                    lemma_entry(worker_entries(self.workers@), i as int);
                }
                return Some(i);
            }
        }
        proof {
            if self@.workers.contains_key((instance@, name@)) {
                let j = lemma_place(worker_entries(self.workers@), (instance@, name@));
                assert(self.workers@[j].identity@.key() == (instance@, name@));
            }
        }
        None
    }

    /// Where an open request is listed.
    fn find_pending(&self, uid: &str) -> (place: Option<usize>)
        requires
            self.wf(),
        ensures
            match place {
                Some(i) => {
                    &&& i < self.pending@.len()
                    &&& self.pending@[i as int].uid@ == uid@
                    &&& self@.pending.contains_key(uid@)
                    &&& self@.pending[uid@] == self.pending@[i as int].phase@
                },
                None => !self@.pending.contains_key(uid@),
            },
    {
        for i in 0..self.pending.len()
            invariant
                self.wf(),
                forall|j: int| 0 <= j < i ==> (#[trigger] self.pending@[j]).uid@ != uid@,
        {
            if same_text(self.pending[i].uid.as_str(), uid) {
                proof {
                    lemma_entry(pending_entries(self.pending@), i as int);
                }
                return Some(i);
            }
        }
        proof {
            if self@.pending.contains_key(uid@) {
                let j = lemma_place(pending_entries(self.pending@), uid@);
                assert(self.pending@[j].uid@ == uid@);
            }
        }
        None
    }

    /// Where the worker of a current registration is listed.
    fn find_current(&self, id: &WorkerIdentity) -> (place: Option<usize>)
        requires
            self.wf(),
        ensures
            match place {
                Some(i) => {
                    &&& i < self.workers@.len()
                    &&& self@.holds(id@)
                    &&& self.workers@[i as int].identity@ == id@
                    &&& self@.workers[id@.key()] == self.workers@[i as int].entry().1
                },
                None => !self@.holds(id@),
            },
    {
        match self.find_worker(id.instance.as_str(), id.name.as_str()) {
            Some(i) => {
                if self.workers[i].identity.generation == id.generation {
                    assert(self.workers@[i as int].identity@ =~= id@);
                    Some(i)
                } else {
                    None
                }
            },
            None => None,
        }
    }

    /// Marks the worker at a place as busy or idle.
    fn set_busy(&mut self, at: usize, busy: bool)
        requires
            old(self).wf(),
            at < old(self).workers@.len(),
        ensures
            final(self).wf(),
            final(self)@ == old(self)@.with_busy(old(self).workers@[at as int].identity@, busy),
            final(self).pending@ == old(self).pending@,
    {
        let ghost entries = worker_entries(self.workers@);
        self.workers[at].busy = busy;
        proof {
            let value = WorkerView { busy, ..entries[at as int].1 };
            assert(worker_entries(self.workers@) =~= entries.update(
                at as int,
                (entries[at as int].0, value),
            ));
            lemma_entry(entries, at as int);
            lemma_update(entries, at as int, value);
        }
    }

    /// Puts a request under its identifier.
    fn put_pending(&mut self, uid: String, phase: PendingPhase)
        requires
            old(self).wf(),
        ensures
            final(self).wf(),
            final(self)@ == (StateView {
                pending: old(self)@.pending.insert(uid@, phase@),
                ..old(self)@
            }),
    {
        let ghost entries = pending_entries(self.pending@);
        match self.find_pending(uid.as_str()) {
            Some(i) => {
                self.pending[i].phase = phase;
                proof {
                    assert(pending_entries(self.pending@) =~= entries.update(
                        i as int,
                        (entries[i as int].0, phase@),
                    ));
                    lemma_update(entries, i as int, phase@);
                }
            },
            None => {
                let request = Pending { uid, phase };
                self.pending.push(request);
                proof {
                    assert(pending_entries(self.pending@) =~= entries.push(request.entry()));
                    lemma_push(entries, request.entry());
                }
            },
        }
    }

    /// Takes out the request at a place.
    fn take_pending(&mut self, at: usize)
        requires
            old(self).wf(),
            at < old(self).pending@.len(),
        ensures
            final(self).wf(),
            final(self)@ == (StateView {
                pending: old(self)@.pending.remove(old(self).pending@[at as int].uid@),
                ..old(self)@
            }),
            final(self).workers@ == old(self).workers@,
            final(self).pending@ == old(self).pending@.remove(at as int),
    {
        let ghost entries = pending_entries(self.pending@);
        self.pending.remove(at);
        proof {
            assert(pending_entries(self.pending@) =~= entries.remove(at as int));
            lemma_remove(entries, at as int);
        }
    }

    /// Drops a worker from every open request. A request that no other worker can answer is
    /// dropped.
    pub fn remove_pending_for(&mut self, id: &WorkerIdentity)
        requires
            old(self).wf(),
        ensures
            final(self).wf(),
            final(self)@ == old(self)@.forgotten(id@),
    {
        let ghost all = self@.pending;
        let mut i: usize = 0;
        proof {
            assert forall|j: int| 0 <= j < self.pending@.len() implies {
                let entry = (#[trigger] self.pending@[j]).entry();
                all.contains_key(entry.0) && all[entry.0] == entry.1
            } by {
                lemma_entry(pending_entries(self.pending@), j);
            }
        }
        while i < self.pending.len()
            invariant
                self.wf(),
                i <= self.pending@.len(),
                self@ == (StateView { pending: self@.pending, ..old(self)@ }),
                all == old(self)@.pending,
                forall|j: int|
                    0 <= j < i ==> {
                        let entry = (#[trigger] self.pending@[j]).entry();
                        &&& all.contains_key(entry.0)
                        &&& all[entry.0].survives(id@)
                        &&& entry.1 == all[entry.0].without(id@)
                    },
                forall|j: int|
                    i <= j < self.pending@.len() ==> {
                        let entry = (#[trigger] self.pending@[j]).entry();
                        all.contains_key(entry.0) && all[entry.0] == entry.1
                    },
                forall|uid: Seq<char>| #[trigger]
                    all.contains_key(uid) && all[uid].survives(id@) ==> self@.pending.contains_key(
                        uid,
                    ),
            decreases self.pending@.len() - i,
        {
            let ghost before = self.pending@;
            let ghost entry = before[i as int].entry();
            let kept = match &mut self.pending[i].phase {
                PendingPhase::Ready { allowed } => {
                    remove_identity(allowed, id);
                    allowed.len() > 0
                },
                PendingPhase::Response { worker } => !worker.same(id),
            };
            assert(kept == entry.1.survives(id@));
            assert(self.pending@[i as int].entry() == (entry.0, entry.1.without(id@)));
            proof {
                let entries = pending_entries(before);
                assert(pending_entries(self.pending@) =~= entries.update(
                    i as int,
                    (entries[i as int].0, entry.1.without(id@)),
                ));
                lemma_entry(entries, i as int);
                lemma_update(entries, i as int, entry.1.without(id@));
            }
            if kept {
                i += 1;
            } else {
                let ghost trimmed = self.pending@;
                self.take_pending(i);
                assert(self.pending@ =~= trimmed.remove(i as int));
            }
        }
        assert forall|uid: Seq<char>| #[trigger]
            self@.pending.contains_key(uid) implies pending_without(all, id@).contains_key(uid)
            && self@.pending[uid] == pending_without(all, id@)[uid] by {
            let j = lemma_place(pending_entries(self.pending@), uid);
            assert(self.pending@[j].entry().0 == uid);
        }
        assert(self@.pending =~= pending_without(all, id@));
    }

    /// Registers a worker under a name of its own choice, or under a random one where it chose
    /// none. A connection that registered the same name before is evicted: its number is
    /// returned beside the new registration.
    pub fn register_worker(
        &mut self,
        instance: String,
        requested_name: String,
        version: u16,
        link: u64,
        last_seen: u64,
    ) -> (registered: (WorkerIdentity, Option<u64>))
        requires
            old(self).wf(),
        ensures
            final(self).wf(),
            may_be_named(requested_name@, registered.0.name@),
            registered.0@ == old(self)@.next_identity(instance@, registered.0.name@),
            registered.1 == old(self)@.evicted(instance@, registered.0.name@),
            final(self)@ == old(self)@.registered(
                instance@,
                registered.0.name@,
                version,
                link,
                last_seen,
            ),
    {
        self.register_named(instance, worker_name(requested_name), version, link, last_seen)
    }

    /// Registers a worker under `name`.
    pub fn register_named(
        &mut self,
        instance: String,
        name: String,
        version: u16,
        link: u64,
        last_seen: u64,
    ) -> (registered: (WorkerIdentity, Option<u64>))
        requires
            old(self).wf(),
        ensures
            final(self).wf(),
            registered.0@ == old(self)@.next_identity(instance@, name@),
            registered.1 == old(self)@.evicted(instance@, name@),
            final(self)@ == old(self)@.registered(instance@, name@, version, link, last_seen),
    {
        let identity = WorkerIdentity { instance, name, generation: self.generation };
        self.generation = self.generation.wrapping_add(1);
        let worker = Worker {
            identity: identity.clone(),
            version,
            link,
            busy: false,
            last_seen,
        };
        let ghost entries = worker_entries(self.workers@);
        let mut evicted: Option<u64> = None;
        match self.find_worker(identity.instance.as_str(), identity.name.as_str()) {
            Some(i) => {
                let replaced = self.workers[i].identity.clone();
                evicted = Some(self.workers[i].link);
                self.workers[i] = worker;
                proof {
                    assert(worker_entries(self.workers@) =~= entries.update(
                        i as int,
                        (entries[i as int].0, worker.entry().1),
                    ));
                    lemma_entry(entries, i as int);
                    lemma_update(entries, i as int, worker.entry().1);
                    assert(replaced@ == old(self)@.identity_of(identity@.key()));
                }
                self.remove_pending_for(&replaced);
            },
            None => {
                self.workers.push(worker);
                proof {
                    assert(worker_entries(self.workers@) =~= entries.push(worker.entry()));
                    lemma_push(entries, worker.entry());
                }
            },
        }
        self.metrics.worker_registered(version);
        (identity, evicted)
    }

    /// Ends a registration and tells whether it was current. The requests that only this worker
    /// could answer are dropped with it.
    pub fn unregister_worker(&mut self, id: &WorkerIdentity) -> (removed: bool)
        requires
            old(self).wf(),
        ensures
            final(self).wf(),
            removed == old(self)@.holds(id@),
            final(self)@ == old(self)@.unregistered(id@),
    {
        match self.find_current(id) {
            Some(i) => {
                let ghost entries = worker_entries(self.workers@);
                self.workers.remove(i);
                proof {
                    assert(worker_entries(self.workers@) =~= entries.remove(i as int));
                    lemma_remove(entries, i as int);
                }
                self.remove_pending_for(id);
                true
            },
            None => false,
        }
    }

    /// Notes that a frame arrived on a connection.
    pub fn touch(&mut self, link: u64, now: u64)
        requires
            old(self).wf(),
        ensures
            final(self).wf(),
            final(self)@ == old(self)@.touched(link, now),
    {
        let ghost all = self@.workers;
        let ghost before = self.workers@;
        let count: usize = self.workers.len();
        for i in 0..count
            invariant
                self.wf(),
                count == self.workers@.len() == before.len(),
                keys_distinct(worker_entries(before)),
                all == to_map(worker_entries(before)),
                self@ == (StateView { workers: self@.workers, ..old(self)@ }),
                forall|j: int|
                    0 <= j < i ==> (#[trigger] self.workers@[j]).entry() == touched_entry(
                        before[j].entry(),
                        link,
                        now,
                    ),
                forall|j: int| i <= j < before.len() ==> #[trigger] self.workers@[j] == before[j],
        {
            if self.workers[i].link == link {
                let ghost entries = worker_entries(self.workers@);
                self.workers[i].last_seen = now;
                proof {
                    let value = WorkerView { last_seen: now, ..entries[i as int].1 };
                    assert(worker_entries(self.workers@) =~= entries.update(
                        i as int,
                        (entries[i as int].0, value),
                    ));
                    lemma_update(entries, i as int, value);
                }
            }
        }
        assert forall|key: WorkerKey| #[trigger]
            self@.workers.contains_key(key) == all.contains_key(key) by {
            if self@.workers.contains_key(key) {
                let j = lemma_place(worker_entries(self.workers@), key);
                assert(self.workers@[j].entry().0 == key);
                lemma_entry(worker_entries(before), j);
            }
            if all.contains_key(key) {
                let j = lemma_place(worker_entries(before), key);
                assert(self.workers@[j].entry().0 == key);
                lemma_entry(worker_entries(self.workers@), j);
            }
        }
        assert forall|key: WorkerKey| #[trigger] self@.workers.contains_key(key) implies
            self@.workers[key] == old(self)@.touched(link, now).workers[key] by {
            let j = lemma_place(worker_entries(self.workers@), key);
            assert(self.workers@[j].entry().0 == key);
            lemma_entry(worker_entries(before), j);
        }
        assert(self@.workers =~= old(self)@.touched(link, now).workers);
    }

    /// Tells whether a worker is registered for the instance.
    pub fn instance_exists(&self, instance: &str) -> (known: bool)
        requires
            self.wf(),
        ensures
            known == self@.knows(instance@),
    {
        for i in 0..self.workers.len()
            invariant
                self.wf(),
                forall|j: int|
                    0 <= j < i ==> (#[trigger] self.workers@[j]).identity.instance@ != instance@,
        {
            if same_text(self.workers[i].identity.instance.as_str(), instance) {
                proof {
                    lemma_entry(worker_entries(self.workers@), i as int);
                    assert(self@.workers.contains_key(
                        (instance@, self.workers@[i as int].identity.name@),
                    ));
                }
                return true;
            }
        }
        proof {
            if self@.knows(instance@) {
                let name = choose|name: Seq<char>| #[trigger]
                    self@.workers.contains_key((instance@, name));
                let j = lemma_place(worker_entries(self.workers@), (instance@, name));
                assert(self.workers@[j].identity.instance@ == instance@);
            }
        }
        false
    }

    /// Releases the worker of a registration and tells whether it was current.
    pub fn release_worker(&mut self, id: &WorkerIdentity) -> (released: bool)
        requires
            old(self).wf(),
        ensures
            final(self).wf(),
            released == old(self)@.holds(id@),
            final(self)@ == old(self)@.released(id@),
    {
        match self.find_current(id) {
            Some(i) => {
                self.set_busy(i, false);
                true
            },
            None => false,
        }
    }

    /// Gives back a worker that was taken for a scrape and not used, if there is one.
    pub fn return_worker(&mut self, unused: Option<ReservedWorker>) -> (released: bool)
        requires
            old(self).wf(),
        ensures
            final(self).wf(),
            final(self)@ == old(self)@.returned(optional_reserved(unused)),
            released == (optional_reserved(unused) matches Some(worker) && old(self)@.holds(
                worker.identity,
            )),
    {
        match unused {
            Some(worker) => self.release_worker(&worker.identity),
            None => false,
        }
    }

    /// Ends an attempt: closes its request and releases its worker, if it has one. Tells whether
    /// a worker became available.
    pub fn finish_request(&mut self, worker: Option<&WorkerIdentity>, uid: &str) -> (released: bool)
        requires
            old(self).wf(),
        ensures
            final(self).wf(),
            released == (worker matches Some(id) && old(self)@.holds(id@)),
            final(self)@ == old(self)@.finished(optional_identity(worker), uid@),
    {
        match self.find_pending(uid) {
            Some(i) => {
                self.take_pending(i);
            },
            None => {
                assert(self@.pending.remove(uid@) =~= self@.pending);
            },
        }
        match worker {
            Some(id) => self.release_worker(id),
            None => false,
        }
    }

    /// Opens a request that waits until one of the allowed workers says that it is ready.
    pub fn insert_ready(&mut self, uid: String, allowed: Vec<WorkerIdentity>)
        requires
            old(self).wf(),
        ensures
            final(self).wf(),
            final(self)@ == old(self)@.awaiting_ready(uid@, identities(allowed@)),
    {
        self.put_pending(uid, PendingPhase::Ready { allowed });
    }

    /// Opens a request that waits for the response of a worker.
    pub fn insert_response(&mut self, uid: String, worker: WorkerIdentity)
        requires
            old(self).wf(),
        ensures
            final(self).wf(),
            final(self)@ == old(self)@.awaiting_response(uid@, worker@),
    {
        self.put_pending(uid, PendingPhase::Response { worker });
    }

    /// The key of the worker at a place.
    spec fn key_of(&self, at: int) -> WorkerKey {
        self.workers@[at].identity@.key()
    }

    /// Tells whether the worker at a place may serve a scrape.
    fn is_usable(
        &self,
        at: usize,
        instance: &str,
        excluded: &Vec<WorkerIdentity>,
        now: u64,
        closed: &Vec<u64>,
    ) -> (usable: bool)
        requires
            self.wf(),
            at < self.workers@.len(),
        ensures
            usable == self@.usable(
                self.key_of(at as int),
                conditions(instance@, excluded@, now, closed@),
            ),
    {
        proof {
            lemma_entry(worker_entries(self.workers@), at as int);
            assert(self@.identity_of(self.key_of(at as int))
                =~= self.workers@[at as int].identity@);
        }
        let worker = &self.workers[at];
        let silent: u64 = if now >= worker.last_seen {
            now - worker.last_seen
        } else {
            0
        };
        same_text(worker.identity.instance.as_str(), instance) && !worker.busy && !holds_link(
            closed,
            worker.link,
        ) && !holds_identity(excluded, &worker.identity) && silent <= millis(
            self.limits.stale_after,
        )
    }

    /// Selects workers of an instance for a scrape: those that can be asked whether they are
    /// ready, or else one of wire version 1, which is taken at once.
    ///
    /// `now` is the current time in milliseconds, `excluded` lists workers that must not be
    /// selected again, and `closed` the connections that take no more messages.
    pub fn select_workers(
        &mut self,
        instance: &str,
        excluded: &Vec<WorkerIdentity>,
        now: u64,
        closed: &Vec<u64>,
    ) -> (selection: Result<DispatchSelection, ReserveError>)
        requires
            old(self).wf(),
        ensures
            final(self).wf(),
            old(self)@.offers(
                conditions(instance@, excluded@, now, closed@),
                selection_view(selection),
            ),
            final(self)@ == (match selection {
                Ok(found) => old(self)@.selected(found@),
                Err(_) => old(self)@,
            }),
    {
        let ghost terms = conditions(instance@, excluded@, now, closed@);
        let ghost mut origin: Seq<int> = Seq::empty();
        let mut known = false;
        let mut ready: Vec<ReadyCandidate> = Vec::new();
        let mut legacy: Option<usize> = None;
        let count: usize = self.workers.len();
        for i in 0..count
            invariant
                self.wf(),
                *self == *old(self),
                count == self.workers@.len(),
                terms == conditions(instance@, excluded@, now, closed@),
                known == exists|j: int| 0 <= j < i && (#[trigger] self.key_of(j)).0 == instance@,
                ready@.len() == origin.len() <= MAX_READY_CANDIDATES,
                forall|k: int|
                    0 <= k < origin.len() ==> {
                        &&& 0 <= #[trigger] origin[k] < i
                        &&& self@.usable_ready(self.key_of(origin[k]), terms)
                        &&& ready@[k]@ == self@.candidate_of(self.key_of(origin[k]))
                    },
                forall|k: int, l: int| 0 <= k < l < origin.len() ==> origin[k] < origin[l],
                origin.len() < MAX_READY_CANDIDATES ==> forall|j: int|
                    0 <= j < i && self@.usable_ready(#[trigger] self.key_of(j), terms)
                        ==> origin.contains(j),
                match legacy {
                    Some(l) => l < i && self@.usable_legacy(self.key_of(l as int), terms),
                    None => forall|j: int|
                        0 <= j < i ==> !self@.usable_legacy(#[trigger] self.key_of(j), terms),
                },
        {
            proof {
                lemma_entry(worker_entries(self.workers@), i as int);
            }
            let ghost before = origin;
            if same_text(self.workers[i].identity.instance.as_str(), instance) {
                known = true;
                assert(self.key_of(i as int).0 == instance@);
            }
            if self.is_usable(i, instance, excluded, now, closed) {
                if self.workers[i].version >= 2 {
                    if ready.len() < MAX_READY_CANDIDATES {
                        let candidate = ReadyCandidate {
                            identity: self.workers[i].identity.clone(),
                            link: self.workers[i].link,
                        };
                        assert(candidate@ =~= self@.candidate_of(self.key_of(i as int)));
                        ready.push(candidate);
                        proof {
                            origin = origin.push(i as int);
                            assert(origin[before.len() as int] == i);
                            assert forall|j: int| before.contains(j) implies #[trigger]
                                origin.contains(j) by {
                                let k = before.index_of(j);
                                assert(origin[k] == j);
                            }
                        }
                    }
                } else if legacy.is_none() {
                    legacy = Some(i);
                }
            }
        }
        proof {
            self.lemma_scan(terms, origin, ready@, known, legacy);
        }
        if ready.len() > 0 {
            return Ok(DispatchSelection::Ready(ready));
        }
        match legacy {
            Some(l) => {
                let worker = ReservedWorker {
                    identity: self.workers[l].identity.clone(),
                    version: self.workers[l].version,
                    link: self.workers[l].link,
                };
                proof {
                    lemma_entry(worker_entries(self.workers@), l as int);
                    assert(worker@ =~= self@.reserved_of(self.key_of(l as int)));
                }
                self.set_busy(l, true);
                Ok(DispatchSelection::Legacy(worker))
            },
            None => if known {
                Err(ReserveError::Unavailable)
            } else {
                Err(ReserveError::Unknown)
            },
        }
    }

    /// What a scan of all workers finds holds of every registered worker.
    proof fn lemma_scan(
        &self,
        terms: Conditions,
        origin: Seq<int>,
        ready: Seq<ReadyCandidate>,
        known: bool,
        legacy: Option<usize>,
    )
        requires
            self.wf(),
            known == exists|j: int|
                0 <= j < self.workers@.len() && (#[trigger] self.key_of(j)).0 == terms.instance,
            ready.len() == origin.len() <= MAX_READY_CANDIDATES,
            forall|k: int|
                0 <= k < origin.len() ==> {
                    &&& 0 <= #[trigger] origin[k] < self.workers@.len()
                    &&& self@.usable_ready(self.key_of(origin[k]), terms)
                    &&& ready[k]@ == self@.candidate_of(self.key_of(origin[k]))
                },
            forall|k: int, l: int| 0 <= k < l < origin.len() ==> origin[k] < origin[l],
            origin.len() < MAX_READY_CANDIDATES ==> forall|j: int|
                0 <= j < self.workers@.len() && self@.usable_ready(#[trigger] self.key_of(j), terms)
                    ==> origin.contains(j),
            legacy is None ==> forall|j: int|
                0 <= j < self.workers@.len() ==> !self@.usable_legacy(
                    #[trigger] self.key_of(j),
                    terms,
                ),
        ensures
            known == self@.knows(terms.instance),
            self@.any_ready(terms) ==> origin.len() > 0,
            origin.len() > 0 ==> self@.asks(candidates(ready), terms),
            legacy is None ==> !self@.any_legacy(terms),
    {
        let entries = worker_entries(self.workers@);
        if known {
            let j = choose|j: int|
                0 <= j < self.workers@.len() && (#[trigger] self.key_of(j)).0 == terms.instance;
            lemma_entry(entries, j);
            assert(self@.workers.contains_key((terms.instance, self.key_of(j).1)));
        }
        if self@.knows(terms.instance) {
            let name = choose|name: Seq<char>| #[trigger]
                self@.workers.contains_key((terms.instance, name));
            let j = lemma_place(entries, (terms.instance, name));
            assert(self.key_of(j).0 == terms.instance);
        }
        let asked = candidates(ready);
        assert forall|key: WorkerKey| #[trigger]
            self@.usable_ready(key, terms) && origin.len() < MAX_READY_CANDIDATES implies
            origin.len() > 0 && asked.contains(self@.candidate_of(key)) by {
            let j = lemma_place(entries, key);
            assert(self.key_of(j) == key);
            let k = origin.index_of(j);
            assert(origin[k] == j);
            assert(asked[k] == self@.candidate_of(key));
        }
        assert forall|i: int| 0 <= i < asked.len() implies {
            let key = (#[trigger] asked[i]).identity.key();
            self@.usable_ready(key, terms) && asked[i] == self@.candidate_of(key)
        } by {
            assert(0 <= origin[i] < self.workers@.len());
            assert(asked[i] == ready[i]@);
        }
        assert forall|i: int, j: int| 0 <= i < j < asked.len() implies (
        #[trigger] asked[i]).identity != (#[trigger] asked[j]).identity by {
            assert(origin[i] < origin[j]);
            assert(entries[origin[i]].0 != entries[origin[j]].0);
            assert(asked[i] == ready[i]@ && asked[j] == ready[j]@);
        }
        if legacy is None {
            assert forall|key: WorkerKey| !#[trigger] self@.usable_legacy(key, terms) by {
                if self@.workers.contains_key(key) {
                    let j = lemma_place(entries, key);
                    assert(self.key_of(j) == key);
                }
            }
        }
    }

    /// Takes a worker off the list of those that a request waits for. A request that waits for
    /// no other worker is dropped.
    pub fn remove_ready_candidate(&mut self, uid: &str, id: &WorkerIdentity)
        requires
            old(self).wf(),
        ensures
            final(self).wf(),
            final(self)@ == old(self)@.uninvited(uid@, id@),
    {
        if let Some(i) = self.find_pending(uid) {
            self.strike_out(i, id);
        }
    }

    /// Takes a worker off the list of those that the request at a place waits for, and tells
    /// whether it was on it. A request that waits for no other worker is dropped.
    fn strike_out(&mut self, at: usize, id: &WorkerIdentity) -> (found: bool)
        requires
            old(self).wf(),
            at < old(self).pending@.len(),
        ensures
            final(self).wf(),
            found == old(self)@.invited(old(self).pending@[at as int].uid@, id@),
            final(self)@ == old(self)@.uninvited(old(self).pending@[at as int].uid@, id@),
            final(self).workers@ == old(self).workers@,
    {
        let ghost before = self.pending@;
        let ghost entries = pending_entries(before);
        let ghost uid = before[at as int].uid@;
        proof {
            lemma_entry(entries, at as int);
        }
        let mut found = false;
        let dropped = match &mut self.pending[at].phase {
            PendingPhase::Ready { allowed } => {
                found = remove_identity(allowed, id);
                allowed.len() == 0
            },
            PendingPhase::Response { worker: _ } => false,
        };
        proof {
            let value = before[at as int].phase@.without(id@);
            assert(self.pending@[at as int].entry() == (uid, value));
            assert(pending_entries(self.pending@) =~= entries.update(
                at as int,
                (entries[at as int].0, value),
            ));
            lemma_update(entries, at as int, value);
        }
        if dropped {
            self.take_pending(at);
            assert(self@.pending =~= old(self)@.pending.remove(uid));
        } else {
            assert(self@.pending =~= old(self)@.uninvited(uid, id@).pending);
        }
        found
    }

    /// Notes that a worker is ready to serve a request. Where the request still waits for it and
    /// it is idle, the worker is taken and the request gets it; no other worker can get the
    /// request afterwards.
    pub fn mark_ready(&mut self, uid: &str, id: &WorkerIdentity) -> (selected: Option<
        ReservedWorker,
    >)
        requires
            old(self).wf(),
        ensures
            final(self).wf(),
            optional_reserved(selected) == old(self)@.winner(uid@, id@),
            final(self)@ == old(self)@.marked_ready(uid@, id@),
    {
        let at = match self.find_pending(uid) {
            Some(at) => at,
            None => {
                return None;
            },
        };
        let invited = match &self.pending[at].phase {
            PendingPhase::Ready { allowed } => holds_identity(allowed, id),
            PendingPhase::Response { worker: _ } => false,
        };
        if !invited {
            return None;
        }
        let idle = match self.find_current(id) {
            Some(i) => if self.workers[i].busy {
                None
            } else {
                Some(i)
            },
            None => None,
        };
        match idle {
            Some(i) => {
                let reserved = ReservedWorker {
                    identity: self.workers[i].identity.clone(),
                    version: self.workers[i].version,
                    link: self.workers[i].link,
                };
                self.set_busy(i, true);
                self.take_pending(at);
                assert(reserved@ == old(self)@.reserved_of(id@.key()));
                Some(reserved)
            },
            None => {
                self.strike_out(at, id);
                None
            },
        }
    }

    /// Closes the request that a response answers and hands the response on. A response is
    /// accepted once, from the worker that serves the request or, where `worker` is absent, from
    /// whoever knows the identifier of the request.
    pub fn complete_response(
        &mut self,
        uid: &str,
        worker: Option<&WorkerIdentity>,
        response: ProxyResponse,
    ) -> (delivered: Option<ProxyResponse>)
        requires
            old(self).wf(),
        ensures
            final(self).wf(),
            delivered == (if old(self)@.answers(uid@, optional_identity(worker)) {
                Some(response)
            } else {
                None
            }),
            final(self)@ == old(self)@.answered(uid@, optional_identity(worker)),
    {
        let at = match self.find_pending(uid) {
            Some(at) => at,
            None => {
                return None;
            },
        };
        let matching = match &self.pending[at].phase {
            PendingPhase::Response { worker: expected } => match worker {
                Some(id) => expected.same(id),
                None => true,
            },
            PendingPhase::Ready { allowed: _ } => false,
        };
        if matching {
            self.take_pending(at);
            Some(response)
        } else {
            None
        }
    }

    /// Admits a scrape of the instance, or says what it is refused with. An instance without
    /// workers is unknown even when no capacity is left.
    pub fn accept_scrape(&mut self, instance: &str) -> (refusal: Option<ScrapeOutcome>)
        requires
            old(self).wf(),
        ensures
            final(self).wf(),
            refusal == old(self)@.refusal(instance@),
            final(self)@ == (if refusal is None {
                old(self)@.admitted()
            } else {
                old(self)@
            }),
    {
        if !self.instance_exists(instance) {
            return Some(ScrapeOutcome::UnknownInstance);
        }
        if self.in_flight >= self.limits.max_in_flight {
            return Some(ScrapeOutcome::Capacity);
        }
        self.in_flight = self.in_flight + 1;
        None
    }

    /// Gives back the capacity of an admitted scrape.
    pub fn discharge(&mut self)
        requires
            old(self).wf(),
        ensures
            final(self).wf(),
            final(self)@ == old(self)@.discharged(),
    {
        if self.in_flight > 0 {
            self.in_flight = self.in_flight - 1;
        }
    }

    /// Opens a connection and gives its number.
    pub fn open_connection(&mut self) -> (link: u64)
        requires
            old(self).wf(),
        ensures
            final(self).wf(),
            link == old(self)@.next_link,
            final(self)@ == old(self)@.connected(),
    {
        let link: u64 = self.next_link;
        self.next_link = self.next_link.wrapping_add(1);
        self.metrics.connection_opened();
        link
    }

    /// Closes a connection: its registration, if it has one, ends. Tells whether it had one that
    /// was current.
    pub fn close_connection(
        &mut self,
        id: Option<&WorkerIdentity>,
        reason: CloseReason,
    ) -> (removed: bool)
        requires
            old(self).wf(),
        ensures
            final(self).wf(),
            final(self)@ == old(self)@.disconnected(optional_identity(id), reason),
            removed == (id matches Some(worker) && old(self)@.holds(worker@)),
    {
        self.metrics.connection_closed(reason);
        match id {
            Some(worker) => self.unregister_worker(worker),
            None => false,
        }
    }

    /// Counts a scrape that was dispatched again.
    pub fn dispatch_retried(&mut self)
        requires
            old(self).wf(),
        ensures
            final(self).wf(),
            final(self)@ == old(self)@.retried(),
    {
        self.metrics.dispatch_retried();
    }

    /// Counts the outcome of a scrape.
    pub fn scrape_finished(&mut self, outcome: ScrapeOutcome)
        requires
            old(self).wf(),
        ensures
            final(self).wf(),
            final(self)@ == old(self)@.concluded(outcome),
    {
        self.metrics.scrape_finished(outcome);
    }

    /// The gauges of the exposed metrics.
    pub fn metrics_snapshot(&self) -> (snapshot: Snapshot)
        requires
            self.wf(),
        ensures
            self@.shows(snapshot),
    {
        let ghost entries = worker_entries(self.workers@);
        let mut workers_by_version: [u64; 3] = [0, 0, 0];
        let count: usize = self.workers.len();
        for i in 0..count
            invariant
                count == self.workers@.len() == entries.len(),
                entries == worker_entries(self.workers@),
                forall|class: int|
                    0 <= class < 3 ==> #[trigger] workers_by_version@[class] == tally(
                        entries.take(i as int),
                        counted_under(class),
                    ),
                forall|class: int| 0 <= class < 3 ==> #[trigger] workers_by_version@[class] <= i,
        {
            let class: usize = version_index(self.workers[i].version);
            workers_by_version[class] = workers_by_version[class] + 1;
            assert(entries.take(i + 1).drop_last() =~= entries.take(i as int));
        }
        proof {
            assert(entries.take(count as int) =~= entries);
            assert forall|class: int| 0 <= class < 3 implies #[trigger] workers_by_version@[class]
                == self@.class_size(class) by {
                lemma_tally(entries, counted_under(class));
            }
            lemma_count(entries);
            lemma_count(pending_entries(self.pending@));
        }
        Snapshot {
            workers_by_version,
            pending: self.pending.len(),
            in_flight: self.in_flight,
        }
    }

    /// Tells whether a request is open.
    pub fn is_open(&self, uid: &str) -> (open: bool)
        requires
            self.wf(),
        ensures
            open == self@.pending.contains_key(uid@),
    {
        self.find_pending(uid).is_some()
    }

    /// How many workers are registered and how many requests are open.
    pub fn debug_counts(&self) -> (counts: (usize, usize))
        requires
            self.wf(),
        ensures
            self@.finite(),
            counts.0 == self@.workers.dom().len(),
            counts.1 == self@.pending.dom().len(),
    {
        proof {
            lemma_count(worker_entries(self.workers@));
            lemma_count(pending_entries(self.pending@));
        }
        (self.workers.len(), self.pending.len())
    }

    /// The limits that the server runs with.
    pub fn limits(&self) -> (limits: Limits)
        ensures
            limits == self@.limits,
    {
        self.limits
    }

    /// The counters of the server.
    pub fn metrics(&self) -> (metrics: &Metrics)
        ensures
            metrics@ == self@.metrics,
    {
        &self.metrics
    }
}

/// What is known of every well-formed state: its workers and requests are finitely many, it
/// never holds more scrapes than its limit allows, and its counters are complete.
pub proof fn a_state_is_bounded(state: &AppState)
    requires
        state.wf(),
    ensures
        state@.finite(),
        state@.in_flight <= state@.limits.max_in_flight,
        state@.metrics.complete(),
{
    lemma_count(worker_entries(state.workers@));
    lemma_count(pending_entries(state.pending@));
    metrics_are_complete(&state.metrics);
}

/// The entry of a worker after a frame arrived on connection `link`.
spec fn touched_entry(entry: (WorkerKey, WorkerView), link: u64, now: u64) -> (
    WorkerKey,
    WorkerView,
) {
    if entry.1.link == link {
        (entry.0, WorkerView { last_seen: now, ..entry.1 })
    } else {
        entry
    }
}

/// The circumstances of a selection, as the model sees them.
pub open spec fn conditions(
    instance: Seq<char>,
    excluded: Seq<WorkerIdentity>,
    now: u64,
    closed: Seq<u64>,
) -> Conditions {
    Conditions { instance, excluded: identities(excluded), now, closed: links(closed) }
}

/// A registration that may be absent, as the model sees it.
pub open spec fn optional_identity(id: Option<&WorkerIdentity>) -> Option<IdentityView> {
    match id {
        Some(identity) => Some(identity@),
        None => None,
    }
}

/// A worker that may be absent, as the model sees it.
pub open spec fn optional_reserved(worker: Option<ReservedWorker>) -> Option<ReservedView> {
    match worker {
        Some(reserved) => Some(reserved@),
        None => None,
    }
}

} // verus!

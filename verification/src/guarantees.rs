//! What a run of the server guarantees: what scrapes leave behind, whom workers serve, and what the
//! gauge of open connections shows.

use crate::connection::enrolment;
use crate::invariants::{a_run_stays_sound, claims, whatever_happens_keeps_the_system_sound};
use crate::laws::{asking_changes_only_requests, in_step};
use crate::limits::Limits;
use crate::metrics::CloseReason;
use crate::model::{IdentityView, StateView, WorkerKey};
use crate::scrape::StepView;
use crate::system::{is_run, uid_of, worker_of, Happening, System};
use vstd::prelude::*;

verus! {

/// When no scrape is in progress, none has left anything behind: no request is open, every worker
/// is idle, and no capacity is taken.
pub proof fn ended_scrapes_leave_nothing(system: System, uid: Seq<char>, key: WorkerKey)
    requires
        system.sound(),
        forall|k: nat| !#[trigger] system.scrapes.contains_key(k),
    ensures
        !system.state.pending.contains_key(uid),
        system.state.workers.contains_key(key) ==> !system.state.workers[key].busy,
        system.state.in_flight == 0,
{
    assert(system.scrapes.dom() =~= Set::empty());
    assert forall|k: nat| #[trigger] system.owner(k) is None by {
        assert(!system.winners.contains_key(k));
    }
}

/// A scrape that is over holds nothing: whatever worker is busy, and whatever request is open,
/// belongs to another scrape, which is in progress, and each of those holds one unit of capacity.
pub proof fn a_scrape_that_is_over_holds_nothing(
    system: System,
    k: nat,
    uid: Seq<char>,
    key: WorkerKey,
)
    requires
        system.sound(),
        !system.scrapes.contains_key(k),
    ensures
        system.owner(k) is None,
        system.state.workers.contains_key(key) && system.state.workers[key].busy ==> exists|j: nat|
            j != k && system.scrapes.contains_key(j) && #[trigger] system.owner(j) == Some(
                system.state.identity_of(key),
            ),
        system.state.pending.contains_key(uid) ==> exists|j: nat|
            j != k && #[trigger] system.scrapes.contains_key(j) && uid_of(system.scrapes[j])
                == Some(uid),
        system.state.in_flight == system.scrapes.dom().len(),
{
    assert(!system.winners.contains_key(k));
    if system.state.workers.contains_key(key) && system.state.workers[key].busy {
        let id = system.state.identity_of(key);
        let j = choose|j: nat| #[trigger] system.owner(j) == Some(id);
        assert(system.winners.contains_key(j) ==> system.scrapes.contains_key(j));
        assert(j != k && system.scrapes.contains_key(j) && system.owner(j) == Some(id));
    }
}

/// The scrape that something happens to.
pub open spec fn subject(what: Happening) -> Option<nat> {
    match what {
        Happening::Started { k, .. } => Some(k),
        Happening::Asked { k, .. } => Some(k),
        Happening::Selected { k } => Some(k),
        Happening::CandidatesLost { k, .. } => Some(k),
        Happening::ReadyTimedOut { k } => Some(k),
        Happening::RequestSent { k, .. } => Some(k),
        Happening::Responded { k, .. } => Some(k),
        Happening::WorkerLost { k, .. } => Some(k),
        Happening::ResponseTimedOut { k } => Some(k),
        Happening::LookedAgain { k, .. } => Some(k),
        Happening::WaitExpired { k } => Some(k),
        Happening::GivenUp { k } => Some(k),
        _ => None,
    }
}

/// However a scrape leaves a request or a worker behind, and however it ends: the request is
/// closed, the worker is idle, as far as it is still registered, and with its end its capacity is
/// free again and no worker was removed.
pub proof fn every_exit_frees_what_it_took(
    system: System,
    what: Happening,
    next: System,
    k: nat,
)
    requires
        system.sound(),
        system.happens(what, next),
        system.scrapes.contains_key(k),
    ensures
        system.owner(k) matches Some(id) ==> next.owner(k) != Some(id) ==> !next.state.holds(id)
            || next.state.idle(id),
        uid_of(system.scrapes[k]) matches Some(uid) ==> (!next.scrapes.contains_key(k) || uid_of(
            next.scrapes[k],
        ) != Some(uid)) ==> !next.state.pending.contains_key(uid),
        !next.scrapes.contains_key(k) ==> {
            &&& next.state.in_flight + 1 == system.state.in_flight
            &&& next.state.workers.dom() == system.state.workers.dom()
            &&& next.owner(k) is None
        },
{
    whatever_happens_keeps_the_system_sound(system, what, next);
    assert(next.owner(k) is Some ==> next.scrapes.contains_key(k));
    if subject(what) == Some(k) {
        assert forall|j: nat| j != k implies #[trigger] next.owner(j) == system.owner(j) by {}
        if let Some(id) = system.owner(k) {
            if next.owner(k) != Some(id) && next.state.holds(id)
                && next.state.workers[id.key()].busy {
                assert(next.state.identity_of(id.key()) == id);
                let j = choose|j: nat| #[trigger] next.owner(j) == Some(id);
                assert(system.owner(j) == system.owner(k));
            }
        }
        if !next.scrapes.contains_key(k) {
            assert(next.scrapes.dom() =~= system.scrapes.dom().remove(k));
            lemma_exit_keeps_workers(system, what, next, k);
        }
        lemma_exit_closes_request(system, what, next, k);
    } else {
        assert(next.scrapes.contains_key(k) && next.scrapes[k] == system.scrapes[k]) by {
            if let Some(j) = subject(what) {
                assert(j != k);
            }
        }
        assert(system.owner(k) is Some ==> next.owner(k) == system.owner(k));
    }
}

proof fn lemma_same_keys(before: StateView, id: IdentityView)
    ensures
        before.released(id).workers.dom() == before.workers.dom(),
{
    assert(before.released(id).workers.dom() =~= before.workers.dom());
}

proof fn lemma_exit_keeps_workers(system: System, what: Happening, next: System, k: nat)
    requires
        system.sound(),
        system.happens(what, next),
        subject(what) == Some(k),
        system.scrapes.contains_key(k),
        !next.scrapes.contains_key(k),
    ensures
        next.state.workers.dom() == system.state.workers.dom(),
{
    let state = system.state;
    if let Some(worker) = system.late(k) {
        lemma_same_keys(state, worker.identity);
    }
    if let Some(id) = worker_of(system.scrapes[k]) {
        lemma_same_keys(state, id);
        assert(state.released(id).workers.dom() =~= state.workers.dom());
        let uid = uid_of(system.scrapes[k])->0;
        let closed = StateView { pending: state.pending.remove(uid), ..state };
        lemma_same_keys(closed, id);
    }
    if let StepView::SendReady { uid, asked, .. } = system.scrapes[k] {
        if let Happening::Asked { delivered, .. } = what {
            asking_changes_only_requests(state, uid, asked, delivered, asked.len() as int);
        }
    }
}

proof fn lemma_exit_closes_request(system: System, what: Happening, next: System, k: nat)
    requires
        system.sound(),
        system.happens(what, next),
        subject(what) == Some(k),
        system.scrapes.contains_key(k),
    ensures
        uid_of(system.scrapes[k]) matches Some(uid) ==> (!next.scrapes.contains_key(k) || uid_of(
            next.scrapes[k],
        ) != Some(uid)) ==> !next.state.pending.contains_key(uid),
{
}

/// One response at a time: no two open requests wait for the response of the same worker, and a
/// registered worker whose response is waited for is busy.
pub proof fn a_worker_serves_one_request(
    system: System,
    one: Seq<char>,
    two: Seq<char>,
    id: IdentityView,
)
    requires
        system.sound(),
        claims(system.state, one, id),
        claims(system.state, two, id),
    ensures
        one == two,
        system.state.holds(id) ==> system.state.workers[id.key()].busy,
{
    let j = choose|j: nat| #[trigger]
        system.scrapes.contains_key(j) && uid_of(system.scrapes[j]) == Some(one) && worker_of(
            system.scrapes[j],
        ) == Some(id);
    let k = choose|k: nat| #[trigger]
        system.scrapes.contains_key(k) && uid_of(system.scrapes[k]) == Some(two) && worker_of(
            system.scrapes[k],
        ) == Some(id);
    assert(system.owner(j) == Some(id) && system.owner(k) == Some(id));
}

/// A registration is new: nothing in the server knows of it yet.
pub proof fn a_registration_is_new(
    system: System,
    instance: Seq<char>,
    name: Seq<char>,
    uid: Seq<char>,
    link: u64,
    k: nat,
)
    requires
        system.sound(),
    ensures
        ({
            let id = system.state.next_identity(instance, name);
            &&& !system.state.holds(id)
            &&& system.state.pending.contains_key(uid) ==> !system.state.pending[uid].waits_for(id)
            &&& system.connections.contains_key(link) ==> system.connections[link].identity
                != Some(id)
            &&& system.owner(k) != Some(id)
        }),
{
    let id = system.state.next_identity(instance, name);
    if system.state.pending.contains_key(uid) && system.state.pending[uid].waits_for(id) {
        assert(id.generation < system.state.generation);
    }
    if system.owner(k) == Some(id) {
        assert(system.owner(k) is Some);
    }
}

/// A registration that was replaced can neither end nor release nor answer for the one that
/// replaced it, and the connection that held it is evicted.
pub proof fn a_replaced_registration_has_no_effect(
    system: System,
    instance: Seq<char>,
    name: Seq<char>,
    version: u16,
    link: u64,
    last_seen: u64,
    uid: Seq<char>,
    reason: CloseReason,
)
    requires
        system.sound(),
        system.state.workers.contains_key((instance, name)),
    ensures
        ({
            let old_id = system.state.identity_of((instance, name));
            let new_id = system.state.next_identity(instance, name);
            let after = system.state.registered(instance, name, version, link, last_seen);
            &&& after.idle(new_id)
            &&& !after.holds(old_id)
            &&& after.unregistered(old_id) == after
            &&& after.released(old_id) == after
            &&& after.disconnected(Some(old_id), reason).workers == after.workers
            &&& after.winner(uid, old_id) is None
            &&& system.state.evicted(instance, name) == Some(
                system.state.workers[(instance, name)].link,
            )
            &&& after.pending.contains_key(uid) ==> !after.pending[uid].waits_for(old_id)
        }),
{
}

/// A connection holds one registration: a new one ends the one before, and is current.
pub proof fn a_connection_holds_one_registration(
    system: System,
    link: u64,
    instance: Seq<char>,
    name: Seq<char>,
    version: u16,
)
    requires
        system.sound(),
        system.connections.contains_key(link),
    ensures
        ({
            let connection = system.connections[link];
            let after = enrolment(system.state, connection, instance, name, version);
            &&& after.connection.identity matches Some(current) && after.state.idle(current)
            &&& connection.identity matches Some(id) ==> !after.state.holds(id)
        }),
{
}

/// The workers of a server are those of its open connections, of which the gauge shows how many
/// there are: without connections there are no workers.
pub proof fn workers_go_with_their_connections(system: System, key: WorkerKey)
    requires
        system.sound(),
    ensures
        system.state.metrics.open_connections == system.connections.dom().len(),
        system.state.workers.contains_key(key) ==> {
            let link = system.state.workers[key].link;
            &&& system.connections.contains_key(link)
            &&& system.connections[link].identity == Some(system.state.identity_of(key))
            &&& system.connections[link].last_seen == system.state.workers[key].last_seen
        },
{
    if system.state.workers.contains_key(key) {
        assert(in_step(system.state, system.connections[system.state.workers[key].link]));
    }
}

/// How many connections were opened in the first `i` happenings.
pub open spec fn opened_in(what: Seq<Happening>, i: int) -> int
    decreases i,
{
    if i <= 0 {
        0
    } else if what[i - 1] is Opened {
        opened_in(what, i - 1) + 1
    } else {
        opened_in(what, i - 1)
    }
}

/// How many connections were closed in the first `i` happenings.
pub open spec fn closed_in(what: Seq<Happening>, i: int) -> int
    decreases i,
{
    if i <= 0 {
        0
    } else if what[i - 1] is Closed {
        closed_in(what, i - 1) + 1
    } else {
        closed_in(what, i - 1)
    }
}

/// Over any run the gauge of open connections is what was opened less what was closed.
pub proof fn the_gauge_is_opened_less_closed(
    limits: Limits,
    run: Seq<System>,
    what: Seq<Happening>,
    i: int,
)
    requires
        is_run(limits, run, what),
        0 <= i < run.len(),
    ensures
        run[i].state.metrics.open_connections == opened_in(what, i) - closed_in(what, i),
    decreases i,
{
    if i > 0 {
        the_gauge_is_opened_less_closed(limits, run, what, i - 1);
        a_run_stays_sound(limits, run, what, i - 1);
        a_run_stays_sound(limits, run, what, i);
        let before = run[i - 1];
        assert(before.happens(what[i - 1], run[i]));
        match what[i - 1] {
            Happening::Opened { .. } => {},
            Happening::Closed { link, .. } => {
                assert(before.connections.dom().contains(link));
                assert(run[i].connections.dom() =~= before.connections.dom().remove(link));
            },
            Happening::OnConnection { link, after, .. } => {
                assert(run[i].connections.dom() =~= before.connections.dom());
            },
            _ => {
                assert(run[i].connections == before.connections);
            },
        }
    }
}

} // verus!

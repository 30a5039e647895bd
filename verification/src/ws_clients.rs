//! The connected clients of protocol versions 1 and 2: which workers serve an instance, and how
//! they are asked.

use crate::assoc::{
    keys_distinct, lemma_entry, lemma_place, lemma_push, lemma_remove, lemma_update, to_map,
};
use crate::outside::{checked_status, is_status, shuffle};
use crate::text::{parse_u16, read_u16, same_text};
use crate::ws_response::{WSCallResourceRequest, WSReadyRequest};
use vstd::prelude::*;

verus! {

/// A worker and the connection that reaches it.
#[derive(Debug)]
pub struct Sender {
    pub worker: String,
    pub link: u64,
}

/// The workers of an instance.
#[derive(Debug)]
pub struct Client {
    pub instance_id: String,
    pub senders: Vec<Sender>,
    /// The protocol version that the last worker gave.
    pub version: u16,
}

/// The clients of a server.
pub struct Clients {
    list: Vec<Client>,
}

/// The workers of an instance: the connection of each by its name.
#[verifier::ext_equal]
pub struct ClientView {
    pub instance_id: Seq<char>,
    pub senders: Map<Seq<char>, u64>,
    pub version: u16,
}

/// The clients of a server, by their instance.
pub type ClientsView = Map<Seq<char>, ClientView>;

impl View for Sender {
    type V = (Seq<char>, u64);

    open spec fn view(&self) -> (Seq<char>, u64) {
        (self.worker@, self.link)
    }
}

/// The workers in a list.
pub open spec fn senders_view(senders: Seq<Sender>) -> Seq<(Seq<char>, u64)> {
    senders.map_values(|sender: Sender| sender@)
}

impl View for Client {
    type V = ClientView;

    open spec fn view(&self) -> ClientView {
        ClientView {
            instance_id: self.instance_id@,
            senders: to_map(senders_view(self.senders@)),
            version: self.version,
        }
    }
}

impl Client {
    /// No worker is listed twice.
    pub open spec fn wf(&self) -> bool {
        keys_distinct(senders_view(self.senders@))
    }

    /// The client under its instance.
    spec fn entry(self) -> (Seq<char>, ClientView) {
        (self.instance_id@, self@)
    }
}

/// The clients under their instances.
spec fn client_entries(list: Seq<Client>) -> Seq<(Seq<char>, ClientView)> {
    list.map_values(|client: Client| client.entry())
}

impl View for Clients {
    type V = ClientsView;

    closed spec fn view(&self) -> ClientsView {
        to_map(client_entries(self.list@))
    }
}

impl Clone for Sender {
    fn clone(&self) -> (copy: Self)
        ensures
            copy@ == self@,
    {
        Sender { worker: self.worker.clone(), link: self.link }
    }
}

/// A copy of a list of workers.
fn copied(senders: &Vec<Sender>) -> (copy: Vec<Sender>)
    ensures
        senders_view(copy@) == senders_view(senders@),
{
    let mut copy: Vec<Sender> = Vec::new();
    for i in 0..senders.len()
        invariant
            copy@.len() == i,
            forall|j: int| 0 <= j < i ==> (#[trigger] copy@[j])@ == senders@[j]@,
    {
        copy.push(senders[i].clone());
    }
    assert(senders_view(copy@) =~= senders_view(senders@));
    copy
}

impl Clone for Client {
    fn clone(&self) -> (copy: Self)
        ensures
            copy.instance_id@ == self.instance_id@,
            senders_view(copy.senders@) == senders_view(self.senders@),
            copy.version == self.version,
    {
        Client {
            instance_id: self.instance_id.clone(),
            senders: copied(&self.senders),
            version: self.version,
        }
    }
}

impl ClientView {
    /// After a worker was attached, with the protocol version that it gave.
    pub open spec fn attached(self, worker: Seq<char>, link: u64, version: u16) -> ClientView {
        ClientView { senders: self.senders.insert(worker, link), version, ..self }
    }

    /// After a worker was removed.
    pub open spec fn detached(self, worker: Seq<char>) -> ClientView {
        ClientView { senders: self.senders.remove(worker), ..self }
    }

    /// A client without workers.
    pub open spec fn without_workers(instance_id: Seq<char>, version: u16) -> ClientView {
        ClientView { instance_id, senders: Map::empty(), version }
    }
}

/// The clients after a worker registered.
pub open spec fn with_worker(
    clients: ClientsView,
    instance: Seq<char>,
    worker: Seq<char>,
    version: u16,
    link: u64,
) -> ClientsView {
    let client = if clients.contains_key(instance) {
        clients[instance]
    } else {
        ClientView::without_workers(instance, version)
    };
    clients.insert(instance, client.attached(worker, link, version))
}

/// The clients after a worker was removed. Its instance stays, even without workers.
pub open spec fn without_worker(
    clients: ClientsView,
    instance: Seq<char>,
    worker: Seq<char>,
) -> ClientsView {
    clients.insert(instance, clients[instance].detached(worker))
}

/// The clients after the first `n` of the named workers of an instance were removed.
pub open spec fn without_workers(
    clients: ClientsView,
    instance: Seq<char>,
    names: Seq<Seq<char>>,
    n: int,
) -> ClientsView
    decreases n,
{
    if n <= 0 {
        clients
    } else {
        without_worker(without_workers(clients, instance, names, n - 1), instance, names[n - 1])
    }
}

/// The instances and the workers in a list.
pub open spec fn pairs_view(list: Seq<(String, String)>) -> Seq<(Seq<char>, Seq<char>)> {
    list.map_values(|pair: (String, String)| (pair.0@, pair.1@))
}

impl Client {
    /// Where a worker is listed.
    fn find(&self, worker: &str) -> (place: Option<usize>)
        requires
            self.wf(),
        ensures
            match place {
                Some(i) => {
                    &&& i < self.senders@.len()
                    &&& self.senders@[i as int].worker@ == worker@
                    &&& self@.senders.contains_key(worker@)
                    &&& self@.senders[worker@] == self.senders@[i as int].link
                },
                None => !self@.senders.contains_key(worker@),
            },
    {
        for i in 0..self.senders.len()
            invariant
                self.wf(),
                forall|j: int| 0 <= j < i ==> (#[trigger] self.senders@[j]).worker@ != worker@,
        {
            if same_text(self.senders[i].worker.as_str(), worker) {
                proof {
                    lemma_entry(senders_view(self.senders@), i as int);
                }
                return Some(i);
            }
        }
        proof {
            if self@.senders.contains_key(worker@) {
                let j = lemma_place(senders_view(self.senders@), worker@);
                assert(self.senders@[j].worker@ == worker@);
            }
        }
        None
    }

    /// The connection that reaches a worker.
    pub fn sender_of(&self, worker: &str) -> (link: Option<u64>)
        requires
            self.wf(),
        ensures
            link == (if self@.senders.contains_key(worker@) {
                Some(self@.senders[worker@])
            } else {
                None
            }),
    {
        match self.find(worker) {
            Some(i) => Some(self.senders[i].link),
            None => None,
        }
    }

    /// Attaches a worker, in place of one of the same name.
    fn attach(&mut self, worker: String, link: u64, version: u16)
        requires
            old(self).wf(),
        ensures
            final(self).wf(),
            final(self).instance_id == old(self).instance_id,
            final(self)@ == old(self)@.attached(worker@, link, version),
    {
        let ghost entries = senders_view(self.senders@);
        self.version = version;
        match self.find(worker.as_str()) {
            Some(i) => {
                self.senders[i].link = link;
                proof {
                    assert(senders_view(self.senders@) =~= entries.update(
                        i as int,
                        (entries[i as int].0, link),
                    ));
                    lemma_update(entries, i as int, link);
                }
            },
            None => {
                let sender = Sender { worker, link };
                self.senders.push(sender);
                proof {
                    assert(senders_view(self.senders@) =~= entries.push(sender@));
                    lemma_push(entries, sender@);
                }
            },
        }
    }

    /// Removes a worker, if it is listed.
    fn detach(&mut self, worker: &str)
        requires
            old(self).wf(),
        ensures
            final(self).wf(),
            final(self).instance_id == old(self).instance_id,
            final(self)@ == old(self)@.detached(worker@),
    {
        let ghost entries = senders_view(self.senders@);
        match self.find(worker) {
            Some(i) => {
                self.senders.remove(i);
                proof {
                    assert(senders_view(self.senders@) =~= entries.remove(i as int));
                    lemma_remove(entries, i as int);
                }
            },
            None => {
                assert(self@.senders.remove(worker@) =~= self@.senders);
            },
        }
    }
}

impl Clients {
    /// No instance is listed twice, nor a worker of one.
    pub closed spec fn wf(&self) -> bool {
        &&& keys_distinct(client_entries(self.list@))
        &&& forall|i: int| 0 <= i < self.list@.len() ==> (#[trigger] self.list@[i]).wf()
    }

    /// No clients.
    pub fn new() -> (clients: Clients)
        ensures
            clients.wf(),
            clients@ == Map::<Seq<char>, ClientView>::empty(),
    {
        let clients = Clients { list: Vec::new() };
        assert(clients@ =~= Map::<Seq<char>, ClientView>::empty());
        clients
    }

    /// Where an instance is listed.
    fn find(&self, instance_id: &str) -> (place: Option<usize>)
        requires
            self.wf(),
        ensures
            match place {
                Some(i) => {
                    &&& i < self.list@.len()
                    &&& self.list@[i as int].instance_id@ == instance_id@
                    &&& self@.contains_key(instance_id@)
                    &&& self@[instance_id@] == self.list@[i as int]@
                },
                None => !self@.contains_key(instance_id@),
            },
    {
        for i in 0..self.list.len()
            invariant
                self.wf(),
                forall|j: int|
                    0 <= j < i ==> (#[trigger] self.list@[j]).instance_id@ != instance_id@,
        {
            if same_text(self.list[i].instance_id.as_str(), instance_id) {
                proof {
                    lemma_entry(client_entries(self.list@), i as int);
                }
                return Some(i);
            }
        }
        proof {
            if self@.contains_key(instance_id@) {
                let j = lemma_place(client_entries(self.list@), instance_id@);
                assert(self.list@[j].instance_id@ == instance_id@);
            }
        }
        None
    }

    /// Registers a worker of an instance. The instance takes over the protocol version that the
    /// worker gave.
    pub fn register(&mut self, instance_id: String, worker: String, version: u16, link: u64)
        requires
            old(self).wf(),
        ensures
            final(self).wf(),
            final(self)@ == with_worker(old(self)@, instance_id@, worker@, version, link),
    {
        let ghost entries = client_entries(self.list@);
        match self.find(instance_id.as_str()) {
            Some(i) => {
                self.list[i].attach(worker, link, version);
                proof {
                    let changed = self.list@[i as int];
                    assert(client_entries(self.list@) =~= entries.update(
                        i as int,
                        (entries[i as int].0, changed@),
                    ));
                    lemma_update(entries, i as int, changed@);
                }
            },
            None => {
                let mut client = Client { instance_id, senders: Vec::new(), version };
                proof {
                    assert(senders_view(client.senders@) =~= Seq::empty());
                    assert(client@.senders =~= Map::<Seq<char>, u64>::empty());
                }
                client.attach(worker, link, version);
                self.list.push(client);
                proof {
                    assert(client_entries(self.list@) =~= entries.push(client.entry()));
                    lemma_push(entries, client.entry());
                }
            },
        }
    }

    /// Every client, each once.
    pub fn snapshot(&self) -> (clients: Vec<Client>)
        requires
            self.wf(),
        ensures
            forall|i: int|
                0 <= i < clients@.len() ==> {
                    let client = #[trigger] clients@[i];
                    &&& client.wf()
                    &&& self@.contains_key(client.instance_id@)
                    &&& self@[client.instance_id@] == client@
                },
            forall|i: int, j: int|
                0 <= i < j < clients@.len() ==> (#[trigger] clients@[i]).instance_id@ != (
                #[trigger] clients@[j]).instance_id@,
            forall|instance: Seq<char>| #[trigger]
                self@.contains_key(instance) ==> exists|i: int|
                    0 <= i < clients@.len() && (#[trigger] clients@[i]).instance_id@ == instance,
    {
        let mut clients: Vec<Client> = Vec::new();
        for i in 0..self.list.len()
            invariant
                self.wf(),
                clients@.len() == i,
                forall|j: int|
                    0 <= j < i ==> {
                        let client = #[trigger] clients@[j];
                        &&& client.wf()
                        &&& client.instance_id@ == self.list@[j].instance_id@
                        &&& self@.contains_key(client.instance_id@)
                        &&& self@[client.instance_id@] == client@
                    },
        {
            assert(self.list@[i as int].wf());
            proof {
                lemma_entry(client_entries(self.list@), i as int);
            }
            clients.push(self.list[i].clone());
        }
        assert forall|i: int, j: int|
            0 <= i < j < clients@.len() implies (#[trigger] clients@[i]).instance_id@ != (
        #[trigger] clients@[j]).instance_id@ by {
            let entries = client_entries(self.list@);
            assert(entries[i].0 != entries[j].0);
        }
        assert forall|instance: Seq<char>| #[trigger] self@.contains_key(instance) implies exists|
            i: int,
        | 0 <= i < clients@.len() && (#[trigger] clients@[i]).instance_id@ == instance by {
            let j = lemma_place(client_entries(self.list@), instance);
            assert(self.list@[j].instance_id@ == instance);
            assert(clients@[j].instance_id@ == instance);
        }
        clients
    }

}

/// Removes a worker of an instance.
pub fn remove_client(clients: &mut Clients, instance_id: &str, sender_id: &str)
    requires
        old(clients).wf(),
        old(clients)@.contains_key(instance_id@),
    ensures
        final(clients).wf(),
        final(clients)@ == without_worker(old(clients)@, instance_id@, sender_id@),
{
    let ghost entries = client_entries(clients.list@);
    match clients.find(instance_id) {
        Some(i) => {
            clients.list[i].detach(sender_id);
            proof {
                let changed = clients.list@[i as int];
                assert(client_entries(clients.list@) =~= entries.update(
                    i as int,
                    (entries[i as int].0, changed@),
                ));
                lemma_update(entries, i as int, changed@);
            }
        },
        None => {},
    }
}

/// The workers of an instance.
pub fn get_client(instance_id: &str, clients: &Clients) -> (client: Option<Client>)
    requires
        clients.wf(),
    ensures
        client is Some <==> clients@.contains_key(instance_id@),
        client matches Some(found) ==> found.wf() && found.instance_id@ == instance_id@ && found@
            == clients@[instance_id@],
{
    match clients.find(instance_id) {
        Some(i) => {
            assert(clients.list@[i as int].wf());
            Some(clients.list[i].clone())
        },
        None => None,
    }
}

/// The workers of a client that a ping did not reach. `sent` says of each worker, in the order
/// of the client, whether its ping was sent.
pub open spec fn missed(senders: Seq<(Seq<char>, u64)>, sent: Seq<bool>, n: int) -> Seq<
    Seq<char>,
>
    decreases n,
{
    if n <= 0 {
        Seq::empty()
    } else {
        let before = missed(senders, sent, n - 1);
        if n - 1 < sent.len() && sent[n - 1] {
            before
        } else {
            before.push(senders[n - 1].0)
        }
    }
}

/// The workers of a list that a message did not reach.
pub fn missed_workers(senders: &Vec<Sender>, sent: &Vec<bool>) -> (workers: Vec<String>)
    ensures
        workers@.map_values(|worker: String| worker@) == missed(
            senders_view(senders@),
            sent@,
            senders@.len() as int,
        ),
{
    let mut workers: Vec<String> = Vec::new();
    let ghost listed = senders_view(senders@);
    assert(workers@.map_values(|worker: String| worker@) =~= Seq::empty());
    for i in 0..senders.len()
        invariant
            listed == senders_view(senders@),
            workers@.map_values(|worker: String| worker@) == missed(listed, sent@, i as int),
    {
        if !(i < sent.len() && sent[i]) {
            let ghost before = workers@;
            workers.push(senders[i].worker.clone());
            assert(workers@.map_values(|worker: String| worker@) =~= before.map_values(
                |worker: String| worker@,
            ).push(listed[i as int].0));
        }
    }
    workers
}

/// The workers of a client that have to be removed after they were pinged, each with its
/// instance.
pub fn ping_client(instance_id: &str, client: &Client, sent: &Vec<bool>) -> (dead: Vec<
    (String, String),
>)
    ensures
        pairs_view(dead@) == missed(
            senders_view(client.senders@),
            sent@,
            client.senders@.len() as int,
        ).map_values(|worker: Seq<char>| (instance_id@, worker)),
{
    let workers = missed_workers(&client.senders, sent);
    let ghost names = workers@.map_values(|worker: String| worker@);
    let mut dead: Vec<(String, String)> = Vec::new();
    for i in 0..workers.len()
        invariant
            dead@.len() == i,
            names == workers@.map_values(|worker: String| worker@),
            forall|j: int|
                0 <= j < i ==> (#[trigger] dead@[j]).0@ == instance_id@ && dead@[j].1@ == names[j],
    {
        assert(names[i as int] == workers@[i as int]@);
        dead.push((instance_id.to_owned(), workers[i].clone()));
    }
    assert(pairs_view(dead@) =~= names.map_values(|worker: Seq<char>| (instance_id@, worker)));
    dead
}

/// A client whose workers were pinged, and of each of them, in their order, whether its ping was
/// sent.
pub struct Pinged {
    pub client: Client,
    pub sent: Vec<bool>,
}

impl Pinged {
    /// The workers that were not reached.
    pub open spec fn dead(self) -> Seq<Seq<char>> {
        missed(senders_view(self.client.senders@), self.sent@, self.client.senders@.len() as int)
    }
}

/// The clients after the first `n` of them were pinged and the workers that were not reached were
/// removed.
pub open spec fn after_pings(clients: ClientsView, pinged: Seq<Pinged>, n: int) -> ClientsView
    decreases n,
{
    if n <= 0 {
        clients
    } else {
        let dead = pinged[n - 1].dead();
        without_workers(
            after_pings(clients, pinged, n - 1),
            pinged[n - 1].client.instance_id@,
            dead,
            dead.len() as int,
        )
    }
}

/// Removes the workers that a ping did not reach.
pub fn ping_clients(clients: &mut Clients, pinged: &Vec<Pinged>)
    requires
        old(clients).wf(),
        forall|i: int|
            0 <= i < pinged@.len() ==> old(clients)@.contains_key(
                (#[trigger] pinged@[i]).client.instance_id@,
            ),
    ensures
        final(clients).wf(),
        final(clients)@ == after_pings(old(clients)@, pinged@, pinged@.len() as int),
{
    for i in 0..pinged.len()
        invariant
            clients.wf(),
            clients@ == after_pings(old(clients)@, pinged@, i as int),
            forall|instance: Seq<char>| #[trigger]
                old(clients)@.contains_key(instance) ==> clients@.contains_key(instance),
            forall|j: int|
                0 <= j < pinged@.len() ==> old(clients)@.contains_key(
                    (#[trigger] pinged@[j]).client.instance_id@,
                ),
    {
        let one = &pinged[i];
        let ghost instance = one.client.instance_id@;
        assert(old(clients)@.contains_key(pinged@[i as int].client.instance_id@));
        let dead = ping_client(one.client.instance_id.as_str(), &one.client, &one.sent);
        let ghost names = one.dead();
        let ghost before = clients@;
        let ghost pairs = pairs_view(dead@);
        assert(pairs.len() == names.len());
        for j in 0..dead.len()
            invariant
                clients.wf(),
                pairs == pairs_view(dead@),
                names.len() == pairs.len() == dead@.len(),
                pairs == names.map_values(|worker: Seq<char>| (instance, worker)),
                before.contains_key(instance),
                forall|other: Seq<char>| #[trigger]
                    before.contains_key(other) ==> clients@.contains_key(other),
                clients@ == without_workers(before, instance, names, j as int),
        {
            assert(pairs[j as int] == (dead@[j as int].0@, dead@[j as int].1@));
            assert(pairs[j as int] == (instance, names[j as int]));
            remove_client(clients, dead[j].0.as_str(), dead[j].1.as_str());
        }
    }
}

/// How often the cache is asked for a ready worker, and how long to wait after each time, in
/// milliseconds.
pub const WORKER_POLLS: u32 = 300;

pub const WORKER_POLL_MILLIS: u64 = 100;

/// How often the cache is asked for a response, and how long to wait after each time, in
/// milliseconds.
pub const RESPONSE_POLLS: u32 = 200;

pub const RESPONSE_POLL_MILLIS: u64 = 150;

/// How long to wait between two pings of all workers, in milliseconds.
pub const PING_MILLIS: u64 = 60_000;

/// What to do after the cache was asked.
pub enum Poll {
    /// Ask again; the number counts the times that it was asked in vain.
    Again(u32),
    Found(String),
    GaveUp,
}

/// What to do after the cache was asked.
pub enum PollView {
    Again(u32),
    Found(Seq<char>),
    GaveUp,
}

impl View for Poll {
    type V = PollView;

    open spec fn view(&self) -> PollView {
        match self {
            Poll::Again(polls) => PollView::Again(*polls),
            Poll::Found(text) => PollView::Found(text@),
            Poll::GaveUp => PollView::GaveUp,
        }
    }
}

/// What to do after the cache, asked in vain `polls` times, gave `found`.
pub open spec fn polled(limit: u32, polls: u32, found: Option<String>) -> PollView {
    match found {
        Some(text) => PollView::Found(text@),
        None => if polls + 1 < limit {
            PollView::Again((polls + 1) as u32)
        } else {
            PollView::GaveUp
        },
    }
}

/// What to do after the cache, asked in vain `polls` times, gave `found`.
fn poll(limit: u32, polls: u32, found: Option<String>) -> (step: Poll)
    requires
        polls < limit,
    ensures
        step@ == polled(limit, polls, found),
{
    match found {
        Some(text) => Poll::Found(text),
        None => {
            if polls + 1 < limit {
                Poll::Again(polls + 1)
            } else {
                Poll::GaveUp
            }
        },
    }
}

/// What to do after the cache was asked which worker is ready.
pub fn wait_for_worker_available(polls: u32, found: Option<String>) -> (step: Poll)
    requires
        polls < WORKER_POLLS,
    ensures
        step@ == polled(WORKER_POLLS, polls, found),
{
    poll(WORKER_POLLS, polls, found)
}

/// What to do after the cache was asked for the status of a response.
pub fn wait_for_response(polls: u32, found: Option<String>) -> (step: Poll)
    requires
        polls < RESPONSE_POLLS,
    ensures
        step@ == polled(RESPONSE_POLLS, polls, found),
{
    poll(RESPONSE_POLLS, polls, found)
}

/// The status that a text stands for, if it stands for one.
pub open spec fn read_status(text: Seq<char>) -> Option<u16> {
    match read_u16(text) {
        Some(status) => if is_status(status) {
            Some(status)
        } else {
            None
        },
        None => None,
    }
}

/// The status that a text stands for, if it stands for one.
pub fn parse_status(text: &str) -> (status: Option<u16>)
    ensures
        status == read_status(text@),
{
    match parse_u16(text) {
        Some(status) => checked_status(status),
        None => None,
    }
}

/// The message that asks a worker for a resource.
pub fn ask_resource_from_worker(resource: String, uid: String) -> (message: WSCallResourceRequest)
    ensures
        message.message_type@ == "request"@,
        message.uid@ == uid@,
        message.resource@ == resource@,
{
    WSCallResourceRequest { message_type: "request".to_owned(), uid, resource }
}

/// The message that asks a worker whether it is ready.
pub fn ask_worker_readiness(uid: String) -> (message: WSReadyRequest)
    ensures
        message.message_type@ == "ready"@,
        message.uid@ == uid@,
{
    WSReadyRequest { message_type: "ready".to_owned(), uid }
}

/// The connection of the worker that is asked for a resource next, after the first `asked` of
/// them were asked in vain.
pub fn ask_resource(senders: &Vec<Sender>, asked: usize) -> (link: Option<u64>)
    ensures
        link == (if asked < senders@.len() {
            Some(senders_view(senders@)[asked as int].1)
        } else {
            None
        }),
{
    if asked < senders.len() {
        Some(senders[asked].link)
    } else {
        None
    }
}

/// Removes the workers of an instance that were asked whether they are ready and were not reached;
/// `sent` says of each worker, in their order, whether the question was sent. Tells whether the
/// instance has a client.
pub fn ask_readiness(
    instance_id: &str,
    clients: &mut Clients,
    senders: &Vec<Sender>,
    sent: &Vec<bool>,
) -> (known: bool)
    requires
        old(clients).wf(),
    ensures
        final(clients).wf(),
        known == old(clients)@.contains_key(instance_id@),
        final(clients)@ == (if known {
            let names = missed(senders_view(senders@), sent@, senders@.len() as int);
            without_workers(old(clients)@, instance_id@, names, names.len() as int)
        } else {
            old(clients)@
        }),
{
    if get_client(instance_id, clients).is_none() {
        return false;
    }
    let workers = missed_workers(senders, sent);
    let ghost names = workers@.map_values(|worker: String| worker@);
    for i in 0..workers.len()
        invariant
            clients.wf(),
            clients@.contains_key(instance_id@),
            names == workers@.map_values(|worker: String| worker@),
            clients@ == without_workers(old(clients)@, instance_id@, names, i as int),
    {
        assert(names[i as int] == workers@[i as int]@);
        remove_client(clients, instance_id, workers[i].as_str());
    }
    true
}

/// The workers of a client in the order in which they are asked: each of them once, in any
/// order.
pub fn asking_order(client: &Client) -> (order: Vec<Sender>)
    ensures
        senders_view(order@).to_multiset() == senders_view(client.senders@).to_multiset(),
{
    let mut order = copied(&client.senders);
    let ghost before = order@;
    shuffle(&mut order);
    proof {
        lemma_same_views(before, order@);
    }
    order
}

/// Lists with the same workers, whatever their order, show the same workers.
proof fn lemma_same_views(before: Seq<Sender>, after: Seq<Sender>)
    requires
        after.to_multiset() == before.to_multiset(),
    ensures
        senders_view(after).to_multiset() == senders_view(before).to_multiset(),
    decreases before.len(),
{
    broadcast use vstd::seq_lib::group_to_multiset_ensures;

    if before.len() == 0 {
        assert(after.len() == before.to_multiset().len());
        assert(senders_view(after) =~= senders_view(before));
    } else {
        let last = before.last();
        assert(before.to_multiset().count(last) > 0);
        assert(after.contains(last));
        let at = choose|i: int| 0 <= i < after.len() && after[i] == last;
        let rest = after.remove(at);
        assert(before =~= before.drop_last().push(last));
        assert(before.drop_last().to_multiset() =~= before.to_multiset().remove(last));
        assert(rest.to_multiset() =~= after.to_multiset().remove(last));
        lemma_same_views(before.drop_last(), rest);
        assert(senders_view(rest) =~= senders_view(after).remove(at));
        assert(senders_view(before.drop_last()) =~= senders_view(before).drop_last());
        assert(senders_view(before) =~= senders_view(before).drop_last().push(last@));
        assert(senders_view(after).to_multiset() =~= senders_view(rest).to_multiset().insert(
            last@,
        ));
        assert(senders_view(before).to_multiset() =~= senders_view(
            before.drop_last(),
        ).to_multiset().insert(last@));
    }
}

} // verus!

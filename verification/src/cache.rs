//! The cache through which the workers of protocol version 2 hand in what they have: who is
//! ready for a request, and what the exporter responded.

use crate::text::{decimal, push_decimal};
use vstd::prelude::*;
use vstd::string::*;

verus! {

/// Why the cache did not do what it was asked for, in words.
#[derive(Debug)]
pub struct CacheError {
    pub message: String,
}

/// A store of texts that is shared by the servers of one installation.
pub trait Cache {
    fn get(&self, key_name: &str) -> Result<String, CacheError>;

    fn get_safe(&self, key_name: &str) -> Option<String>;

    fn set(&self, key_name: &str, value: String) -> Result<(), CacheError>;

    fn set_if_not_exists(&self, key_name: &str, value: String) -> Result<(), CacheError>;

    fn set_timeout(&self, key_name: &str, seconds: usize) -> Result<(), CacheError>;
}

/// How long the cache keeps what belongs to a request, in seconds.
pub const CACHE_SECONDS: usize = 60;

/// A change that the cache is asked for.
pub enum CacheCommand {
    Put { key: String, value: String },
    PutIfAbsent { key: String, value: String },
    Expire { key: String, seconds: usize },
}

/// A change that the cache is asked for.
#[allow(inconsistent_fields)]
pub enum CommandView {
    Put { key: Seq<char>, value: Seq<char> },
    PutIfAbsent { key: Seq<char>, value: Seq<char> },
    Expire { key: Seq<char>, seconds: usize },
}

impl View for CacheCommand {
    type V = CommandView;

    open spec fn view(&self) -> CommandView {
        match self {
            CacheCommand::Put { key, value } => CommandView::Put { key: key@, value: value@ },
            CacheCommand::PutIfAbsent { key, value } => CommandView::PutIfAbsent {
                key: key@,
                value: value@,
            },
            CacheCommand::Expire { key, seconds } => CommandView::Expire {
                key: key@,
                seconds: *seconds,
            },
        }
    }
}

/// The changes in a list.
pub open spec fn commands_view(commands: Seq<CacheCommand>) -> Seq<CommandView> {
    commands.map_values(|command: CacheCommand| command@)
}

/// What a cache holds, as long as nothing in it has expired.
pub type CacheView = Map<Seq<char>, Seq<char>>;

impl CommandView {
    /// What the cache holds after the change.
    pub open spec fn effect(self, cache: CacheView) -> CacheView {
        match self {
            CommandView::Put { key, value } => cache.insert(key, value),
            CommandView::PutIfAbsent { key, value } => if cache.contains_key(key) {
                cache
            } else {
                cache.insert(key, value)
            },
            CommandView::Expire { .. } => cache,
        }
    }
}

/// What the cache holds after the changes, made in their order.
pub open spec fn effects(commands: Seq<CommandView>, cache: CacheView) -> CacheView
    decreases commands.len(),
{
    if commands.len() == 0 {
        cache
    } else {
        commands.last().effect(effects(commands.drop_last(), cache))
    }
}

/// The key under which something that belongs to a request is kept.
pub open spec fn request_key(uid: Seq<char>, what: Seq<char>) -> Seq<char> {
    "response_"@ + uid + what
}

/// The key of the name of the worker that is ready for the request.
pub open spec fn ready_key_of(uid: Seq<char>) -> Seq<char> {
    request_key(uid, "_ready"@)
}

/// The key of the status of the response.
pub open spec fn status_key_of(uid: Seq<char>) -> Seq<char> {
    request_key(uid, "_status"@)
}

/// The key of the body of the response.
pub open spec fn body_key_of(uid: Seq<char>) -> Seq<char> {
    request_key(uid, "_body"@)
}

/// The key under which something that belongs to a request is kept.
fn key(uid: &str, what: &str) -> (key: String)
    ensures
        key@ == request_key(uid@, what@),
{
    let mut key = "response_".to_owned();
    key.append(uid);
    key.append(what);
    key
}

/// The key of the name of the worker that is ready for the request.
pub fn ready_key(uid: &str) -> (key: String)
    ensures
        key@ == ready_key_of(uid@),
{
    key(uid, "_ready")
}

/// The key of the status of the response.
pub fn status_key(uid: &str) -> (key: String)
    ensures
        key@ == status_key_of(uid@),
{
    key(uid, "_status")
}

/// The key of the body of the response.
pub fn body_key(uid: &str) -> (key: String)
    ensures
        key@ == body_key_of(uid@),
{
    key(uid, "_body")
}

/// The changes by which a response is handed in.
pub open spec fn response_commands(
    uid: Seq<char>,
    status: u16,
    body: Seq<char>,
) -> Seq<CommandView> {
    seq![
        CommandView::Put { key: body_key_of(uid), value: body },
        CommandView::Expire { key: body_key_of(uid), seconds: CACHE_SECONDS },
        CommandView::Put { key: status_key_of(uid), value: decimal(status as nat) },
        CommandView::Expire { key: status_key_of(uid), seconds: CACHE_SECONDS },
    ]
}

/// The changes by which a worker says that it is ready.
pub open spec fn ready_commands(uid: Seq<char>, worker: Seq<char>) -> Seq<CommandView> {
    seq![
        CommandView::PutIfAbsent { key: ready_key_of(uid), value: worker },
        CommandView::Expire { key: ready_key_of(uid), seconds: CACHE_SECONDS },
    ]
}

/// Hands in a response. The body is there before the status, by which the response is found.
pub fn store_response(uid: &str, status: u16, body: String) -> (commands: Vec<CacheCommand>)
    ensures
        commands_view(commands@) == response_commands(uid@, status, body@),
{
    let mut status_text = String::new();
    push_decimal(&mut status_text, status as u64);
    let mut commands: Vec<CacheCommand> = Vec::new();
    commands.push(CacheCommand::Put { key: body_key(uid), value: body });
    commands.push(CacheCommand::Expire { key: body_key(uid), seconds: CACHE_SECONDS });
    commands.push(CacheCommand::Put { key: status_key(uid), value: status_text });
    commands.push(CacheCommand::Expire { key: status_key(uid), seconds: CACHE_SECONDS });
    assert(status_text@ =~= decimal(status as nat));
    assert(commands_view(commands@) =~= response_commands(uid@, status, body@));
    commands
}

/// Says that a worker is ready.
pub fn store_ready(uid: &str, worker: String) -> (commands: Vec<CacheCommand>)
    ensures
        commands_view(commands@) == ready_commands(uid@, worker@),
{
    let mut commands: Vec<CacheCommand> = Vec::new();
    commands.push(CacheCommand::PutIfAbsent { key: ready_key(uid), value: worker });
    commands.push(CacheCommand::Expire { key: ready_key(uid), seconds: CACHE_SECONDS });
    assert(commands_view(commands@) =~= ready_commands(uid@, worker@));
    commands
}

/// Two keys are the same only where both belong to the same request and hold the same thing.
pub proof fn keys_are_apart(uid: Seq<char>, other: Seq<char>)
    ensures
        ready_key_of(uid) != status_key_of(other),
        ready_key_of(uid) != body_key_of(other),
        status_key_of(uid) != body_key_of(other),
        ready_key_of(uid) == ready_key_of(other) ==> uid == other,
        status_key_of(uid) == status_key_of(other) ==> uid == other,
        body_key_of(uid) == body_key_of(other) ==> uid == other,
{
    reveal_strlit("response_");
    reveal_strlit("_ready");
    reveal_strlit("_status");
    reveal_strlit("_body");
    assert(ready_key_of(uid).last() == 'y');
    assert(status_key_of(uid).last() == 's');
    assert(status_key_of(other).last() == 's');
    assert(body_key_of(other).last() == 'y');
    let ready = ready_key_of(uid);
    let body = body_key_of(other);
    assert(ready[ready.len() - 5] == 'r');
    assert(body[body.len() - 5] == '_');
    if ready_key_of(uid) == ready_key_of(other) {
        lemma_same_uid(uid, other, "_ready"@);
    }
    if status_key_of(uid) == status_key_of(other) {
        lemma_same_uid(uid, other, "_status"@);
    }
    if body_key_of(uid) == body_key_of(other) {
        lemma_same_uid(uid, other, "_body"@);
    }
}

/// The request can be read off a key.
proof fn lemma_same_uid(uid: Seq<char>, other: Seq<char>, what: Seq<char>)
    requires
        request_key(uid, what) == request_key(other, what),
    ensures
        uid == other,
{
    let head = "response_"@.len() as int;
    let end = head + uid.len();
    assert(request_key(uid, what).len() == end + what.len());
    assert(request_key(other, what).len() == head + other.len() + what.len());
    assert(uid =~= request_key(uid, what).subrange(head, end));
    assert(other =~= request_key(other, what).subrange(head, end));
}

/// What is handed in as a response is what the cache then holds of it, and nothing else in the
/// cache changes.
pub proof fn a_stored_response_is_found(
    cache: CacheView,
    uid: Seq<char>,
    status: u16,
    body: Seq<char>,
)
    ensures
        effects(response_commands(uid, status, body), cache) == cache.insert(
            body_key_of(uid),
            body,
        ).insert(status_key_of(uid), decimal(status as nat)),
        effects(response_commands(uid, status, body), cache)[body_key_of(uid)] == body,
        effects(response_commands(uid, status, body), cache)[status_key_of(uid)] == decimal(
            status as nat,
        ),
{
    let all = response_commands(uid, status, body);
    reveal_with_fuel(effects, 5);
    assert(all.drop_last() =~= all.take(3));
    assert(all.take(3).drop_last() =~= all.take(2));
    assert(all.take(2).drop_last() =~= all.take(1));
    assert(all.take(1).drop_last() =~= all.take(0));
    keys_are_apart(uid, uid);
}

/// The first worker that says it is ready for a request keeps it, whoever says so later.
pub proof fn the_first_ready_worker_is_kept(
    cache: CacheView,
    uid: Seq<char>,
    first: Seq<char>,
    second: Seq<char>,
)
    requires
        !cache.contains_key(ready_key_of(uid)),
    ensures
        effects(ready_commands(uid, first), cache)[ready_key_of(uid)] == first,
        effects(ready_commands(uid, second), effects(ready_commands(uid, first), cache))
            == effects(ready_commands(uid, first), cache),
{
    let one = ready_commands(uid, first);
    let two = ready_commands(uid, second);
    reveal_with_fuel(effects, 3);
    assert(one.drop_last().drop_last() =~= Seq::<CommandView>::empty());
    assert(two.drop_last().drop_last() =~= Seq::<CommandView>::empty());
    assert(one.drop_last().last() == one[0]);
    assert(two.drop_last().last() == two[0]);
}

} // verus!

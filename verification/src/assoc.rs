//! Sequences of key and value, read as maps.

use vstd::prelude::*;

verus! {

/// No key stands at two places.
pub open spec fn keys_distinct<K, V>(entries: Seq<(K, V)>) -> bool {
    forall|i: int, j: int|
        #![trigger entries[i], entries[j]]
        0 <= i < entries.len() && 0 <= j < entries.len() && i != j ==> entries[i].0
            != entries[j].0
}

/// `key` stands at place `i`.
pub open spec fn key_at<K, V>(entries: Seq<(K, V)>, key: K, i: int) -> bool {
    0 <= i < entries.len() && entries[i].0 == key
}

/// `key` stands at some place.
pub open spec fn has_key<K, V>(entries: Seq<(K, V)>, key: K) -> bool {
    exists|i: int| #[trigger] key_at(entries, key, i)
}

/// The map that holds the value of each key.
pub open spec fn to_map<K, V>(entries: Seq<(K, V)>) -> Map<K, V> {
    Map::new(
        |key: K| has_key(entries, key),
        |key: K| entries[choose|i: int| #[trigger] key_at(entries, key, i)].1,
    )
}

/// The entry at a place is what the map holds for its key.
pub proof fn lemma_entry<K, V>(entries: Seq<(K, V)>, i: int)
    requires
        keys_distinct(entries),
        0 <= i < entries.len(),
    ensures
        to_map(entries).contains_key(entries[i].0),
        to_map(entries)[entries[i].0] == entries[i].1,
{
    assert(key_at(entries, entries[i].0, i));
    let j = choose|j: int| #[trigger] key_at(entries, entries[i].0, j);
    assert(key_at(entries, entries[i].0, j));
    assert(entries[i].0 == entries[j].0);
}

/// Every key of the map stands at a place.
pub proof fn lemma_place<K, V>(entries: Seq<(K, V)>, key: K) -> (i: int)
    requires
        keys_distinct(entries),
        to_map(entries).contains_key(key),
    ensures
        key_at(entries, key, i),
        to_map(entries)[key] == entries[i].1,
{
    let i = choose|i: int| #[trigger] key_at(entries, key, i);
    lemma_entry(entries, i);
    i
}

/// Appending an entry with a new key inserts it.
pub proof fn lemma_push<K, V>(entries: Seq<(K, V)>, entry: (K, V))
    requires
        keys_distinct(entries),
        !to_map(entries).contains_key(entry.0),
    ensures
        keys_distinct(entries.push(entry)),
        to_map(entries.push(entry)) == to_map(entries).insert(entry.0, entry.1),
{
    let longer = entries.push(entry);
    assert forall|i: int, j: int|
        #![trigger longer[i], longer[j]]
        0 <= i < longer.len() && 0 <= j < longer.len() && i != j implies longer[i].0
        != longer[j].0 by {
        assert(i < entries.len() ==> key_at(entries, longer[i].0, i));
        assert(j < entries.len() ==> key_at(entries, longer[j].0, j));
    }
    assert forall|key: K| #[trigger]
        to_map(longer).contains_key(key) == to_map(entries).insert(
            entry.0,
            entry.1,
        ).contains_key(key) by {
        if has_key(longer, key) {
            let i = choose|i: int| #[trigger] key_at(longer, key, i);
            assert(i < entries.len() ==> key_at(entries, key, i));
        }
        if has_key(entries, key) {
            let i = choose|i: int| #[trigger] key_at(entries, key, i);
            assert(key_at(longer, key, i));
        }
        assert(key_at(longer, entry.0, entries.len() as int));
    }
    assert forall|key: K| to_map(longer).contains_key(key) implies to_map(longer)[key] == to_map(
        entries,
    ).insert(entry.0, entry.1)[key] by {
        let i = lemma_place(longer, key);
        if i < entries.len() {
            lemma_entry(entries, i);
        }
    }
    assert(to_map(longer) =~= to_map(entries).insert(entry.0, entry.1));
}

/// Replacing the value at a place inserts it under the key that stands there.
pub proof fn lemma_update<K, V>(entries: Seq<(K, V)>, at: int, value: V)
    requires
        keys_distinct(entries),
        0 <= at < entries.len(),
    ensures
        keys_distinct(entries.update(at, (entries[at].0, value))),
        to_map(entries.update(at, (entries[at].0, value))) == to_map(entries).insert(
            entries[at].0,
            value,
        ),
{
    let changed = entries.update(at, (entries[at].0, value));
    assert forall|i: int, j: int|
        #![trigger changed[i], changed[j]]
        0 <= i < changed.len() && 0 <= j < changed.len() && i != j implies changed[i].0
        != changed[j].0 by {
        assert(entries[i].0 != entries[j].0);
    }
    assert forall|key: K| #[trigger]
        to_map(changed).contains_key(key) == to_map(entries).insert(
            entries[at].0,
            value,
        ).contains_key(key) by {
        if has_key(changed, key) {
            let i = choose|i: int| #[trigger] key_at(changed, key, i);
            assert(key_at(entries, key, i));
        }
        if has_key(entries, key) {
            let i = choose|i: int| #[trigger] key_at(entries, key, i);
            assert(key_at(changed, key, i));
        }
        assert(key_at(changed, entries[at].0, at));
    }
    assert forall|key: K| to_map(changed).contains_key(key) implies to_map(changed)[key] == to_map(
        entries,
    ).insert(entries[at].0, value)[key] by {
        let i = lemma_place(changed, key);
        lemma_entry(entries, i);
        if i != at {
            assert(entries[i].0 != entries[at].0);
        }
    }
    assert(to_map(changed) =~= to_map(entries).insert(entries[at].0, value));
}

/// Taking out a place removes the key that stands there.
pub proof fn lemma_remove<K, V>(entries: Seq<(K, V)>, at: int)
    requires
        keys_distinct(entries),
        0 <= at < entries.len(),
    ensures
        keys_distinct(entries.remove(at)),
        to_map(entries.remove(at)) == to_map(entries).remove(entries[at].0),
{
    let rest = entries.remove(at);
    assert forall|i: int, j: int|
        #![trigger rest[i], rest[j]]
        0 <= i < rest.len() && 0 <= j < rest.len() && i != j implies rest[i].0 != rest[j].0 by {
        let k = if i < at { i } else { i + 1 };
        let l = if j < at { j } else { j + 1 };
        assert(entries[k].0 != entries[l].0);
    }
    assert forall|key: K| #[trigger]
        to_map(rest).contains_key(key) == to_map(entries).remove(entries[at].0).contains_key(
            key,
        ) by {
        if has_key(rest, key) {
            let i = choose|i: int| #[trigger] key_at(rest, key, i);
            let k = if i < at { i } else { i + 1 };
            assert(key_at(entries, key, k));
            assert(entries[k].0 != entries[at].0);
        }
        if has_key(entries, key) && key != entries[at].0 {
            let i = choose|i: int| #[trigger] key_at(entries, key, i);
            let k = if i < at { i } else { i - 1 };
            assert(key_at(rest, key, k));
        }
    }
    assert forall|key: K| to_map(rest).contains_key(key) implies to_map(rest)[key] == to_map(
        entries,
    ).remove(entries[at].0)[key] by {
        let i = lemma_place(rest, key);
        let k = if i < at { i } else { i + 1 };
        lemma_entry(entries, k);
        assert(entries[k].0 != entries[at].0);
    }
    assert(to_map(rest) =~= to_map(entries).remove(entries[at].0));
}

/// The map has as many keys as there are entries.
pub proof fn lemma_count<K, V>(entries: Seq<(K, V)>)
    requires
        keys_distinct(entries),
    ensures
        to_map(entries).dom().finite(),
        to_map(entries).dom().len() == entries.len(),
    decreases entries.len(),
{
    if entries.len() == 0 {
        assert(to_map(entries).dom() =~= Set::<K>::empty());
    } else {
        let front = entries.drop_last();
        let last = entries.last();
        assert(entries =~= front.push(last));
        assert forall|i: int, j: int|
            #![trigger front[i], front[j]]
            0 <= i < front.len() && 0 <= j < front.len() && i != j implies front[i].0
            != front[j].0 by {
            assert(entries[i].0 != entries[j].0);
        }
        if has_key(front, last.0) {
            let i = choose|i: int| #[trigger] key_at(front, last.0, i);
            assert(entries[i].0 != entries[entries.len() - 1].0);
        }
        lemma_count(front);
        lemma_push(front, last);
        assert(to_map(entries).dom() =~= to_map(front).dom().insert(last.0));
    }
}

/// How many entries hold a value that fits.
pub open spec fn tally<K, V>(entries: Seq<(K, V)>, fits: spec_fn(V) -> bool) -> nat
    decreases entries.len(),
{
    if entries.len() == 0 {
        0
    } else {
        tally(entries.drop_last(), fits) + if fits(entries.last().1) {
            1nat
        } else {
            0nat
        }
    }
}

/// The keys of the map whose value fits.
pub open spec fn keys_where<K, V>(map: Map<K, V>, fits: spec_fn(V) -> bool) -> Set<K> {
    Set::new(|key: K| map.contains_key(key) && fits(map[key]))
}

/// The map has as many keys whose value fits as there are such entries.
pub proof fn lemma_tally<K, V>(entries: Seq<(K, V)>, fits: spec_fn(V) -> bool)
    requires
        keys_distinct(entries),
    ensures
        keys_where(to_map(entries), fits).finite(),
        keys_where(to_map(entries), fits).len() == tally(entries, fits),
    decreases entries.len(),
{
    if entries.len() == 0 {
        assert(keys_where(to_map(entries), fits) =~= Set::<K>::empty());
    } else {
        let front = entries.drop_last();
        let last = entries.last();
        assert(entries =~= front.push(last));
        assert forall|i: int, j: int|
            #![trigger front[i], front[j]]
            0 <= i < front.len() && 0 <= j < front.len() && i != j implies front[i].0
            != front[j].0 by {
            assert(entries[i].0 != entries[j].0);
        }
        if has_key(front, last.0) {
            let i = choose|i: int| #[trigger] key_at(front, last.0, i);
            assert(entries[i].0 != entries[entries.len() - 1].0);
        }
        lemma_tally(front, fits);
        lemma_push(front, last);
        let smaller = keys_where(to_map(front), fits);
        if fits(last.1) {
            assert(keys_where(to_map(entries), fits) =~= smaller.insert(last.0));
        } else {
            assert(keys_where(to_map(entries), fits) =~= smaller);
        }
    }
}

} // verus!

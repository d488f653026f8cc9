//! Finite maps kept as sequences of (key, value) pairs whose keys are distinct:
//! the model behind the storage's file table and the authenticator's user table.

use vstd::prelude::*;

verus! {

/// The views of `v`'s strings.
pub open spec fn string_views(v: Seq<String>) -> Seq<Seq<char>> {
    v.map_values(|s: String| s@)
}

/// `keys` names every key of `m`, each once.
pub open spec fn lists_keys_exactly<V>(m: Map<Seq<char>, V>, keys: Seq<Seq<char>>) -> bool {
    &&& forall|i: int| 0 <= i < keys.len() ==> #[trigger] m.contains_key(keys[i])
    &&& forall|k: Seq<char>| #[trigger]
        m.contains_key(k) ==> exists|i: int| 0 <= i < keys.len() && keys[i] == k
    &&& forall|i: int, j: int|
        0 <= i < keys.len() && 0 <= j < keys.len() && i != j ==> keys[i] != keys[j]
}

/// No key occurs twice in `entries`.
pub open spec fn keys_distinct<V>(entries: Seq<(Seq<char>, V)>) -> bool {
    forall|i: int, j: int|
        0 <= i < entries.len() && 0 <= j < entries.len() && i != j ==> entries[i].0
            != entries[j].0
}

/// The map that `entries` spells out.
pub open spec fn keyed_map<V>(entries: Seq<(Seq<char>, V)>) -> Map<Seq<char>, V> {
    Map::new(
        |k: Seq<char>| exists|i: int| 0 <= i < entries.len() && entries[i].0 == k,
        |k: Seq<char>| entries[choose|i: int| 0 <= i < entries.len() && entries[i].0 == k].1,
    )
}

pub proof fn lemma_keyed_at<V>(entries: Seq<(Seq<char>, V)>, i: int)
    requires
        keys_distinct(entries),
        0 <= i < entries.len(),
    ensures
        keyed_map(entries).contains_key(entries[i].0),
        keyed_map(entries)[entries[i].0] == entries[i].1,
{
    let k = entries[i].0;
    assert(keyed_map(entries).dom().contains(k));
    let j = choose|j: int| 0 <= j < entries.len() && entries[j].0 == k;
    assert(j == i);
}

pub proof fn lemma_keyed_remove<V>(entries: Seq<(Seq<char>, V)>, i: int)
    requires
        keys_distinct(entries),
        0 <= i < entries.len(),
    ensures
        keys_distinct(entries.remove(i)),
        keyed_map(entries.remove(i)) =~= keyed_map(entries).remove(entries[i].0),
{
    let t = entries.remove(i);
    let k0 = entries[i].0;
    assert forall|a: int, b: int| 0 <= a < t.len() && 0 <= b < t.len() && a != b implies t[a].0
        != t[b].0 by {
        let a2 = if a < i { a } else { a + 1 };
        let b2 = if b < i { b } else { b + 1 };
        assert(t[a] == entries[a2]);
        assert(t[b] == entries[b2]);
    }
    assert forall|k: Seq<char>| #[trigger]
        keyed_map(t).contains_key(k) <==> keyed_map(entries).remove(k0).contains_key(k) by {
        if keyed_map(t).contains_key(k) {
            let j = choose|j: int| 0 <= j < t.len() && t[j].0 == k;
            let j2 = if j < i { j } else { j + 1 };
            assert(t[j] == entries[j2]);
            assert(keyed_map(entries).contains_key(k));
        }
        if keyed_map(entries).remove(k0).contains_key(k) {
            let j = choose|j: int| 0 <= j < entries.len() && entries[j].0 == k;
            assert(j != i);
            let j2 = if j < i { j } else { j - 1 };
            assert(t[j2] == entries[j]);
            assert(keyed_map(t).contains_key(k));
        }
    }
    assert forall|k: Seq<char>| #[trigger]
        keyed_map(t).contains_key(k) implies keyed_map(t)[k] == keyed_map(entries)[k] by {
        let j = choose|j: int| 0 <= j < t.len() && t[j].0 == k;
        let j2 = if j < i { j } else { j + 1 };
        assert(t[j] == entries[j2]);
        lemma_keyed_at(t, j);
        lemma_keyed_at(entries, j2);
    }
}

pub proof fn lemma_keyed_update<V>(entries: Seq<(Seq<char>, V)>, i: int, e: (Seq<char>, V))
    requires
        keys_distinct(entries),
        0 <= i < entries.len(),
        e.0 == entries[i].0,
    ensures
        keys_distinct(entries.update(i, e)),
        keyed_map(entries.update(i, e)) =~= keyed_map(entries).insert(e.0, e.1),
{
    let t = entries.update(i, e);
    assert forall|k: Seq<char>| #[trigger]
        keyed_map(t).contains_key(k) <==> keyed_map(entries).insert(e.0, e.1).contains_key(k) by {
        if keyed_map(t).contains_key(k) {
            let j = choose|j: int| 0 <= j < t.len() && t[j].0 == k;
            if j != i {
                assert(keyed_map(entries).contains_key(k));
            }
        }
        if keyed_map(entries).contains_key(k) {
            let j = choose|j: int| 0 <= j < entries.len() && entries[j].0 == k;
            assert(t[j].0 == k);
        }
        if k == e.0 {
            assert(t[i].0 == k);
        }
    }
    assert forall|k: Seq<char>| #[trigger] keyed_map(t).contains_key(k) implies keyed_map(t)[k]
        == keyed_map(entries).insert(e.0, e.1)[k] by {
        let j = choose|j: int| 0 <= j < t.len() && t[j].0 == k;
        lemma_keyed_at(t, j);
        if j != i {
            lemma_keyed_at(entries, j);
        }
    }
}

pub proof fn lemma_keyed_push<V>(entries: Seq<(Seq<char>, V)>, e: (Seq<char>, V))
    requires
        keys_distinct(entries),
        !keyed_map(entries).contains_key(e.0),
    ensures
        keys_distinct(entries.push(e)),
        keyed_map(entries.push(e)) =~= keyed_map(entries).insert(e.0, e.1),
{
    let t = entries.push(e);
    let n = entries.len() as int;
    assert forall|a: int, b: int| 0 <= a < t.len() && 0 <= b < t.len() && a != b implies t[a].0
        != t[b].0 by {
        if a < n && b < n {
            assert(t[a] == entries[a] && t[b] == entries[b]);
        } else if a < n {
            assert(t[a] == entries[a]);
            assert(keyed_map(entries).contains_key(entries[a].0));
        } else {
            assert(t[b] == entries[b]);
            assert(keyed_map(entries).contains_key(entries[b].0));
        }
    }
    assert forall|k: Seq<char>| #[trigger]
        keyed_map(t).contains_key(k) <==> keyed_map(entries).insert(e.0, e.1).contains_key(k) by {
        if keyed_map(t).contains_key(k) {
            let j = choose|j: int| 0 <= j < t.len() && t[j].0 == k;
            if j < n {
                assert(t[j] == entries[j]);
                assert(keyed_map(entries).contains_key(k));
            }
        }
        if keyed_map(entries).contains_key(k) {
            let j = choose|j: int| 0 <= j < entries.len() && entries[j].0 == k;
            assert(t[j] == entries[j]);
        }
        if k == e.0 {
            assert(t[n].0 == k);
        }
    }
    assert forall|k: Seq<char>| #[trigger] keyed_map(t).contains_key(k) implies keyed_map(t)[k]
        == keyed_map(entries).insert(e.0, e.1)[k] by {
        let j = choose|j: int| 0 <= j < t.len() && t[j].0 == k;
        lemma_keyed_at(t, j);
        if j < n {
            assert(t[j] == entries[j]);
            lemma_keyed_at(entries, j);
        }
    }
}

/// The keys of `entries`, in their order, name every key of the map they
/// spell out, each once, and each entry's value is the map's value there.
pub proof fn lemma_keys_listed<V>(entries: Seq<(Seq<char>, V)>, keys: Seq<Seq<char>>)
    requires
        keys_distinct(entries),
        keys.len() == entries.len(),
        forall|i: int| 0 <= i < keys.len() ==> #[trigger] keys[i] == entries[i].0,
    ensures
        lists_keys_exactly(keyed_map(entries), keys),
        forall|i: int| 0 <= i < keys.len() ==> keyed_map(entries)[#[trigger] keys[i]] == entries[i].1,
{
    assert forall|i: int| 0 <= i < keys.len() implies #[trigger] keyed_map(entries).contains_key(
        keys[i],
    ) && keyed_map(entries)[keys[i]] == entries[i].1 by {
        lemma_keyed_at(entries, i);
    }
    assert forall|k: Seq<char>| #[trigger] keyed_map(entries).contains_key(k) implies exists|i: int|
        0 <= i < keys.len() && keys[i] == k by {
        let j = choose|j: int| 0 <= j < entries.len() && entries[j].0 == k;
        assert(keys[j] == k);
    }
    assert forall|i: int, j: int|
        0 <= i < keys.len() && 0 <= j < keys.len() && i != j implies keys[i] != keys[j] by {
        assert(keys[i] == entries[i].0);
        assert(keys[j] == entries[j].0);
    }
}

} // verus!

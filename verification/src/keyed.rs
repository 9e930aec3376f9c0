//! Sequences keyed by endpoint id, and the maps they stand for.
use vstd::prelude::*;

use crate::endpoint::ClientEndpointId;

verus! {

/// The last position of `id` in `keys`, or `-1` when it does not occur.
pub open spec fn key_index(keys: Seq<ClientEndpointId>, id: ClientEndpointId) -> int
    decreases keys.len(),
{
    if keys.len() == 0 {
        -1
    } else if keys.last() == id {
        keys.len() - 1
    } else {
        key_index(keys.drop_last(), id)
    }
}

/// No id occurs twice in `keys`.
pub open spec fn unique_keys(keys: Seq<ClientEndpointId>) -> bool {
    forall|i: int, j: int|
        0 <= i < keys.len() && 0 <= j < keys.len() && i != j ==> #[trigger] keys[i] != #[trigger] keys[j]
}

/// The map that pairs each key of `keys` with the value at its position in `vals`.
pub open spec fn keyed_map<V>(keys: Seq<ClientEndpointId>, vals: Seq<V>) -> Map<ClientEndpointId, V> {
    Map::new(|id: ClientEndpointId| key_index(keys, id) >= 0, |id: ClientEndpointId| vals[key_index(keys, id)])
}

/// The value at `k` in `m`, if any.
pub open spec fn opt_get<V>(m: Map<ClientEndpointId, V>, k: ClientEndpointId) -> Option<V> {
    if m.dom().contains(k) {
        Some(m[k])
    } else {
        None
    }
}

pub proof fn lemma_key_index(keys: Seq<ClientEndpointId>, id: ClientEndpointId)
    ensures
        -1 <= key_index(keys, id) < keys.len(),
        key_index(keys, id) >= 0 ==> keys[key_index(keys, id)] == id,
        key_index(keys, id) == -1 ==> forall|i: int| 0 <= i < keys.len() ==> keys[i] != id,
    decreases keys.len(),
{
    if keys.len() > 0 && keys.last() != id {
        lemma_key_index(keys.drop_last(), id);
        if key_index(keys, id) == -1 {
            assert forall|i: int| 0 <= i < keys.len() implies keys[i] != id by {
                if i < keys.len() - 1 {
                    assert(keys.drop_last()[i] == keys[i]);
                }
            }
        }
    }
}

pub proof fn lemma_key_index_unique(keys: Seq<ClientEndpointId>, id: ClientEndpointId, i: int)
    requires
        unique_keys(keys),
        0 <= i < keys.len(),
        keys[i] == id,
    ensures
        key_index(keys, id) == i,
{
    lemma_key_index(keys, id);
}

/// Positions and map membership agree, for every key.
pub proof fn lemma_keyed_map<V>(keys: Seq<ClientEndpointId>, vals: Seq<V>)
    requires
        unique_keys(keys),
    ensures
        forall|i: int|
            0 <= i < keys.len() ==> #[trigger] keyed_map(keys, vals).dom().contains(keys[i])
                && keyed_map(keys, vals)[keys[i]] == vals[i],
        forall|id: ClientEndpointId|
            #[trigger] keyed_map(keys, vals).dom().contains(id) <==> key_index(keys, id) >= 0,
{
    assert forall|i: int| 0 <= i < keys.len() implies #[trigger] keyed_map(keys, vals).dom().contains(
        keys[i],
    ) && keyed_map(keys, vals)[keys[i]] == vals[i] by {
        lemma_key_index_unique(keys, keys[i], i);
    }
}

pub proof fn lemma_keyed_map_push<V>(keys: Seq<ClientEndpointId>, vals: Seq<V>, id: ClientEndpointId, v: V)
    requires
        unique_keys(keys),
        keys.len() == vals.len(),
        key_index(keys, id) == -1,
    ensures
        unique_keys(keys.push(id)),
        keyed_map(keys.push(id), vals.push(v)) == keyed_map(keys, vals).insert(id, v),
{
    lemma_key_index(keys, id);
    let nk = keys.push(id);
    assert(unique_keys(nk)) by {
        assert forall|i: int, j: int| 0 <= i < nk.len() && 0 <= j < nk.len() && i != j implies #[trigger] nk[i]
            != #[trigger] nk[j] by {
            if i < keys.len() && j < keys.len() {
                assert(nk[i] == keys[i] && nk[j] == keys[j]);
            }
        }
    }
    assert forall|k: ClientEndpointId| #[trigger] key_index(nk, k) == if k == id { keys.len() as int } else {
        key_index(keys, k)
    } by {
        lemma_key_index(keys, k);
        if k == id {
            lemma_key_index_unique(nk, k, keys.len() as int);
        } else if key_index(keys, k) >= 0 {
            lemma_key_index_unique(nk, k, key_index(keys, k));
        } else {
            lemma_key_index(nk, k);
            if key_index(nk, k) >= 0 {
                assert(nk[key_index(nk, k)] == k);
                if key_index(nk, k) < keys.len() {
                    assert(keys[key_index(nk, k)] == k);
                }
            }
        }
    }
    let nv = vals.push(v);
    assert forall|k: ClientEndpointId| #[trigger] keyed_map(nk, nv).dom().contains(k) implies keyed_map(nk, nv)[k]
        == keyed_map(keys, vals).insert(id, v)[k] by {
        lemma_key_index(keys, k);
        assert(key_index(nk, k) == if k == id { keys.len() as int } else { key_index(keys, k) });
        if k != id {
            assert(nv[key_index(keys, k)] == vals[key_index(keys, k)]);
        }
    }
    assert(keyed_map(nk, nv) =~= keyed_map(keys, vals).insert(id, v));
}

pub proof fn lemma_keyed_map_update<V>(keys: Seq<ClientEndpointId>, vals: Seq<V>, i: int, v: V)
    requires
        unique_keys(keys),
        keys.len() == vals.len(),
        0 <= i < keys.len(),
    ensures
        keyed_map(keys, vals.update(i, v)) == keyed_map(keys, vals).insert(keys[i], v),
{
    assert forall|k: ClientEndpointId| #[trigger] keyed_map(keys, vals.update(i, v)).dom().contains(k)
        == keyed_map(keys, vals).insert(keys[i], v).dom().contains(k) by {
        lemma_key_index(keys, k);
        lemma_key_index_unique(keys, keys[i], i);
    }
    assert forall|k: ClientEndpointId| #[trigger] keyed_map(keys, vals.update(i, v)).dom().contains(k)
        implies keyed_map(keys, vals.update(i, v))[k] == keyed_map(keys, vals).insert(keys[i], v)[k] by {
        lemma_key_index(keys, k);
        lemma_key_index_unique(keys, keys[i], i);
        if k != keys[i] {
            assert(key_index(keys, k) != i);
        }
    }
    assert(keyed_map(keys, vals.update(i, v)) =~= keyed_map(keys, vals).insert(keys[i], v));
}

pub proof fn lemma_keyed_map_remove<V>(keys: Seq<ClientEndpointId>, vals: Seq<V>, i: int)
    requires
        unique_keys(keys),
        keys.len() == vals.len(),
        0 <= i < keys.len(),
    ensures
        unique_keys(keys.remove(i)),
        keyed_map(keys.remove(i), vals.remove(i)) == keyed_map(keys, vals).remove(keys[i]),
{
    let nk = keys.remove(i);
    let nv = vals.remove(i);
    assert forall|a: int| 0 <= a < nk.len() implies #[trigger] nk[a] == keys[if a < i { a } else { a + 1 }] by {
    }
    assert(unique_keys(nk)) by {
        assert forall|a: int, b: int| 0 <= a < nk.len() && 0 <= b < nk.len() && a != b implies #[trigger] nk[a]
            != #[trigger] nk[b] by {
            assert(nk[a] == keys[if a < i { a } else { a + 1 }]);
            assert(nk[b] == keys[if b < i { b } else { b + 1 }]);
        }
    }
    assert forall|k: ClientEndpointId| #[trigger] keyed_map(nk, nv).dom().contains(k) == keyed_map(
        keys,
        vals,
    ).remove(keys[i]).dom().contains(k) by {
        lemma_key_index(keys, k);
        lemma_key_index(nk, k);
        if key_index(nk, k) >= 0 {
            let a = key_index(nk, k);
            assert(nk[a] == keys[if a < i { a } else { a + 1 }]);
            lemma_key_index_unique(keys, k, if a < i { a } else { a + 1 });
        } else if key_index(keys, k) >= 0 && k != keys[i] {
            let b = key_index(keys, k);
            if b < i {
                assert(nk[b] == keys[b]);
            } else {
                assert(b != i);
                assert(nk[b - 1] == keys[b]);
            }
        }
    }
    assert forall|k: ClientEndpointId| #[trigger] keyed_map(nk, nv).dom().contains(k) implies keyed_map(
        nk,
        nv,
    )[k] == keyed_map(keys, vals).remove(keys[i])[k] by {
        lemma_key_index(nk, k);
        let a = key_index(nk, k);
        assert(nk[a] == keys[if a < i { a } else { a + 1 }]);
        lemma_key_index_unique(keys, k, if a < i { a } else { a + 1 });
    }
    assert(keyed_map(nk, nv) =~= keyed_map(keys, vals).remove(keys[i]));
}

} // verus!

//! The pane surface the endpoint sends, and the signature of its topology: which
//! panes it holds and how it is split, regardless of the order they are listed in.
use vstd::prelude::*;
use vstd::relations::{sorted_by, total_ordering};
use vstd::seq_lib::lemma_sorted_unique;
use vstd::utf8::encode_utf8;

use crate::geometry::Rect;
use crate::lexicographic::{bool_lt, bools_compare, bytes_le, bytes_le_exec, lemma_bool_lt_strict, lemma_bytes_le_total, lemma_lex_total, lex_le};

verus! {

/// The FNV-1a offset basis.
pub const FNV_OFFSET: u64 = 0xcbf2_9ce4_8422_2325;
/// The FNV-1a prime.
pub const FNV_PRIME: u64 = 0x0000_0100_0000_01b3;

/// How a split divides its area.
#[derive(Clone, Copy, Debug, PartialEq, Eq, Structural)]
pub enum PaneSurfaceSplitDirection {
    Horizontal,
    Vertical,
}

/// One split of the pane tree, found by its path from the root (`false` for the
/// first child, `true` for the second).
#[derive(Clone, Debug)]
pub struct PaneSurfaceSplit {
    pub direction: PaneSurfaceSplitDirection,
    pub path: Vec<bool>,
}

/// One pane of the surface.
#[derive(Clone, Debug)]
pub struct PaneSurfacePane {
    pub pane_id: String,
    pub rect: Rect,
    pub inner_rect: Rect,
    pub scrollbar_rect: Option<Rect>,
    pub focused: bool,
    pub mouse_reporting: bool,
    pub sgr_pixel_mouse: bool,
    pub pixel_width: u32,
    pub pixel_height: u32,
}

/// The pane surface of the focused tab, as the endpoint projected it.
#[derive(Clone, Debug)]
pub struct PaneSurfaceFrame {
    /// The snapshot revision the surface belongs to.
    pub projection_revision: u64,
    pub panes: Vec<PaneSurfacePane>,
    pub splits: Vec<PaneSurfaceSplit>,
}

/// `x * y`, wrapped to 64 bits.
pub open spec fn mul_wrap(x: u64, y: u64) -> u64 {
    ((x as nat * y as nat) % 0x1_0000_0000_0000_0000) as u64
}

/// The FNV-1a state after the bytes `bs`.
pub open spec fn fnv_bytes(h: u64, bs: Seq<u8>) -> u64
    decreases bs.len(),
{
    if bs.len() == 0 {
        h
    } else {
        mul_wrap(fnv_bytes(h, bs.drop_last()) ^ (bs.last() as u64), FNV_PRIME)
    }
}

/// The state after one field `bs` and its terminator.
pub open spec fn fnv_write(h: u64, bs: Seq<u8>) -> u64 {
    mul_wrap(fnv_bytes(h, bs) ^ 0xff, FNV_PRIME)
}

/// The state after the fields `items`, in order.
pub open spec fn fnv_write_all(h: u64, items: Seq<Seq<u8>>) -> u64
    decreases items.len(),
{
    if items.len() == 0 {
        h
    } else {
        fnv_write(fnv_write_all(h, items.drop_last()), items.last())
    }
}

/// The byte of a split direction.
pub open spec fn direction_byte(d: PaneSurfaceSplitDirection) -> u8 {
    match d {
        PaneSurfaceSplitDirection::Horizontal => 0,
        PaneSurfaceSplitDirection::Vertical => 1,
    }
}

/// The bytes of a split path.
pub open spec fn path_bytes(path: Seq<bool>) -> Seq<u8> {
    path.map_values(|b: bool| if b { 1u8 } else { 0u8 })
}

/// The state after the splits `ss`, each written as its direction then its path.
pub open spec fn fnv_write_splits(h: u64, ss: Seq<PaneSurfaceSplit>) -> u64
    decreases ss.len(),
{
    if ss.len() == 0 {
        h
    } else {
        let s = ss.last();
        fnv_write(fnv_write(fnv_write_splits(h, ss.drop_last()), seq![direction_byte(s.direction)]), path_bytes(s.path@))
    }
}

/// The UTF-8 bytes of the pane ids of `frame`, in listed order.
pub open spec fn pane_id_bytes(panes: Seq<PaneSurfacePane>) -> Seq<Seq<u8>> {
    panes.map_values(|p: PaneSurfacePane| encode_utf8(p.pane_id@))
}

/// The order splits are written in: by path, and in listed order where paths tie.
pub open spec fn split_key_le() -> spec_fn((Seq<bool>, int), (Seq<bool>, int)) -> bool {
    |a: (Seq<bool>, int), b: (Seq<bool>, int)|
        (lex_le(a.0, b.0, bool_lt()) && a.0 != b.0) || (a.0 == b.0 && a.1 <= b.1)
}

/// Each split's path and its position in the list.
pub open spec fn split_keys(ss: Seq<PaneSurfaceSplit>) -> Seq<(Seq<bool>, int)> {
    Seq::new(ss.len(), |k: int| (ss[k].path@, k))
}

/// The splits in the order they are written.
pub open spec fn sorted_splits(ss: Seq<PaneSurfaceSplit>) -> Seq<PaneSurfaceSplit> {
    split_keys(ss).sort_by(split_key_le()).map_values(|key: (Seq<bool>, int)| ss[key.1])
}

/// The signature of a surface's topology: FNV-1a over its pane ids in byte order,
/// then its splits by path, each field terminated by `0xff`.
pub open spec fn spec_topology_signature(frame: PaneSurfaceFrame) -> u64 {
    fnv_write_splits(
        fnv_write_all(FNV_OFFSET, pane_id_bytes(frame.panes@).sort_by(bytes_le())),
        sorted_splits(frame.splits@),
    )
}

proof fn lemma_split_key_le_total()
    ensures
        total_ordering(split_key_le()),
{
    lemma_bool_lt_strict();
    lemma_lex_total(bool_lt());
    let lex = |a: Seq<bool>, b: Seq<bool>| lex_le(a, b, bool_lt());
    let le = split_key_le();
    assert forall|a: (Seq<bool>, int), b: (Seq<bool>, int)| #[trigger] le(a, b) && #[trigger] le(b, a) implies a == b by {
        if a.0 != b.0 {
            assert(lex(a.0, b.0) && lex(b.0, a.0));
        }
    }
    assert forall|a: (Seq<bool>, int), b: (Seq<bool>, int), c: (Seq<bool>, int)|
        #[trigger] le(a, b) && #[trigger] le(b, c) implies le(a, c) by {
        if a.0 != b.0 && b.0 != c.0 {
            assert(lex(a.0, b.0) && lex(b.0, c.0));
            assert(lex(a.0, c.0));
            if a.0 == c.0 {
                assert(lex(b.0, a.0));
            }
        }
    }
    assert forall|a: (Seq<bool>, int), b: (Seq<bool>, int)| #[trigger] le(a, b) || #[trigger] le(b, a) by {
        assert(lex(a.0, b.0) || lex(b.0, a.0));
    }
}

/// Feeds `bs` and a terminator into the FNV-1a state `h`.
fn fnv_write_exec(h: u64, bs: &[u8]) -> (r: u64)
    ensures
        r == fnv_write(h, bs@),
{
    let mut hash = h;
    let mut i: usize = 0;
    while i < bs.len()
        invariant
            i <= bs@.len(),
            hash == fnv_bytes(h, bs@.take(i as int)),
        decreases bs@.len() - i,
    {
        assert(bs@.take(i as int + 1).drop_last() =~= bs@.take(i as int));
        hash = (hash ^ (bs[i] as u64)).wrapping_mul(FNV_PRIME);
        i = i + 1;
    }
    assert(bs@.take(bs@.len() as int) =~= bs@);
    (hash ^ 0xff).wrapping_mul(FNV_PRIME)
}

/// The pane ids of `panes`, as UTF-8 bytes, in byte order.
fn sorted_pane_ids(panes: &Vec<PaneSurfacePane>) -> (r: Vec<&[u8]>)
    ensures
        r@.map_values(|s: &[u8]| s@) == pane_id_bytes(panes@).sort_by(bytes_le()),
{
    let ghost ids = pane_id_bytes(panes@);
    let mut sorted: Vec<&[u8]> = Vec::new();
    proof {
        lemma_bytes_le_total();
        assert(sorted@.map_values(|s: &[u8]| s@) =~= Seq::<Seq<u8>>::empty());
        assert(ids.take(0) =~= Seq::<Seq<u8>>::empty());
    }
    let mut i: usize = 0;
    while i < panes.len()
        invariant
            i <= panes@.len(),
            ids == pane_id_bytes(panes@),
            total_ordering(bytes_le()),
            sorted_by(sorted@.map_values(|s: &[u8]| s@), bytes_le()),
            sorted@.map_values(|s: &[u8]| s@).to_multiset() == ids.take(i as int).to_multiset(),
        decreases panes@.len() - i,
    {
        let x: &[u8] = panes[i].pane_id.as_str().as_bytes();
        assert(x@ == ids[i as int]);
        let ghost sv = sorted@.map_values(|s: &[u8]| s@);
        let mut pos: usize = 0;
        while pos < sorted.len() && bytes_le_exec(sorted[pos], x)
            invariant
                pos <= sorted@.len(),
                sv == sorted@.map_values(|s: &[u8]| s@),
                forall|k: int| 0 <= k < pos ==> (bytes_le())(#[trigger] sv[k], x@),
            decreases sorted@.len() - pos,
        {
            pos = pos + 1;
        }
        proof {
            if pos < sv.len() {
                assert(!(bytes_le())(sv[pos as int], x@));
                assert((bytes_le())(x@, sv[pos as int]));
            }
            let nv = sv.insert(pos as int, x@);
            assert forall|a: int, b: int| 0 <= a < b < nv.len() implies (bytes_le())(#[trigger] nv[a], #[trigger] nv[b]) by {
                if b < pos {
                    assert(nv[a] == sv[a] && nv[b] == sv[b]);
                } else if b == pos {
                    assert(nv[a] == sv[a]);
                } else if a < pos {
                    assert(nv[a] == sv[a] && nv[b] == sv[b - 1]);
                    assert((bytes_le())(sv[a], sv[b - 1]) || a == b - 1);
                } else if a == pos {
                    assert(nv[b] == sv[b - 1]);
                    if b - 1 > pos {
                        assert((bytes_le())(sv[pos as int], sv[b - 1]));
                    }
                } else {
                    assert(nv[a] == sv[a - 1] && nv[b] == sv[b - 1]);
                }
            }
            assert(ids.take(i as int + 1) =~= ids.take(i as int).push(ids[i as int]));
            vstd::seq_lib::to_multiset_insert(sv, pos as int, x@);
            vstd::seq_lib::to_multiset_build(ids.take(i as int), ids[i as int]);
        }
        sorted.insert(pos, x);
        assert(sorted@.map_values(|s: &[u8]| s@) =~= sv.insert(pos as int, x@));
        i = i + 1;
    }
    proof {
        assert(ids.take(panes@.len() as int) =~= ids);
        ids.lemma_sort_by_ensures(bytes_le());
        lemma_sorted_unique(sorted@.map_values(|s: &[u8]| s@), ids.sort_by(bytes_le()), bytes_le());
    }
    sorted
}

/// The keys of the splits listed at `order`.
pub open spec fn keys_at(ss: Seq<PaneSurfaceSplit>, order: Seq<usize>) -> Seq<(Seq<bool>, int)> {
    order.map_values(|j: usize| (ss[j as int].path@, j as int))
}

/// The positions of `splits` in the order they are written: by path, and in
/// listed order where paths tie.
fn sorted_split_order(splits: &Vec<PaneSurfaceSplit>) -> (r: Vec<usize>)
    ensures
        keys_at(splits@, r@) == split_keys(splits@).sort_by(split_key_le()),
        forall|k: int| 0 <= k < r@.len() ==> r@[k] < splits@.len(),
{
    let ghost keys = split_keys(splits@);
    let mut sorted: Vec<usize> = Vec::new();
    proof {
        lemma_split_key_le_total();
        assert(keys_at(splits@, sorted@) =~= Seq::<(Seq<bool>, int)>::empty());
        assert(keys.take(0) =~= Seq::<(Seq<bool>, int)>::empty());
    }
    let mut k: usize = 0;
    while k < splits.len()
        invariant
            k <= splits@.len(),
            keys == split_keys(splits@),
            total_ordering(split_key_le()),
            forall|q: int| 0 <= q < sorted@.len() ==> sorted@[q] < k,
            sorted_by(keys_at(splits@, sorted@), split_key_le()),
            keys_at(splits@, sorted@).to_multiset() == keys.take(k as int).to_multiset(),
        decreases splits@.len() - k,
    {
        let ghost kv = keys_at(splits@, sorted@);
        let ghost key = (splits@[k as int].path@, k as int);
        let path = splits[k].path.as_slice();
        let mut pos: usize = 0;
        while pos < sorted.len() && bools_compare(splits[sorted[pos]].path.as_slice(), path).0
            invariant
                pos <= sorted@.len(),
                kv == keys_at(splits@, sorted@),
                key == (splits@[k as int].path@, k as int),
                path@ == splits@[k as int].path@,
                forall|q: int| 0 <= q < sorted@.len() ==> sorted@[q] < k,
                k < splits@.len(),
                forall|q: int| 0 <= q < pos ==> (split_key_le())(#[trigger] kv[q], key),
            decreases sorted@.len() - pos,
        {
            assert(kv[pos as int] == (splits@[sorted@[pos as int] as int].path@, sorted@[pos as int] as int));
            pos = pos + 1;
        }
        proof {
            lemma_bool_lt_strict();
            lemma_lex_total(bool_lt());
            if pos < kv.len() {
                assert(kv[pos as int] == (splits@[sorted@[pos as int] as int].path@, sorted@[pos as int] as int));
                assert(!lex_le(kv[pos as int].0, key.0, bool_lt()));
                let lex = |a: Seq<bool>, b: Seq<bool>| lex_le(a, b, bool_lt());
                assert(lex(key.0, kv[pos as int].0) || lex(kv[pos as int].0, key.0));
                assert((split_key_le())(key, kv[pos as int]));
            }
            let nv = kv.insert(pos as int, key);
            assert forall|a: int, b: int| 0 <= a < b < nv.len() implies (split_key_le())(#[trigger] nv[a], #[trigger] nv[b]) by {
                if b < pos {
                    assert(nv[a] == kv[a] && nv[b] == kv[b]);
                } else if b == pos {
                    assert(nv[a] == kv[a]);
                } else if a < pos {
                    assert(nv[a] == kv[a] && nv[b] == kv[b - 1]);
                    assert((split_key_le())(kv[a], kv[b - 1]) || a == b - 1);
                } else if a == pos {
                    assert(nv[b] == kv[b - 1]);
                    if b - 1 > pos {
                        assert((split_key_le())(kv[pos as int], kv[b - 1]));
                    }
                } else {
                    assert(nv[a] == kv[a - 1] && nv[b] == kv[b - 1]);
                }
            }
            assert(keys.take(k as int + 1) =~= keys.take(k as int).push(keys[k as int]));
            vstd::seq_lib::to_multiset_insert(kv, pos as int, key);
            vstd::seq_lib::to_multiset_build(keys.take(k as int), keys[k as int]);
        }
        sorted.insert(pos, k);
        assert(keys_at(splits@, sorted@) =~= kv.insert(pos as int, key));
        k = k + 1;
    }
    proof {
        assert(keys.take(splits@.len() as int) =~= keys);
        keys.lemma_sort_by_ensures(split_key_le());
        lemma_sorted_unique(keys_at(splits@, sorted@), keys.sort_by(split_key_le()), split_key_le());
    }
    sorted
}

/// The bytes of a split path.
fn path_byte_vec(path: &[bool]) -> (r: Vec<u8>)
    ensures
        r@ == path_bytes(path@),
{
    let mut out: Vec<u8> = Vec::new();
    let mut i: usize = 0;
    while i < path.len()
        invariant
            i <= path@.len(),
            out@ == path_bytes(path@.take(i as int)),
        decreases path@.len() - i,
    {
        out.push(if path[i] {
            1u8
        } else {
            0u8
        });
        i = i + 1;
        assert(path_bytes(path@.take(i as int)) =~= path_bytes(path@.take(i - 1)).push(
            if path@[i - 1] { 1u8 } else { 0u8 },
        ));
    }
    assert(path@.take(path@.len() as int) =~= path@);
    out
}

/// The signature of a surface's topology: FNV-1a over its pane ids in byte order,
/// then over its splits by path (listed order where paths tie), each written as its
/// direction then its path, every field terminated by `0xff`. Two surfaces that list
/// the same panes in another order get the same signature.
pub fn pane_surface_topology_signature(surface: &PaneSurfaceFrame) -> (r: u64)
    ensures
        r == spec_topology_signature(*surface),
{
    let ids = sorted_pane_ids(&surface.panes);
    let ghost idv = ids@.map_values(|s: &[u8]| s@);
    let mut hash: u64 = FNV_OFFSET;
    let mut i: usize = 0;
    assert(idv.take(0) =~= Seq::<Seq<u8>>::empty());
    while i < ids.len()
        invariant
            i <= ids@.len(),
            idv == ids@.map_values(|s: &[u8]| s@),
            hash == fnv_write_all(FNV_OFFSET, idv.take(i as int)),
        decreases ids@.len() - i,
    {
        assert(idv.take(i as int + 1).drop_last() =~= idv.take(i as int));
        hash = fnv_write_exec(hash, ids[i]);
        i = i + 1;
    }
    assert(idv.take(ids@.len() as int) =~= idv);
    let ghost h0 = hash;
    let order = sorted_split_order(&surface.splits);
    let ghost ss = sorted_splits(surface.splits@);
    proof {
        assert forall|k: int| 0 <= k < order@.len() implies ss[k] == surface.splits@[order@[k] as int] by {
            assert(keys_at(surface.splits@, order@)[k].1 == order@[k] as int);
        }
    }
    let mut k: usize = 0;
    assert(ss.take(0) =~= Seq::<PaneSurfaceSplit>::empty());
    while k < order.len()
        invariant
            k <= order@.len(),
            ss == sorted_splits(surface.splits@),
            ss.len() == order@.len(),
            forall|q: int| 0 <= q < order@.len() ==> order@[q] < surface.splits@.len(),
            forall|q: int| 0 <= q < order@.len() ==> ss[q] == surface.splits@[order@[q] as int],
            hash == fnv_write_splits(h0, ss.take(k as int)),
        decreases order@.len() - k,
    {
        let split = &surface.splits[order[k]];
        assert(ss.take(k as int + 1).drop_last() =~= ss.take(k as int));
        let direction: Vec<u8> = vec![match split.direction {
            PaneSurfaceSplitDirection::Horizontal => 0u8,
            PaneSurfaceSplitDirection::Vertical => 1u8,
        }];
        assert(direction@ =~= seq![direction_byte(split.direction)]);
        hash = fnv_write_exec(hash, direction.as_slice());
        let path = path_byte_vec(split.path.as_slice());
        hash = fnv_write_exec(hash, path.as_slice());
        k = k + 1;
    }
    assert(ss.take(order@.len() as int) =~= ss);
    hash
}

/// The signature does not depend on the order the panes are listed in: surfaces
/// with the same pane ids (as a multiset) and the same splits sign alike.
pub proof fn lemma_signature_ignores_pane_order(f: PaneSurfaceFrame, g: PaneSurfaceFrame)
    requires
        pane_id_bytes(f.panes@).to_multiset() == pane_id_bytes(g.panes@).to_multiset(),
        f.splits@ == g.splits@,
    ensures
        spec_topology_signature(f) == spec_topology_signature(g),
{
    lemma_bytes_le_total();
    let a = pane_id_bytes(f.panes@);
    let b = pane_id_bytes(g.panes@);
    a.lemma_sort_by_ensures(bytes_le());
    b.lemma_sort_by_ensures(bytes_le());
    lemma_sorted_unique(a.sort_by(bytes_le()), b.sort_by(bytes_le()), bytes_le());
}


/// A split as the signature sees it: its path and its direction's byte.
pub open spec fn split_pair(s: PaneSurfaceSplit) -> (Seq<bool>, int) {
    (s.path@, direction_byte(s.direction) as int)
}

/// Whether no two of `ss` share a path.
pub open spec fn distinct_paths(ss: Seq<PaneSurfaceSplit>) -> bool {
    forall|a: int, b: int| 0 <= a < b < ss.len() ==> ss[a].path@ != ss[b].path@
}

proof fn lemma_map_keeps_multiset<A, B>(a: Seq<A>, b: Seq<A>, f: spec_fn(A) -> B)
    requires
        a.to_multiset() == b.to_multiset(),
    ensures
        a.map_values(f).to_multiset() == b.map_values(f).to_multiset(),
    decreases a.len(),
{
    broadcast use vstd::seq_lib::group_to_multiset_ensures;
    broadcast use vstd::multiset::group_multiset_axioms;

    if a.len() == 0 {
        assert(a.to_multiset().len() == a.len());
        assert(b.to_multiset().len() == b.len());
        assert(b.len() == 0);
        assert(a.map_values(f) =~= Seq::<B>::empty());
        assert(b.map_values(f) =~= Seq::<B>::empty());
    } else {
        let x = a.last();
        assert(a.contains(x)) by {
            assert(a[a.len() - 1] == x);
        }
        assert(b.to_multiset().count(x) > 0);
        assert(b.contains(x));
        let i = choose|i: int| 0 <= i < b.len() && b[i] == x;
        assert(a.drop_last().push(x) =~= a);
        assert(a.drop_last().to_multiset() =~= a.to_multiset().remove(x));
        assert(b.remove(i).to_multiset() == b.to_multiset().remove(x));
        lemma_map_keeps_multiset(a.drop_last(), b.remove(i), f);
        assert(a.map_values(f) =~= a.drop_last().map_values(f).push(f(x)));
        assert(b.map_values(f) =~= b.remove(i).map_values(f).insert(i, f(x)));
    }
}

/// The splits in written order, as the signature sees them, are sorted by
/// path (then direction) and are the splits' own pairs in some order.
proof fn lemma_sorted_pairs(ss: Seq<PaneSurfaceSplit>)
    requires
        distinct_paths(ss),
    ensures
        sorted_by(sorted_splits(ss).map_values(|s: PaneSurfaceSplit| split_pair(s)), split_key_le()),
        sorted_splits(ss).map_values(|s: PaneSurfaceSplit| split_pair(s)).to_multiset() == ss.map_values(
            |s: PaneSurfaceSplit| split_pair(s),
        ).to_multiset(),
{
    lemma_split_key_le_total();
    let keys = split_keys(ss);
    let sorted = keys.sort_by(split_key_le());
    keys.lemma_sort_by_ensures(split_key_le());
    let pick = |key: (Seq<bool>, int)| split_pair(ss[key.1]);
    let pairs = sorted_splits(ss).map_values(|s: PaneSurfaceSplit| split_pair(s));
    assert(pairs =~= sorted.map_values(pick));
    assert(keys.map_values(pick) =~= ss.map_values(|s: PaneSurfaceSplit| split_pair(s)));
    lemma_map_keeps_multiset(sorted, keys, pick);
    assert forall|k: int| 0 <= k < sorted.len() implies #[trigger] keys.contains(sorted[k]) && sorted[k] == (
        ss[sorted[k].1].path@,
        sorted[k].1,
    ) && 0 <= sorted[k].1 < ss.len() by {
        assert(sorted.contains(sorted[k]));
        if !keys.contains(sorted[k]) {
            assert(!sorted.contains(sorted[k]));
        }
        let j = choose|j: int| 0 <= j < keys.len() && keys[j] == sorted[k];
        assert(keys[j] == (ss[j].path@, j));
    }
    let le = split_key_le();
    assert forall|a: int, b: int| 0 <= a < b < pairs.len() implies le(#[trigger] pairs[a], #[trigger] pairs[b]) by {
        assert(keys.contains(sorted[a]) && keys.contains(sorted[b]));
        assert(le(sorted[a], sorted[b]));
        let ia = sorted[a].1;
        let ib = sorted[b].1;
        if ia != ib {
            if ia < ib {
                assert(ss[ia].path@ != ss[ib].path@);
            } else {
                assert(ss[ib].path@ != ss[ia].path@);
            }
        }
    }
}

proof fn lemma_splits_hash_by_pairs(h: u64, x: Seq<PaneSurfaceSplit>, y: Seq<PaneSurfaceSplit>)
    requires
        x.map_values(|s: PaneSurfaceSplit| split_pair(s)) == y.map_values(|s: PaneSurfaceSplit| split_pair(s)),
    ensures
        fnv_write_splits(h, x) == fnv_write_splits(h, y),
    decreases x.len(),
{
    assert(x.len() == y.len()) by {
        assert(x.map_values(|s: PaneSurfaceSplit| split_pair(s)).len() == x.len());
    }
    if x.len() > 0 {
        let n = x.len() - 1;
        assert(split_pair(x[n]) == split_pair(y[n])) by {
            assert(x.map_values(|s: PaneSurfaceSplit| split_pair(s))[n] == split_pair(x[n]));
            assert(y.map_values(|s: PaneSurfaceSplit| split_pair(s))[n] == split_pair(y[n]));
        }
        assert(direction_byte(x[n].direction) == direction_byte(y[n].direction));
        assert(x.drop_last().map_values(|s: PaneSurfaceSplit| split_pair(s)) =~= y.drop_last().map_values(
            |s: PaneSurfaceSplit| split_pair(s),
        )) by {
            assert forall|k: int| 0 <= k < n implies split_pair(x[k]) == split_pair(y[k]) by {
                assert(x.map_values(|s: PaneSurfaceSplit| split_pair(s))[k] == split_pair(x[k]));
                assert(y.map_values(|s: PaneSurfaceSplit| split_pair(s))[k] == split_pair(y[k]));
            }
        }
        lemma_splits_hash_by_pairs(h, x.drop_last(), y.drop_last());
    }
}

/// The signature depends only on which panes and which splits a surface has:
/// surfaces whose pane ids are the same multiset, and whose splits (paths
/// pairwise distinct) are the same path/direction pairs in any order, sign alike,
/// whatever their rectangles, frames or other fields.
pub proof fn lemma_signature_ignores_listing_order(f: PaneSurfaceFrame, g: PaneSurfaceFrame)
    requires
        pane_id_bytes(f.panes@).to_multiset() == pane_id_bytes(g.panes@).to_multiset(),
        f.splits@.map_values(|s: PaneSurfaceSplit| split_pair(s)).to_multiset() == g.splits@.map_values(
            |s: PaneSurfaceSplit| split_pair(s),
        ).to_multiset(),
        distinct_paths(f.splits@),
        distinct_paths(g.splits@),
    ensures
        spec_topology_signature(f) == spec_topology_signature(g),
{
    lemma_bytes_le_total();
    lemma_split_key_le_total();
    let a = pane_id_bytes(f.panes@);
    let b = pane_id_bytes(g.panes@);
    a.lemma_sort_by_ensures(bytes_le());
    b.lemma_sort_by_ensures(bytes_le());
    lemma_sorted_unique(a.sort_by(bytes_le()), b.sort_by(bytes_le()), bytes_le());
    lemma_sorted_pairs(f.splits@);
    lemma_sorted_pairs(g.splits@);
    lemma_sorted_unique(
        sorted_splits(f.splits@).map_values(|s: PaneSurfaceSplit| split_pair(s)),
        sorted_splits(g.splits@).map_values(|s: PaneSurfaceSplit| split_pair(s)),
        split_key_le(),
    );
    lemma_splits_hash_by_pairs(
        fnv_write_all(FNV_OFFSET, a.sort_by(bytes_le())),
        sorted_splits(f.splits@),
        sorted_splits(g.splits@),
    );
}

} // verus!

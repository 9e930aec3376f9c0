//! Lexicographic order on sequences, as slices of ordered elements compare: the
//! first differing element decides, and a proper prefix comes first.
use vstd::prelude::*;
use vstd::relations::{strict_total_ordering, total_ordering};

verus! {

/// Whether `a` comes before `b` or equals it, elements ordered by `lt`.
pub open spec fn lex_le<T>(a: Seq<T>, b: Seq<T>, lt: spec_fn(T, T) -> bool) -> bool
    decreases a.len(),
{
    if a.len() == 0 {
        true
    } else if b.len() == 0 {
        false
    } else if a[0] == b[0] {
        lex_le(a.drop_first(), b.drop_first(), lt)
    } else {
        lt(a[0], b[0])
    }
}

/// The order of bytes.
pub open spec fn byte_lt() -> spec_fn(u8, u8) -> bool {
    |x: u8, y: u8| x < y
}

/// The order of booleans: `false` before `true`.
pub open spec fn bool_lt() -> spec_fn(bool, bool) -> bool {
    |x: bool, y: bool| !x && y
}

/// Byte strings in lexicographic order.
pub open spec fn bytes_le() -> spec_fn(Seq<u8>, Seq<u8>) -> bool {
    |a: Seq<u8>, b: Seq<u8>| lex_le(a, b, byte_lt())
}

pub proof fn lemma_byte_lt_strict()
    ensures
        strict_total_ordering(byte_lt()),
{
}

pub proof fn lemma_bool_lt_strict()
    ensures
        strict_total_ordering(bool_lt()),
{
}

proof fn lemma_lex_reflexive<T>(a: Seq<T>, lt: spec_fn(T, T) -> bool)
    ensures
        lex_le(a, a, lt),
    decreases a.len(),
{
    if a.len() > 0 {
        lemma_lex_reflexive(a.drop_first(), lt);
    }
}

proof fn lemma_lex_antisymmetric<T>(a: Seq<T>, b: Seq<T>, lt: spec_fn(T, T) -> bool)
    requires
        strict_total_ordering(lt),
        lex_le(a, b, lt),
        lex_le(b, a, lt),
    ensures
        a == b,
    decreases a.len(),
{
    if a.len() > 0 && b.len() > 0 {
        if a[0] == b[0] {
            lemma_lex_antisymmetric(a.drop_first(), b.drop_first(), lt);
            assert(a =~= seq![a[0]] + a.drop_first());
            assert(b =~= seq![b[0]] + b.drop_first());
        } else {
            assert(lt(a[0], b[0]) && lt(b[0], a[0]));
        }
    } else {
        assert(a.len() == 0 && b.len() == 0);
        assert(a =~= b);
    }
}

proof fn lemma_lex_transitive<T>(a: Seq<T>, b: Seq<T>, c: Seq<T>, lt: spec_fn(T, T) -> bool)
    requires
        strict_total_ordering(lt),
        lex_le(a, b, lt),
        lex_le(b, c, lt),
    ensures
        lex_le(a, c, lt),
    decreases a.len(),
{
    if a.len() > 0 {
        assert(b.len() > 0);
        assert(c.len() > 0);
        if a[0] == b[0] && b[0] == c[0] {
            lemma_lex_transitive(a.drop_first(), b.drop_first(), c.drop_first(), lt);
        } else if a[0] == b[0] {
            assert(lt(b[0], c[0]));
        } else if b[0] == c[0] {
            assert(lt(a[0], b[0]));
        } else {
            assert(lt(a[0], b[0]) && lt(b[0], c[0]));
            assert(lt(a[0], c[0]));
            if a[0] == c[0] {
                assert(lt(c[0], b[0]));
            }
        }
    }
}

proof fn lemma_lex_connected<T>(a: Seq<T>, b: Seq<T>, lt: spec_fn(T, T) -> bool)
    requires
        strict_total_ordering(lt),
    ensures
        lex_le(a, b, lt) || lex_le(b, a, lt),
    decreases a.len(),
{
    if a.len() > 0 && b.len() > 0 {
        if a[0] == b[0] {
            lemma_lex_connected(a.drop_first(), b.drop_first(), lt);
        } else {
            assert(lt(a[0], b[0]) || lt(b[0], a[0]));
        }
    }
}

/// The lexicographic order over a strict total order of elements is a total order.
pub proof fn lemma_lex_total<T>(lt: spec_fn(T, T) -> bool)
    requires
        strict_total_ordering(lt),
    ensures
        total_ordering(|a: Seq<T>, b: Seq<T>| lex_le(a, b, lt)),
{
    let le = |a: Seq<T>, b: Seq<T>| lex_le(a, b, lt);
    assert forall|a: Seq<T>| #[trigger] le(a, a) by {
        lemma_lex_reflexive(a, lt);
    }
    assert forall|a: Seq<T>, b: Seq<T>| #[trigger] le(a, b) && #[trigger] le(b, a) implies a == b by {
        lemma_lex_antisymmetric(a, b, lt);
    }
    assert forall|a: Seq<T>, b: Seq<T>, c: Seq<T>| #[trigger] le(a, b) && #[trigger] le(b, c) implies le(a, c) by {
        lemma_lex_transitive(a, b, c, lt);
    }
    assert forall|a: Seq<T>, b: Seq<T>| #[trigger] le(a, b) || #[trigger] le(b, a) by {
        lemma_lex_connected(a, b, lt);
    }
}

/// Byte strings in lexicographic order form a total order.
pub proof fn lemma_bytes_le_total()
    ensures
        total_ordering(bytes_le()),
{
    lemma_byte_lt_strict();
    lemma_lex_total(byte_lt());
    assert(bytes_le() =~= (|a: Seq<u8>, b: Seq<u8>| lex_le(a, b, byte_lt())));
}

/// Whether `a[i..]` and `b[i..]` compare as `a` and `b` do, when the first `i`
/// elements agree.
proof fn lemma_lex_skip<T>(a: Seq<T>, b: Seq<T>, lt: spec_fn(T, T) -> bool, i: int)
    requires
        0 <= i < a.len(),
        i < b.len(),
        a[i] == b[i],
    ensures
        lex_le(a.skip(i), b.skip(i), lt) == lex_le(a.skip(i + 1), b.skip(i + 1), lt),
{
    assert(a.skip(i).drop_first() =~= a.skip(i + 1));
    assert(b.skip(i).drop_first() =~= b.skip(i + 1));
}

/// Whether byte string `a` comes before `b` or equals it.
pub fn bytes_le_exec(a: &[u8], b: &[u8]) -> (r: bool)
    ensures
        r == lex_le(a@, b@, byte_lt()),
{
    let mut i: usize = 0;
    assert(a@.skip(0) =~= a@);
    assert(b@.skip(0) =~= b@);
    while i < a.len() && i < b.len()
        invariant
            i <= a@.len(),
            i <= b@.len(),
            lex_le(a@, b@, byte_lt()) == lex_le(a@.skip(i as int), b@.skip(i as int), byte_lt()),
        decreases a@.len() - i,
    {
        if a[i] != b[i] {
            return a[i] < b[i];
        }
        proof {
            lemma_lex_skip(a@, b@, byte_lt(), i as int);
        }
        i = i + 1;
    }
    i == a.len()
}

/// How boolean sequences `a` and `b` compare: whether `a` comes before `b` or
/// equals it, and whether they are equal.
pub fn bools_compare(a: &[bool], b: &[bool]) -> (r: (bool, bool))
    ensures
        r.0 == lex_le(a@, b@, bool_lt()),
        r.1 == (a@ == b@),
{
    let mut i: usize = 0;
    assert(a@.skip(0) =~= a@);
    assert(b@.skip(0) =~= b@);
    while i < a.len() && i < b.len()
        invariant
            i <= a@.len(),
            i <= b@.len(),
            lex_le(a@, b@, bool_lt()) == lex_le(a@.skip(i as int), b@.skip(i as int), bool_lt()),
            forall|k: int| 0 <= k < i ==> a@[k] == b@[k],
        decreases a@.len() - i,
    {
        if a[i] != b[i] {
            return (!a[i] && b[i], false);
        }
        proof {
            lemma_lex_skip(a@, b@, bool_lt(), i as int);
        }
        i = i + 1;
    }
    if a.len() == b.len() {
        assert(a@ =~= b@);
    }
    (i == a.len(), a.len() == b.len())
}

} // verus!

//! Lexicographic orders on sequences, and the laws that make them strict total orders.
use vstd::prelude::*;

verus! {

/// The order of bytes by value.
pub open spec fn byte_lt() -> spec_fn(u8, u8) -> bool {
    |x: u8, y: u8| x < y
}

/// The lexicographic order: the first position at which the sequences differ decides, and a
/// proper prefix comes before what it is a prefix of.
pub open spec fn lex_less<T>(a: Seq<T>, b: Seq<T>, lt: spec_fn(T, T) -> bool) -> bool
    decreases a.len(),
{
    if b.len() == 0 {
        false
    } else if a.len() == 0 {
        true
    } else if a[0] == b[0] {
        lex_less(a.drop_first(), b.drop_first(), lt)
    } else {
        lt(a[0], b[0])
    }
}

/// `lt` is a strict total order.
pub open spec fn strict_total<T>(lt: spec_fn(T, T) -> bool) -> bool {
    &&& forall|x: T| !#[trigger] lt(x, x)
    &&& forall|x: T, y: T| #![trigger lt(x, y)] x == y || lt(x, y) || lt(y, x)
    &&& forall|x: T, y: T, z: T| #![trigger lt(x, y), lt(y, z)] lt(x, y) && lt(y, z) ==> lt(x, z)
}

/// The order of bytes is a strict total order.
pub proof fn byte_lt_is_strict_total()
    ensures
        strict_total(byte_lt()),
{
}

proof fn lex_irreflexive<T>(a: Seq<T>, lt: spec_fn(T, T) -> bool)
    ensures
        !lex_less(a, a, lt),
    decreases a.len(),
{
    if a.len() > 0 {
        lex_irreflexive(a.drop_first(), lt);
    }
}

proof fn lex_connected<T>(a: Seq<T>, b: Seq<T>, lt: spec_fn(T, T) -> bool)
    requires
        strict_total(lt),
    ensures
        a == b || lex_less(a, b, lt) || lex_less(b, a, lt),
    decreases a.len(),
{
    if a.len() == 0 || b.len() == 0 {
        if a.len() == b.len() {
            assert(a =~= b);
        }
    } else if a[0] == b[0] {
        lex_connected(a.drop_first(), b.drop_first(), lt);
        if a.drop_first() == b.drop_first() {
            assert(a =~= seq![a[0]] + a.drop_first());
            assert(b =~= seq![b[0]] + b.drop_first());
        }
    } else {
        let _ = lt(a[0], b[0]);
    }
}

proof fn lex_transitive<T>(a: Seq<T>, b: Seq<T>, c: Seq<T>, lt: spec_fn(T, T) -> bool)
    requires
        strict_total(lt),
        lex_less(a, b, lt),
        lex_less(b, c, lt),
    ensures
        lex_less(a, c, lt),
    decreases a.len(),
{
    if a.len() > 0 {
        if a[0] == b[0] {
            if b[0] == c[0] {
                lex_transitive(a.drop_first(), b.drop_first(), c.drop_first(), lt);
            }
        } else if b[0] != c[0] {
            assert(lt(a[0], b[0]) && lt(b[0], c[0]));
            if a[0] == c[0] {
                assert(lt(a[0], a[0]));
            }
        }
    }
}

/// The lexicographic order over a strict total order is a strict total order.
pub proof fn lex_is_strict_total<T>(lt: spec_fn(T, T) -> bool)
    requires
        strict_total(lt),
    ensures
        strict_total(|a: Seq<T>, b: Seq<T>| lex_less(a, b, lt)),
{
    let lex = |a: Seq<T>, b: Seq<T>| lex_less(a, b, lt);
    assert forall|x: Seq<T>| !#[trigger] lex(x, x) by {
        lex_irreflexive(x, lt);
    }
    assert forall|x: Seq<T>, y: Seq<T>| #![trigger lex(x, y)] x == y || lex(x, y) || lex(y, x) by {
        lex_connected(x, y, lt);
    }
    assert forall|x: Seq<T>, y: Seq<T>, z: Seq<T>|
        #![trigger lex(x, y), lex(y, z)]
        lex(x, y) && lex(y, z) implies lex(x, z) by {
        lex_transitive(x, y, z, lt);
    }
}

/// Whether the bytes `a` come before the bytes `b`.
pub fn bytes_less(a: &[u8], b: &[u8]) -> (less: bool)
    ensures
        less == lex_less(a@, b@, byte_lt()),
{
    let mut i: usize = 0;
    assert(a@.skip(0) =~= a@);
    assert(b@.skip(0) =~= b@);
    while i < a.len() && i < b.len() && a[i] == b[i]
        invariant
            i <= a.len(),
            i <= b.len(),
            lex_less(a@, b@, byte_lt()) == lex_less(
                a@.skip(i as int),
                b@.skip(i as int),
                byte_lt(),
            ),
        decreases a.len() - i,
    {
        assert(a@.skip(i as int).drop_first() =~= a@.skip(i + 1));
        assert(b@.skip(i as int).drop_first() =~= b@.skip(i + 1));
        i += 1;
    }
    if i == b.len() {
        false
    } else if i == a.len() {
        true
    } else {
        a[i] < b[i]
    }
}

/// Whether `a` and `b` are the same bytes.
pub fn bytes_equal(a: &[u8], b: &[u8]) -> (equal: bool)
    ensures
        equal == (a@ == b@),
{
    if a.len() != b.len() {
        return false;
    }
    let mut i: usize = 0;
    while i < a.len()
        invariant
            i <= a.len(),
            a.len() == b.len(),
            forall|j: int| 0 <= j < i ==> a@[j] == b@[j],
        decreases a.len() - i,
    {
        if a[i] != b[i] {
            return false;
        }
        i += 1;
    }
    assert(a@ =~= b@);
    true
}

/// Sequences are ordered by the first things in which they differ. A sequence comes before those
/// that go on behind it.
pub proof fn first_difference_decides<A>(
    front: Seq<A>,
    a: A,
    b: A,
    behind_a: Seq<A>,
    behind_b: Seq<A>,
    lt: spec_fn(A, A) -> bool,
)
    requires
        strict_total(lt),
        a != b,
    ensures
        lex_less(front + seq![a] + behind_a, front + seq![b] + behind_b, lt) == lt(a, b),
        lex_less(front, front + seq![b] + behind_b, lt),
        !lex_less(front + seq![b] + behind_b, front, lt),
    decreases front.len(),
{
    let x = front + seq![a] + behind_a;
    let y = front + seq![b] + behind_b;
    if front.len() == 0 {
        assert(x[0] == a && y[0] == b);
    } else {
        let rest = front.drop_first();
        first_difference_decides(rest, a, b, behind_a, behind_b, lt);
        assert(x.drop_first() =~= rest + seq![a] + behind_a);
        assert(y.drop_first() =~= rest + seq![b] + behind_b);
        assert(x[0] == front[0] && y[0] == front[0]);
        assert(!lt(front[0], front[0]));
    }
}

} // verus!

use vstd::prelude::*;

verus! {

/// Outcome of comparing two values under a total order.
#[derive(Clone, Copy, Debug, PartialEq, Eq, Structural)]
pub enum Comparison {
    Less,
    Equal,
    Greater,
}

/// Order of two integers.
pub open spec fn int_order(a: int, b: int) -> Comparison {
    if a < b {
        Comparison::Less
    } else if a == b {
        Comparison::Equal
    } else {
        Comparison::Greater
    }
}

/// Lexicographic order of two integer sequences: the first position where
/// they differ decides, and a proper prefix comes first.
pub open spec fn key_order(a: Seq<int>, b: Seq<int>) -> Comparison
    decreases a.len(),
{
    if a.len() == 0 {
        if b.len() == 0 {
            Comparison::Equal
        } else {
            Comparison::Less
        }
    } else if b.len() == 0 {
        Comparison::Greater
    } else if a[0] < b[0] {
        Comparison::Less
    } else if a[0] > b[0] {
        Comparison::Greater
    } else {
        key_order(a.drop_first(), b.drop_first())
    }
}

/// The bytes of a sequence as integers, position by position.
pub open spec fn bytes_key(bytes: Seq<u8>) -> Seq<int> {
    Seq::new(bytes.len(), |i: int| bytes[i] as int)
}

/// Two sequences compare as equal exactly when they are the same sequence.
pub proof fn lemma_key_order_equal(a: Seq<int>, b: Seq<int>)
    ensures
        key_order(a, b) is Equal <==> a == b,
    decreases a.len(),
{
    if a.len() == 0 || b.len() == 0 {
        if a.len() == 0 && b.len() == 0 {
            assert(a =~= b);
        }
    } else {
        lemma_key_order_equal(a.drop_first(), b.drop_first());
        if a[0] == b[0] && a.drop_first() == b.drop_first() {
            assert(a =~= seq![a[0]] + a.drop_first());
            assert(b =~= seq![b[0]] + b.drop_first());
        }
    }
}

/// Swapping the operands mirrors the outcome.
pub proof fn lemma_key_order_flip(a: Seq<int>, b: Seq<int>)
    ensures
        key_order(a, b) is Less <==> key_order(b, a) is Greater,
        key_order(a, b) is Equal <==> key_order(b, a) is Equal,
        key_order(a, b) is Greater <==> key_order(b, a) is Less,
    decreases a.len(),
{
    if a.len() != 0 && b.len() != 0 && a[0] == b[0] {
        lemma_key_order_flip(a.drop_first(), b.drop_first());
    }
}

/// The order is transitive, and a strict step anywhere makes the whole
/// chain strict.
pub proof fn lemma_key_order_transitive(a: Seq<int>, b: Seq<int>, c: Seq<int>)
    requires
        !(key_order(a, b) is Greater),
        !(key_order(b, c) is Greater),
    ensures
        !(key_order(a, c) is Greater),
        key_order(a, b) is Less || key_order(b, c) is Less ==> key_order(a, c) is Less,
    decreases a.len(),
{
    if a.len() != 0 && b.len() != 0 && c.len() != 0 && a[0] == b[0] && b[0] == c[0] {
        lemma_key_order_transitive(a.drop_first(), b.drop_first(), c.drop_first());
    }
}

/// A shared first element leaves the decision to what follows it; a
/// differing one decides at once.
pub proof fn lemma_key_order_push_front(x: int, a: Seq<int>, y: int, b: Seq<int>)
    ensures
        key_order(seq![x] + a, seq![y] + b) == if x < y {
            Comparison::Less
        } else if x > y {
            Comparison::Greater
        } else {
            key_order(a, b)
        },
{
    assert((seq![x] + a).drop_first() =~= a);
    assert((seq![y] + b).drop_first() =~= b);
}

/// Skipping a common prefix does not change the outcome.
pub proof fn lemma_key_order_skip(a: Seq<int>, b: Seq<int>, n: int)
    requires
        0 <= n <= a.len(),
        n <= b.len(),
        forall|i: int| 0 <= i < n ==> a[i] == b[i],
    ensures
        key_order(a, b) == key_order(a.skip(n), b.skip(n)),
    decreases n,
{
    if n == 0 {
        assert(a.skip(0) =~= a);
        assert(b.skip(0) =~= b);
    } else {
        lemma_key_order_skip(a.drop_first(), b.drop_first(), n - 1);
        assert(a.drop_first().skip(n - 1) =~= a.skip(n));
        assert(b.drop_first().skip(n - 1) =~= b.skip(n));
    }
}

/// Compares two byte strings lexicographically.
pub fn compare_bytes(a: &[u8], b: &[u8]) -> (r: Comparison)
    ensures
        r == key_order(bytes_key(a@), bytes_key(b@)),
{
    let ghost ka = bytes_key(a@);
    let ghost kb = bytes_key(b@);
    let mut i: usize = 0;
    while i < a.len() && i < b.len()
        invariant
            i <= a.len(),
            i <= b.len(),
            ka == bytes_key(a@),
            kb == bytes_key(b@),
            forall|j: int| 0 <= j < i ==> ka[j] == kb[j],
        decreases a.len() - i,
    {
        if a[i] < b[i] {
            proof {
                lemma_key_order_skip(ka, kb, i as int);
            }
            return Comparison::Less;
        }
        if a[i] > b[i] {
            proof {
                lemma_key_order_skip(ka, kb, i as int);
            }
            return Comparison::Greater;
        }
        i = i + 1;
    }
    proof {
        lemma_key_order_skip(ka, kb, i as int);
    }
    if i < b.len() {
        Comparison::Less
    } else if i < a.len() {
        Comparison::Greater
    } else {
        Comparison::Equal
    }
}

} // verus!

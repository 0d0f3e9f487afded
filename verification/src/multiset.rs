use vstd::prelude::*;
use crate::field::Field;
use crate::field::FieldValue;
use crate::field::lemma_order_equal;
use crate::field::lemma_order_flip;
use crate::field::lemma_order_transitive;
use crate::tree::Node;
use crate::tree::balanced;
use crate::tree::height;
use crate::tree::height_of;
use crate::tree::lemma_balanced_is_low;
use crate::tree::lemma_empty_tree;
use crate::tree::seq_of;
use crate::tree::tree_contains;
use crate::tree::tree_insert;
use crate::tree::tree_least;
use crate::tree::tree_remove;

verus! {

/// `a` does not come after `b`.
pub open spec fn not_above(a: FieldValue, b: FieldValue) -> bool {
    !(a.order(b) is Greater)
}

/// No element comes after a later one.
pub open spec fn sorted(s: Seq<FieldValue>) -> bool {
    forall|i: int, j: int| 0 <= i < j < s.len() ==> not_above(#[trigger] s[i], #[trigger] s[j])
}

/// Length of the longest prefix of `s` whose elements do not come after
/// `v`: in a sorted sequence, the place behind the last element that `v`
/// does not precede.
pub open spec fn insertion_point(s: Seq<FieldValue>, v: FieldValue) -> int
    decreases s.len(),
{
    if s.len() == 0 || s[0].order(v) is Greater {
        0
    } else {
        1 + insertion_point(s.drop_first(), v)
    }
}

/// Index of the first element of `s` that holds the same place in the
/// order as `v`, or the length of `s` where there is none.
pub open spec fn first_match(s: Seq<FieldValue>, v: FieldValue) -> int
    decreases s.len(),
{
    if s.len() == 0 || s[0].order(v) is Equal {
        0
    } else {
        1 + first_match(s.drop_first(), v)
    }
}

/// Some element of `s` holds the same place in the order as `v`.
pub open spec fn holds(s: Seq<FieldValue>, v: FieldValue) -> bool {
    first_match(s, v) < s.len()
}

/// `s` with `v` added behind the elements that do not come after it.
pub open spec fn inserted(s: Seq<FieldValue>, v: FieldValue) -> Seq<FieldValue> {
    s.insert(insertion_point(s, v), v)
}

/// `s` without the first element that holds the same place as `v`;
/// `s` itself where there is none.
pub open spec fn removed(s: Seq<FieldValue>, v: FieldValue) -> Seq<FieldValue> {
    if holds(s, v) {
        s.remove(first_match(s, v))
    } else {
        s
    }
}

/// The insertion point lies within the sequence or at its end.
pub proof fn lemma_insertion_point_bounds(s: Seq<FieldValue>, v: FieldValue)
    ensures
        0 <= insertion_point(s, v) <= s.len(),
    decreases s.len(),
{
    if s.len() != 0 && !(s[0].order(v) is Greater) {
        lemma_insertion_point_bounds(s.drop_first(), v);
    }
}

/// The first match lies within the sequence or at its end, holds the rank
/// of `v` where it lies within, and nothing before it does.
pub proof fn lemma_first_match_bounds(s: Seq<FieldValue>, v: FieldValue)
    ensures
        0 <= first_match(s, v) <= s.len(),
        first_match(s, v) < s.len() ==> s[first_match(s, v)].order(v) is Equal,
        forall|i: int| 0 <= i < first_match(s, v) ==> !(#[trigger] s[i].order(v) is Equal),
    decreases s.len(),
{
    if s.len() != 0 && !(s[0].order(v) is Equal) {
        let rest = s.drop_first();
        lemma_first_match_bounds(rest, v);
        assert forall|i: int| 0 <= i < first_match(s, v) implies !(#[trigger] s[i].order(v)
            is Equal) by {
            if i > 0 {
                assert(s[i] == rest[i - 1]);
            }
        }
    }
}

/// The place where a prefix of elements not after `v` ends and an element
/// after `v` (or nothing) follows is the insertion point.
pub proof fn lemma_insertion_point_is(s: Seq<FieldValue>, v: FieldValue, p: int)
    requires
        0 <= p <= s.len(),
        forall|i: int| 0 <= i < p ==> not_above(#[trigger] s[i], v),
        p < s.len() ==> s[p].order(v) is Greater,
    ensures
        insertion_point(s, v) == p,
    decreases p,
{
    if p > 0 {
        let rest = s.drop_first();
        assert(not_above(s[0], v));
        assert forall|i: int| 0 <= i < p - 1 implies not_above(#[trigger] rest[i], v) by {
            assert(rest[i] == s[i + 1]);
        }
        lemma_insertion_point_is(rest, v, p - 1);
    }
}

/// The index of an element equal in rank to `v` with none such before it
/// is the first match; where no element is equal in rank, the length is.
pub proof fn lemma_first_match_is(s: Seq<FieldValue>, v: FieldValue, p: int)
    requires
        0 <= p <= s.len(),
        forall|i: int| 0 <= i < p ==> !(#[trigger] s[i].order(v) is Equal),
        p < s.len() ==> s[p].order(v) is Equal,
    ensures
        first_match(s, v) == p,
    decreases p,
{
    if p > 0 {
        let rest = s.drop_first();
        assert(!(s[0].order(v) is Equal));
        assert forall|i: int| 0 <= i < p - 1 implies !(#[trigger] rest[i].order(v) is Equal) by {
            assert(rest[i] == s[i + 1]);
        }
        lemma_first_match_is(rest, v, p - 1);
    }
}

/// In a sorted sequence everything before the insertion point does not
/// come after `v`, and everything from it on does.
pub proof fn lemma_insertion_point_splits(s: Seq<FieldValue>, v: FieldValue)
    requires
        sorted(s),
    ensures
        forall|i: int| 0 <= i < insertion_point(s, v) ==> not_above(#[trigger] s[i], v),
        forall|i: int|
            insertion_point(s, v) <= i < s.len() ==> (#[trigger] s[i]).order(v) is Greater,
    decreases s.len(),
{
    lemma_insertion_point_bounds(s, v);
    if s.len() != 0 {
        let rest = s.drop_first();
        assert forall|i: int, j: int| 0 <= i < j < rest.len() implies not_above(
            #[trigger] rest[i],
            #[trigger] rest[j],
        ) by {
            assert(rest[i] == s[i + 1] && rest[j] == s[j + 1]);
        }
        if s[0].order(v) is Greater {
            assert forall|i: int| 0 <= i < s.len() implies (#[trigger] s[i]).order(v)
                is Greater by {
                if i > 0 {
                    assert(not_above(s[0], s[i]));
                    lemma_order_flip(s[i], v);
                    lemma_order_flip(s[0], v);
                    lemma_order_flip(s[0], s[i]);
                    if !(s[i].order(v) is Greater) {
                        lemma_order_transitive(s[0], s[i], v);
                    }
                }
            }
        } else {
            lemma_insertion_point_splits(rest, v);
            assert forall|i: int| 0 <= i < insertion_point(s, v) implies not_above(
                #[trigger] s[i],
                v,
            ) by {
                if i > 0 {
                    assert(s[i] == rest[i - 1]);
                }
            }
            assert forall|i: int| insertion_point(s, v) <= i < s.len() implies (
            #[trigger] s[i]).order(v) is Greater by {
                assert(s[i] == rest[i - 1]);
            }
        }
    }
}

/// Adding a value at its insertion point keeps a sorted sequence sorted.
pub proof fn lemma_inserted_sorted(s: Seq<FieldValue>, v: FieldValue)
    requires
        sorted(s),
    ensures
        sorted(inserted(s, v)),
        inserted(s, v).len() == s.len() + 1,
{
    lemma_insertion_point_bounds(s, v);
    lemma_insertion_point_splits(s, v);
    let p = insertion_point(s, v);
    let t = inserted(s, v);
    assert forall|i: int, j: int| 0 <= i < j < t.len() implies not_above(
        #[trigger] t[i],
        #[trigger] t[j],
    ) by {
        if j < p {
            assert(t[i] == s[i] && t[j] == s[j]);
        } else if j == p {
            assert(t[i] == s[i]);
        } else if i < p {
            assert(t[i] == s[i] && t[j] == s[j - 1]);
        } else if i == p {
            assert(t[j] == s[j - 1]);
            lemma_order_flip(s[j - 1], v);
        } else {
            assert(t[i] == s[i - 1] && t[j] == s[j - 1]);
        }
    }
}

/// Taking an element out keeps a sorted sequence sorted.
pub proof fn lemma_removed_sorted(s: Seq<FieldValue>, v: FieldValue)
    requires
        sorted(s),
    ensures
        sorted(removed(s, v)),
        removed(s, v).len() == if holds(s, v) {
            s.len() - 1
        } else {
            s.len() as int
        },
{
    lemma_first_match_bounds(s, v);
    if holds(s, v) {
        let p = first_match(s, v);
        let t = removed(s, v);
        assert forall|i: int, j: int| 0 <= i < j < t.len() implies not_above(
            #[trigger] t[i],
            #[trigger] t[j],
        ) by {
            let si = if i < p {
                i
            } else {
                i + 1
            };
            let sj = if j < p {
                j
            } else {
                j + 1
            };
            assert(t[i] == s[si] && t[j] == s[sj]);
        }
    }
}

/// The first element of a sorted sequence is one of its least.
pub proof fn lemma_first_is_least(s: Seq<FieldValue>, i: int)
    requires
        sorted(s),
        0 <= i < s.len(),
    ensures
        not_above(s[0], s[i]),
{
    if i == 0 {
        lemma_order_equal(s[0], s[0]);
    }
}

/// Two to the power of `n`.
pub open spec fn pow2(n: nat) -> nat
    decreases n,
{
    if n == 0 {
        1
    } else {
        2 * pow2((n - 1) as nat)
    }
}

/// A greater power of two is not the smaller number.
pub proof fn lemma_pow2_grows(m: nat, n: nat)
    requires
        m <= n,
    ensures
        pow2(m) <= pow2(n),
    decreases n,
{
    if m < n {
        lemma_pow2_grows(m, (n - 1) as nat);
    }
}

/// A multiset of field values kept in order in a height-balanced search
/// tree, so that a value is added, found and taken out along one way down
/// the tree.
///
/// Its view is the sequence of its values from least to greatest; values
/// that hold the same place in the order stand in the order they were
/// added.
pub struct OrderedMultiset {
    root: Option<Box<Node>>,
    len: usize,
}

impl View for OrderedMultiset {
    type V = Seq<FieldValue>;

    closed spec fn view(&self) -> Seq<FieldValue> {
        seq_of(self.root)
    }
}

impl OrderedMultiset {
    /// What holds of every multiset that this module hands out: its values
    /// are in order, its tree is balanced, and it knows how many it holds.
    pub closed spec fn wf(&self) -> bool {
        &&& sorted(self@)
        &&& balanced(self.root)
        &&& self.len == self@.len()
    }

    /// The values of a well-formed multiset are in order, and their
    /// number fits the machine.
    pub proof fn lemma_wf(&self)
        requires
            self.wf(),
        ensures
            sorted(self@),
            self@.len() <= usize::MAX,
    {
    }

    /// The number of values on the longest way that a search can take.
    pub closed spec fn spec_depth(&self) -> nat {
        height_of(self.root)
    }

    /// A search is short: with every two steps that the longest way takes
    /// the number of values at least doubles, so that no way is longer than
    /// twice the logarithm of that number.
    pub proof fn lemma_depth_is_logarithmic(&self)
        requires
            self.wf(),
        ensures
            pow2(self.spec_depth() / 2) <= self@.len() + 1,
    {
        lemma_balanced_is_low(self.root);
    }

    /// A multiset that holds nothing.
    pub fn new() -> (set: Self)
        ensures
            set.wf(),
            set@ == Seq::<FieldValue>::empty(),
    {
        proof {
            lemma_empty_tree();
        }
        OrderedMultiset { root: None, len: 0 }
    }

    /// The number of values, each counted as often as it occurs.
    pub fn len(&self) -> (n: usize)
        requires
            self.wf(),
        ensures
            n == self@.len(),
    {
        self.len
    }

    /// The number of values on the longest way that a search can take.
    pub fn depth(&self) -> (d: usize)
        requires
            self.wf(),
        ensures
            d == self.spec_depth(),
    {
        height(&self.root)
    }

    /// Whether the multiset holds nothing.
    pub fn is_empty(&self) -> (r: bool)
        requires
            self.wf(),
        ensures
            r == (self@.len() == 0),
    {
        self.len == 0
    }

    /// Whether one more value can be added: the number of values is below
    /// the greatest that the machine can count.
    pub fn has_room(&self) -> (r: bool)
        requires
            self.wf(),
        ensures
            r == (self@.len() < usize::MAX),
    {
        self.len < usize::MAX
    }

    /// The least value, `None` in an empty multiset.
    pub fn min(&self) -> (least: Option<&Field>)
        ensures
            self@.len() == 0 ==> least is None,
            self@.len() > 0 ==> least is Some && least->0@ == self@[0],
    {
        match &self.root {
            None => {
                proof {
                    lemma_empty_tree();
                }
                None
            },
            Some(node) => Some(tree_least(node)),
        }
    }

    /// Whether some value holds the same place in the order as `v`.
    pub fn contains(&self, v: &Field) -> (r: bool)
        requires
            self.wf(),
        ensures
            r == holds(self@, v@),
    {
        tree_contains(&self.root, v)
    }

    /// Adds one occurrence of `v`.
    pub fn insert(&mut self, v: Field)
        requires
            old(self).wf(),
            old(self)@.len() < usize::MAX,
        ensures
            final(self).wf(),
            final(self)@ == inserted(old(self)@, v@),
    {
        proof {
            lemma_inserted_sorted(self@, v@);
        }
        let root = self.root.take();
        self.root = Some(tree_insert(root, v));
        self.len = self.len + 1;
    }

    /// Takes out one occurrence of `v`, the one added first among those
    /// that hold its place in the order. Reports whether there was one.
    pub fn remove(&mut self, v: &Field) -> (found: bool)
        requires
            old(self).wf(),
        ensures
            final(self).wf(),
            found == holds(old(self)@, v@),
            final(self)@ == removed(old(self)@, v@),
    {
        proof {
            lemma_removed_sorted(self@, v@);
        }
        let root = self.root.take();
        let (rest, found) = tree_remove(root, v);
        self.root = rest;
        if found {
            self.len = self.len - 1;
        }
        found
    }
}

} // verus!

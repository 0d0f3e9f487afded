use vstd::prelude::*;
use crate::field::Field;
use crate::field::FieldValue;
use crate::field::lemma_order_flip;
use crate::field::lemma_order_transitive;
use crate::multiset::first_match;
use crate::multiset::holds;
use crate::multiset::insertion_point;
use crate::multiset::inserted;
use crate::multiset::lemma_first_match_bounds;
use crate::multiset::lemma_first_match_is;
use crate::multiset::lemma_insertion_point_bounds;
use crate::multiset::lemma_insertion_point_is;
use crate::multiset::lemma_insertion_point_splits;
use crate::multiset::lemma_pow2_grows;
use crate::multiset::not_above;
use crate::multiset::pow2;
use crate::multiset::removed;
use crate::multiset::sorted;
use crate::order::Comparison;

verus! {

/// A node of a height-balanced search tree of field values. Values that
/// hold the same place in the order stand in the order they were added.
pub struct Node {
    value: Field,
    left: Option<Box<Node>>,
    right: Option<Box<Node>>,
    /// The height of the tree below and including this node.
    height: usize,
}

/// The values of a tree from least to greatest.
pub closed spec fn seq_of(tree: Option<Box<Node>>) -> Seq<FieldValue>
    decreases tree,
{
    match tree {
        None => Seq::empty(),
        Some(n) => seq_of(n.left) + seq![n.value@] + seq_of(n.right),
    }
}

/// The number of nodes on the longest way from the root down.
pub closed spec fn height_of(tree: Option<Box<Node>>) -> nat
    decreases tree,
{
    match tree {
        None => 0,
        Some(n) => higher(height_of(n.left), height_of(n.right)) + 1,
    }
}

/// The greater of two heights.
pub open spec fn higher(a: nat, b: nat) -> nat {
    if a >= b {
        a
    } else {
        b
    }
}

/// Two heights differ by no more than `by`.
pub open spec fn within(a: nat, b: nat, by: nat) -> bool {
    a <= b + by && b <= a + by
}

/// The tree is balanced: at every node the heights of the two sides differ
/// by no more than one, and the node knows its height.
pub closed spec fn balanced(tree: Option<Box<Node>>) -> bool
    decreases tree,
{
    match tree {
        None => true,
        Some(n) => {
            &&& balanced(n.left)
            &&& balanced(n.right)
            &&& within(height_of(n.left), height_of(n.right), 1)
            &&& n.height == height_of(tree)
        },
    }
}

/// A tree is no higher than it has values.
pub proof fn lemma_height_bound(tree: Option<Box<Node>>)
    ensures
        height_of(tree) <= seq_of(tree).len(),
    decreases tree,
{
    match tree {
        None => {},
        Some(n) => {
            lemma_height_bound(n.left);
            lemma_height_bound(n.right);
        },
    }
}

/// A balanced tree is low: with every two levels of height the number of
/// its values at least doubles, so that its height grows with the
/// logarithm of that number only.
pub proof fn lemma_balanced_is_low(tree: Option<Box<Node>>)
    requires
        balanced(tree),
    ensures
        pow2(height_of(tree) / 2) <= seq_of(tree).len() + 1,
    decreases tree,
{
    match tree {
        None => {},
        Some(n) => {
            lemma_balanced_is_low(n.left);
            lemma_balanced_is_low(n.right);
            let h = height_of(tree);
            let l = height_of(n.left);
            let r = height_of(n.right);
            if h >= 2 {
                let below = ((h - 2) / 2) as nat;
                assert(below + 1 == h / 2);
                lemma_pow2_grows(below, l / 2);
                lemma_pow2_grows(below, r / 2);
            } else {
                assert(h / 2 == 0);
            }
        },
    }
}

/// The empty tree holds nothing.
pub proof fn lemma_empty_tree()
    ensures
        seq_of(None) == Seq::<FieldValue>::empty(),
        balanced(None),
        height_of(None) == 0,
{
}

/// The parts of a sorted sequence around one of its elements are sorted,
/// and the element lies between them.
proof fn lemma_sorted_parts(a: Seq<FieldValue>, x: FieldValue, b: Seq<FieldValue>)
    requires
        sorted(a + seq![x] + b),
    ensures
        sorted(a),
        sorted(b),
        forall|i: int| 0 <= i < a.len() ==> not_above(#[trigger] a[i], x),
        forall|j: int| 0 <= j < b.len() ==> not_above(x, #[trigger] b[j]),
{
    let s = a + seq![x] + b;
    let at = a.len() as int;
    assert(s[at] == x);
    assert forall|i: int, j: int| 0 <= i < j < a.len() implies not_above(
        #[trigger] a[i],
        #[trigger] a[j],
    ) by {
        assert(s[i] == a[i] && s[j] == a[j]);
    }
    assert forall|i: int, j: int| 0 <= i < j < b.len() implies not_above(
        #[trigger] b[i],
        #[trigger] b[j],
    ) by {
        assert(s[at + 1 + i] == b[i] && s[at + 1 + j] == b[j]);
    }
    assert forall|i: int| 0 <= i < a.len() implies not_above(#[trigger] a[i], x) by {
        assert(s[i] == a[i]);
        assert(not_above(s[i], s[at]));
    }
    assert forall|j: int| 0 <= j < b.len() implies not_above(x, #[trigger] b[j]) by {
        assert(s[at + 1 + j] == b[j]);
        assert(not_above(s[at], s[at + 1 + j]));
    }
}

/// A value that comes before the element goes into the part before it.
proof fn lemma_insert_before(a: Seq<FieldValue>, x: FieldValue, b: Seq<FieldValue>, v: FieldValue)
    requires
        sorted(a + seq![x] + b),
        x.order(v) is Greater,
    ensures
        inserted(a + seq![x] + b, v) == inserted(a, v) + seq![x] + b,
{
    let s = a + seq![x] + b;
    lemma_sorted_parts(a, x, b);
    lemma_insertion_point_bounds(a, v);
    lemma_insertion_point_splits(a, v);
    let p = insertion_point(a, v);
    assert forall|i: int| 0 <= i < p implies not_above(#[trigger] s[i], v) by {
        assert(s[i] == a[i]);
    }
    if p < a.len() {
        assert(s[p] == a[p]);
    } else {
        assert(s[p] == x);
    }
    lemma_insertion_point_is(s, v, p);
    assert(s.insert(p, v) =~= a.insert(p, v) + seq![x] + b);
}

/// A value that does not come before the element goes into the part
/// behind it.
proof fn lemma_insert_behind(a: Seq<FieldValue>, x: FieldValue, b: Seq<FieldValue>, v: FieldValue)
    requires
        sorted(a + seq![x] + b),
        !(x.order(v) is Greater),
    ensures
        inserted(a + seq![x] + b, v) == a + seq![x] + inserted(b, v),
{
    let s = a + seq![x] + b;
    lemma_sorted_parts(a, x, b);
    lemma_insertion_point_bounds(b, v);
    lemma_insertion_point_splits(b, v);
    let q = insertion_point(b, v);
    let p = a.len() + 1 + q;
    assert forall|i: int| 0 <= i < p implies not_above(#[trigger] s[i], v) by {
        if i < a.len() {
            assert(s[i] == a[i]);
            lemma_order_transitive(a[i], x, v);
        } else if i == a.len() {
            assert(s[i] == x);
        } else {
            assert(s[i] == b[i - a.len() - 1]);
        }
    }
    if p < s.len() {
        assert(s[p] == b[q]);
    }
    lemma_insertion_point_is(s, v, p);
    assert(s.insert(p, v) =~= a + seq![x] + b.insert(q, v));
}

/// Behind an element that comes before the value, only the part behind
/// the element can hold the value.
proof fn lemma_remove_behind(a: Seq<FieldValue>, x: FieldValue, b: Seq<FieldValue>, v: FieldValue)
    requires
        sorted(a + seq![x] + b),
        x.order(v) is Less,
    ensures
        holds(a + seq![x] + b, v) == holds(b, v),
        removed(a + seq![x] + b, v) == a + seq![x] + removed(b, v),
{
    let s = a + seq![x] + b;
    lemma_sorted_parts(a, x, b);
    lemma_first_match_bounds(b, v);
    let q = first_match(b, v);
    let p = a.len() + 1 + q;
    assert forall|i: int| 0 <= i < p implies !((#[trigger] s[i]).order(v) is Equal) by {
        if i < a.len() {
            assert(s[i] == a[i]);
            lemma_order_transitive(a[i], x, v);
        } else if i == a.len() {
            assert(s[i] == x);
        } else {
            assert(s[i] == b[i - a.len() - 1]);
        }
    }
    if p < s.len() {
        assert(s[p] == b[q]);
    }
    lemma_first_match_is(s, v, p);
    if holds(b, v) {
        assert(s.remove(p) =~= a + seq![x] + b.remove(q));
    }
}

/// Where the part before an element holds the value, its first match
/// there is the first match of all.
proof fn lemma_remove_before(a: Seq<FieldValue>, x: FieldValue, b: Seq<FieldValue>, v: FieldValue)
    requires
        holds(a, v),
    ensures
        holds(a + seq![x] + b, v),
        removed(a + seq![x] + b, v) == removed(a, v) + seq![x] + b,
{
    let s = a + seq![x] + b;
    lemma_first_match_bounds(a, v);
    let p = first_match(a, v);
    assert forall|i: int| 0 <= i < p implies !((#[trigger] s[i]).order(v) is Equal) by {
        assert(s[i] == a[i]);
    }
    assert(s[p] == a[p]);
    lemma_first_match_is(s, v, p);
    assert(s.remove(p) =~= a.remove(p) + seq![x] + b);
}

/// Where the part before an element of the value's rank does not hold
/// the value, the element is the first match.
proof fn lemma_remove_here(a: Seq<FieldValue>, x: FieldValue, b: Seq<FieldValue>, v: FieldValue)
    requires
        x.order(v) is Equal,
        !holds(a, v),
    ensures
        holds(a + seq![x] + b, v),
        removed(a + seq![x] + b, v) == a + b,
{
    let s = a + seq![x] + b;
    lemma_first_match_bounds(a, v);
    let p = a.len() as int;
    assert forall|i: int| 0 <= i < p implies !((#[trigger] s[i]).order(v) is Equal) by {
        assert(s[i] == a[i]);
    }
    assert(s[p] == x);
    lemma_first_match_is(s, v, p);
    assert(s.remove(p) =~= a + b);
}

/// Where an element comes behind the value and the part before it does
/// not hold the value, nothing does.
proof fn lemma_remove_nowhere(a: Seq<FieldValue>, x: FieldValue, b: Seq<FieldValue>, v: FieldValue)
    requires
        sorted(a + seq![x] + b),
        x.order(v) is Greater,
        !holds(a, v),
    ensures
        !holds(a + seq![x] + b, v),
        removed(a + seq![x] + b, v) == a + seq![x] + b,
{
    let s = a + seq![x] + b;
    lemma_sorted_parts(a, x, b);
    lemma_first_match_bounds(a, v);
    assert forall|i: int| 0 <= i < s.len() implies !((#[trigger] s[i]).order(v) is Equal) by {
        if i < a.len() {
            assert(s[i] == a[i]);
        } else if i == a.len() {
            assert(s[i] == x);
        } else {
            let j = i - a.len() - 1;
            assert(s[i] == b[j]);
            lemma_order_flip(x, v);
            lemma_order_flip(b[j], v);
            if b[j].order(v) is Equal {
                lemma_order_transitive(x, b[j], v);
            }
        }
    }
    lemma_first_match_is(s, v, s.len() as int);
}

/// What a node is made of.
proof fn lemma_node(node: Box<Node>)
    ensures
        seq_of(Some(node)) == seq_of(node.left) + seq![node.value@] + seq_of(node.right),
        height_of(Some(node)) == higher(height_of(node.left), height_of(node.right)) + 1,
        balanced(Some(node)) == (balanced(node.left) && balanced(node.right) && within(
            height_of(node.left),
            height_of(node.right),
            1,
        ) && node.height == height_of(Some(node))),
{
}

/// The height of a tree.
pub fn height(tree: &Option<Box<Node>>) -> (h: usize)
    requires
        balanced(*tree),
    ensures
        h == height_of(*tree),
{
    match tree {
        None => 0,
        Some(n) => {
            proof {
                lemma_node(*n);
            }
            n.height
        },
    }
}

/// The node with the given value and sides.
fn make(value: Field, left: Option<Box<Node>>, right: Option<Box<Node>>) -> (node: Box<Node>)
    requires
        balanced(left),
        balanced(right),
        within(height_of(left), height_of(right), 1),
        higher(height_of(left), height_of(right)) < usize::MAX,
    ensures
        balanced(Some(node)),
        seq_of(Some(node)) == seq_of(left) + seq![value@] + seq_of(right),
        height_of(Some(node)) == higher(height_of(left), height_of(right)) + 1,
{
    let l: usize = height(&left);
    let r: usize = height(&right);
    let h: usize = if l >= r {
        l + 1
    } else {
        r + 1
    };
    let node = Box::new(Node { value, left, right, height: h });
    proof {
        lemma_node(node);
    }
    node
}

/// The value and the two sides of a node.
fn split(node: Box<Node>) -> (parts: (Field, Option<Box<Node>>, Option<Box<Node>>))
    requires
        balanced(Some(node)),
    ensures
        parts.0 == node.value,
        parts.1 == node.left,
        parts.2 == node.right,
        balanced(parts.1),
        balanced(parts.2),
        within(height_of(parts.1), height_of(parts.2), 1),
        higher(height_of(parts.1), height_of(parts.2)) < usize::MAX,
        height_of(Some(node)) == higher(height_of(parts.1), height_of(parts.2)) + 1,
        seq_of(Some(node)) == seq_of(parts.1) + seq![parts.0@] + seq_of(parts.2),
{
    proof {
        lemma_node(node);
    }
    let Node { value, left, right, height: _ } = *node;
    (value, left, right)
}

/// Moving the split between three parts of a sequence leaves it as it is.
proof fn lemma_regroup(
    a: Seq<FieldValue>,
    x: FieldValue,
    b: Seq<FieldValue>,
    y: FieldValue,
    c: Seq<FieldValue>,
)
    ensures
        (a + seq![x] + b) + seq![y] + c == a + seq![x] + (b + seq![y] + c),
{
    assert((a + seq![x] + b) + seq![y] + c =~= a + seq![x] + (b + seq![y] + c));
}

/// The node with the given value and sides, the left of which is two
/// higher than the right: the left side's root comes up, or, where that
/// side leans inwards, the root of its inner side.
fn rotate_right(value: Field, left: Box<Node>, right: Option<Box<Node>>) -> (node: Box<Node>)
    requires
        balanced(Some(left)),
        balanced(right),
        height_of(Some(left)) == height_of(right) + 2,
        height_of(Some(left)) < usize::MAX,
    ensures
        balanced(Some(node)),
        seq_of(Some(node)) == seq_of(Some(left)) + seq![value@] + seq_of(right),
        height_of(Some(node)) == height_of(Some(left)) || height_of(Some(node)) == height_of(
            Some(left),
        ) + 1,
{
    let (low, outer, inner) = split(left);
    if height(&outer) >= height(&inner) {
        proof {
            lemma_regroup(seq_of(outer), low@, seq_of(inner), value@, seq_of(right));
        }
        let upper = make(value, inner, right);
        make(low, outer, Some(upper))
    } else {
        let (mid, inner_low, inner_high) = split(inner.unwrap());
        proof {
            lemma_regroup(seq_of(outer), low@, seq_of(inner_low), mid@, seq_of(inner_high));
            lemma_regroup(
                seq_of(outer) + seq![low@] + seq_of(inner_low),
                mid@,
                seq_of(inner_high),
                value@,
                seq_of(right),
            );
        }
        let lower = make(low, outer, inner_low);
        let upper = make(value, inner_high, right);
        make(mid, Some(lower), Some(upper))
    }
}

/// The node with the given value and sides, the right of which is two
/// higher than the left.
fn rotate_left(value: Field, left: Option<Box<Node>>, right: Box<Node>) -> (node: Box<Node>)
    requires
        balanced(left),
        balanced(Some(right)),
        height_of(Some(right)) == height_of(left) + 2,
        height_of(Some(right)) < usize::MAX,
    ensures
        balanced(Some(node)),
        seq_of(Some(node)) == seq_of(left) + seq![value@] + seq_of(Some(right)),
        height_of(Some(node)) == height_of(Some(right)) || height_of(Some(node)) == height_of(
            Some(right),
        ) + 1,
{
    let (high, inner, outer) = split(right);
    if height(&outer) >= height(&inner) {
        proof {
            lemma_regroup(seq_of(left), value@, seq_of(inner), high@, seq_of(outer));
        }
        let lower = make(value, left, inner);
        make(high, Some(lower), outer)
    } else {
        let (mid, inner_low, inner_high) = split(inner.unwrap());
        proof {
            lemma_regroup(seq_of(inner_low), mid@, seq_of(inner_high), high@, seq_of(outer));
            lemma_regroup(
                seq_of(left),
                value@,
                seq_of(inner_low),
                mid@,
                seq_of(inner_high) + seq![high@] + seq_of(outer),
            );
        }
        let lower = make(value, left, inner_low);
        let upper = make(high, inner_high, outer);
        make(mid, Some(lower), Some(upper))
    }
}

/// The node with the given value and sides, rotated where one side is two
/// higher than the other.
fn rebalance(value: Field, left: Option<Box<Node>>, right: Option<Box<Node>>) -> (node: Box<
    Node,
>)
    requires
        balanced(left),
        balanced(right),
        within(height_of(left), height_of(right), 2),
        higher(height_of(left), height_of(right)) < usize::MAX,
    ensures
        balanced(Some(node)),
        seq_of(Some(node)) == seq_of(left) + seq![value@] + seq_of(right),
        height_of(Some(node)) == higher(height_of(left), height_of(right)) || height_of(
            Some(node),
        ) == higher(height_of(left), height_of(right)) + 1,
        within(height_of(left), height_of(right), 1) ==> height_of(Some(node)) == higher(
            height_of(left),
            height_of(right),
        ) + 1,
{
    let l: usize = height(&left);
    let r: usize = height(&right);
    if l >= 2 && l - 2 == r {
        rotate_right(value, left.unwrap(), right)
    } else if r >= 2 && r - 2 == l {
        rotate_left(value, left, right.unwrap())
    } else {
        make(value, left, right)
    }
}

/// The tree with one more occurrence of `v`, behind the values that do not
/// come after it.
pub fn tree_insert(tree: Option<Box<Node>>, v: Field) -> (grown: Box<Node>)
    requires
        balanced(tree),
        sorted(seq_of(tree)),
        seq_of(tree).len() < usize::MAX,
    ensures
        balanced(Some(grown)),
        seq_of(Some(grown)) == inserted(seq_of(tree), v@),
        height_of(Some(grown)) == height_of(tree) || height_of(Some(grown)) == height_of(tree)
            + 1,
    decreases tree,
{
    proof {
        lemma_height_bound(tree);
    }
    match tree {
        None => {
            let node = make(v, None, None);
            assert(seq_of(Some(node)) =~= inserted(Seq::<FieldValue>::empty(), v@));
            node
        },
        Some(boxed) => {
            let (value, left, right) = split(boxed);
            proof {
                lemma_sorted_parts(seq_of(left), value@, seq_of(right));
                lemma_height_bound(left);
                lemma_height_bound(right);
            }
            match value.compare(&v) {
                Comparison::Greater => {
                    proof {
                        lemma_insert_before(seq_of(left), value@, seq_of(right), v@);
                    }
                    let grown = tree_insert(left, v);
                    rebalance(value, Some(grown), right)
                },
                _ => {
                    proof {
                        lemma_insert_behind(seq_of(left), value@, seq_of(right), v@);
                    }
                    let grown = tree_insert(right, v);
                    rebalance(value, left, Some(grown))
                },
            }
        },
    }
}

/// Takes the least value out of a tree.
fn pop_least(tree: Box<Node>) -> (r: (Field, Option<Box<Node>>))
    requires
        balanced(Some(tree)),
    ensures
        balanced(r.1),
        seq_of(Some(tree)) == seq![r.0@] + seq_of(r.1),
        height_of(r.1) == height_of(Some(tree)) || height_of(r.1) + 1 == height_of(Some(tree)),
    decreases tree,
{
    let (value, left, right) = split(tree);
    match left {
        None => {
            assert(seq_of(Some(tree)) =~= seq![value@] + seq_of(right));
            (value, right)
        },
        Some(l) => {
            let (least, rest) = pop_least(l);
            let node = rebalance(value, rest, right);
            assert(seq_of(Some(tree)) =~= seq![least@] + seq_of(Some(node)));
            (least, Some(node))
        },
    }
}

/// The tree of the values of two trees, the first of which holds nothing
/// that comes after anything in the second.
fn join(left: Option<Box<Node>>, right: Option<Box<Node>>) -> (joined: Option<Box<Node>>)
    requires
        balanced(left),
        balanced(right),
        within(height_of(left), height_of(right), 1),
        higher(height_of(left), height_of(right)) < usize::MAX,
    ensures
        balanced(joined),
        seq_of(joined) == seq_of(left) + seq_of(right),
        height_of(joined) == higher(height_of(left), height_of(right)) || height_of(joined)
            == higher(height_of(left), height_of(right)) + 1,
{
    match right {
        None => {
            assert(seq_of(left) + seq_of(right) =~= seq_of(left));
            left
        },
        Some(r) => {
            let (least, rest) = pop_least(r);
            let node = rebalance(least, left, rest);
            assert(seq_of(Some(node)) =~= seq_of(left) + seq_of(right));
            Some(node)
        },
    }
}

/// The tree without the first value that holds the same place as `v`, and
/// whether there was one.
pub fn tree_remove(tree: Option<Box<Node>>, v: &Field) -> (r: (Option<Box<Node>>, bool))
    requires
        balanced(tree),
        sorted(seq_of(tree)),
    ensures
        balanced(r.0),
        seq_of(r.0) == removed(seq_of(tree), v@),
        r.1 == holds(seq_of(tree), v@),
        height_of(r.0) == height_of(tree) || height_of(r.0) + 1 == height_of(tree),
        !r.1 ==> height_of(r.0) == height_of(tree),
    decreases tree,
{
    match tree {
        None => {
            (None, false)
        },
        Some(boxed) => {
            let (value, left, right) = split(boxed);
            proof {
                lemma_sorted_parts(seq_of(left), value@, seq_of(right));
            }
            match value.compare(v) {
                Comparison::Less => {
                    proof {
                        lemma_remove_behind(seq_of(left), value@, seq_of(right), v@);
                    }
                    let (rest, found) = tree_remove(right, v);
                    (Some(rebalance(value, left, rest)), found)
                },
                relation => {
                    let (rest, found) = tree_remove(left, v);
                    if found {
                        proof {
                            lemma_remove_before(seq_of(left), value@, seq_of(right), v@);
                        }
                        (Some(rebalance(value, rest, right)), true)
                    } else {
                        match relation {
                            Comparison::Equal => {
                                proof {
                                    lemma_remove_here(seq_of(left), value@, seq_of(right), v@);
                                }
                                (join(rest, right), true)
                            },
                            _ => {
                                proof {
                                    lemma_remove_nowhere(seq_of(left), value@, seq_of(right), v@);
                                }
                                (Some(make(value, rest, right)), false)
                            },
                        }
                    }
                },
            }
        },
    }
}

/// The least value of a tree that holds something.
pub fn tree_least(tree: &Box<Node>) -> (least: &Field)
    ensures
        seq_of(Some(*tree)).len() > 0,
        least@ == seq_of(Some(*tree))[0],
    decreases tree,
{
    proof {
        lemma_node(*tree);
    }
    match &tree.left {
        Some(l) => tree_least(l),
        None => {
            assert(seq_of(tree.left) =~= Seq::<FieldValue>::empty());
            &tree.value
        },
    }
}

/// Whether some value of the tree holds the same place as `v`.
pub fn tree_contains(tree: &Option<Box<Node>>, v: &Field) -> (found: bool)
    requires
        sorted(seq_of(*tree)),
    ensures
        found == holds(seq_of(*tree), v@),
    decreases tree,
{
    match tree {
        None => false,
        Some(n) => {
            proof {
                lemma_node(*n);
                lemma_sorted_parts(seq_of(n.left), n.value@, seq_of(n.right));
            }
            match n.value.compare(v) {
                Comparison::Less => {
                    proof {
                        lemma_remove_behind(seq_of(n.left), n.value@, seq_of(n.right), v@);
                    }
                    tree_contains(&n.right, v)
                },
                Comparison::Equal => {
                    proof {
                        if holds(seq_of(n.left), v@) {
                            lemma_remove_before(seq_of(n.left), n.value@, seq_of(n.right), v@);
                        } else {
                            lemma_remove_here(seq_of(n.left), n.value@, seq_of(n.right), v@);
                        }
                    }
                    true
                },
                Comparison::Greater => {
                    proof {
                        if holds(seq_of(n.left), v@) {
                            lemma_remove_before(seq_of(n.left), n.value@, seq_of(n.right), v@);
                        } else {
                            lemma_remove_nowhere(seq_of(n.left), n.value@, seq_of(n.right), v@);
                        }
                    }
                    tree_contains(&n.left, v)
                },
            }
        },
    }
}

} // verus!

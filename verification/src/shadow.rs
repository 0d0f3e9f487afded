use vstd::multiset::Multiset;
use vstd::prelude::*;
use vstd::seq_lib::to_multiset_remove;
use crate::aggregation::GroupView;
use crate::aggregation::Outcome;
use crate::aggregation::TransitionView;
use crate::aggregation::lemma_touch_wf;
use crate::aggregation::touch;
use crate::field::FieldValue;
use crate::field::lemma_order_equal;
use crate::multiset::first_match;
use crate::multiset::holds;
use crate::multiset::insertion_point;
use crate::multiset::inserted;
use crate::multiset::lemma_first_match_bounds;
use crate::multiset::lemma_insertion_point_bounds;
use crate::multiset::lemma_inserted_sorted;
use crate::multiset::lemma_removed_sorted;
use crate::multiset::not_above;
use crate::multiset::removed;
use crate::multiset::sorted;
use crate::order::key_order;

verus! {

/// A change to the rows of one group.
pub enum GroupChange {
    /// A row with this value joins the group.
    Insert { value: FieldValue },
    /// A row with this value leaves the group.
    Delete { value: FieldValue },
    /// A row of the group changes its value.
    Update { old: FieldValue, new: FieldValue },
}

impl GroupChange {
    /// The value that the change retracts.
    pub open spec fn removal(self) -> Option<FieldValue> {
        match self {
            GroupChange::Insert { .. } => None,
            GroupChange::Delete { value } => Some(value),
            GroupChange::Update { old, .. } => Some(old),
        }
    }

    /// The value that the change adds.
    pub open spec fn addition(self) -> Option<FieldValue> {
        match self {
            GroupChange::Insert { value } => Some(value),
            GroupChange::Delete { .. } => None,
            GroupChange::Update { new, .. } => Some(new),
        }
    }
}

/// What the kernel makes of one change to a group.
pub open spec fn apply(group: Option<GroupView>, key: Seq<FieldValue>, change: GroupChange)
    -> Outcome {
    touch(group, key, change.removal(), change.addition())
}

/// The group after the kernel took in a sequence of changes, one after the
/// other.
pub open spec fn run(group: Option<GroupView>, key: Seq<FieldValue>, changes: Seq<GroupChange>)
    -> Option<GroupView>
    decreases changes.len(),
{
    if changes.len() == 0 {
        group
    } else {
        apply(run(group, key, changes.drop_last()), key, changes.last()).group
    }
}

/// The change retracts nothing but what the group holds.
pub open spec fn hits(group: Option<GroupView>, change: GroupChange) -> bool {
    match change.removal() {
        Some(r) => group matches Some(g) && holds(g.values, r),
        None => true,
    }
}

/// Every change of the sequence retracts nothing but what the group holds
/// when the change comes.
pub open spec fn faithful(
    group: Option<GroupView>,
    key: Seq<FieldValue>,
    changes: Seq<GroupChange>,
) -> bool
    decreases changes.len(),
{
    changes.len() == 0 || (faithful(group, key, changes.drop_last()) && hits(
        run(group, key, changes.drop_last()),
        changes.last(),
    ))
}

/// The places in the order of a sequence of values, position by position.
pub open spec fn keys_of(values: Seq<FieldValue>) -> Seq<Seq<int>> {
    Seq::new(values.len(), |i: int| values[i].sort_key())
}

/// What a group holds, as a multiset of places in the order; nothing where
/// the group does not exist.
pub open spec fn held(group: Option<GroupView>) -> Multiset<Seq<int>> {
    match group {
        Some(g) => keys_of(g.values).to_multiset(),
        None => Multiset::empty(),
    }
}

/// The shadow of a group: a plain multiset that a change adds to and takes
/// from, with no thought for order.
pub open spec fn shadow_apply(shadow: Multiset<Seq<int>>, change: GroupChange) -> Multiset<
    Seq<int>,
> {
    let retracted = match change.removal() {
        Some(r) => shadow.remove(r.sort_key()),
        None => shadow,
    };
    match change.addition() {
        Some(v) => retracted.insert(v.sort_key()),
        None => retracted,
    }
}

/// The shadow after a sequence of changes.
pub open spec fn shadow_run(shadow: Multiset<Seq<int>>, changes: Seq<GroupChange>) -> Multiset<
    Seq<int>,
>
    decreases changes.len(),
{
    if changes.len() == 0 {
        shadow
    } else {
        shadow_apply(shadow_run(shadow, changes.drop_last()), changes.last())
    }
}

/// `k` is in the multiset and nothing in the multiset comes before it.
pub open spec fn least_of(k: Seq<int>, m: Multiset<Seq<int>>) -> bool {
    &&& m.count(k) > 0
    &&& forall|x: Seq<int>| m.count(x) > 0 ==> !(#[trigger] key_order(k, x) is Greater)
}

/// The group, if it exists, is well formed and has as many rows as values.
pub open spec fn exact(group: Option<GroupView>) -> bool {
    group matches Some(g) ==> g.wf() && g.rows == g.values.len()
}

proof fn lemma_keys_inserted(values: Seq<FieldValue>, v: FieldValue)
    ensures
        keys_of(inserted(values, v)).to_multiset() == keys_of(values).to_multiset().insert(
            v.sort_key(),
        ),
{
    lemma_insertion_point_bounds(values, v);
    let p = insertion_point(values, v);
    let after = keys_of(inserted(values, v));
    assert(after.remove(p) =~= keys_of(values));
    assert(after[p] == v.sort_key());
    to_multiset_remove(after, p);
    after.to_multiset_ensures();
    assert(after.contains(v.sort_key()));
    assert(after.to_multiset() =~= keys_of(values).to_multiset().insert(v.sort_key()));
}

proof fn lemma_keys_removed(values: Seq<FieldValue>, v: FieldValue)
    requires
        holds(values, v),
    ensures
        keys_of(removed(values, v)).to_multiset() == keys_of(values).to_multiset().remove(
            v.sort_key(),
        ),
{
    lemma_first_match_bounds(values, v);
    let p = first_match(values, v);
    lemma_order_equal(values[p], v);
    let before = keys_of(values);
    assert(before.remove(p) =~= keys_of(removed(values, v)));
    assert(before[p] == v.sort_key());
    to_multiset_remove(before, p);
}

proof fn lemma_first_least(values: Seq<FieldValue>)
    requires
        sorted(values),
        values.len() > 0,
    ensures
        least_of(values[0].sort_key(), keys_of(values).to_multiset()),
{
    let keys = keys_of(values);
    keys.to_multiset_ensures();
    assert(keys[0] == values[0].sort_key());
    assert(keys.contains(values[0].sort_key()));
    assert forall|x: Seq<int>| keys.to_multiset().count(x) > 0 implies !(#[trigger] key_order(
        values[0].sort_key(),
        x,
    ) is Greater) by {
        assert(keys.contains(x));
        let i = choose|i: int| 0 <= i < keys.len() && keys[i] == x;
        if i == 0 {
            lemma_order_equal(values[0], values[0]);
        } else {
            assert(not_above(values[0], values[i]));
        }
    }
}

/// One change keeps the kernel and the shadow together.
pub proof fn lemma_change_tracks_shadow(
    group: Option<GroupView>,
    key: Seq<FieldValue>,
    change: GroupChange,
)
    requires
        exact(group),
        hits(group, change),
    ensures
        exact(apply(group, key, change).group),
        held(apply(group, key, change).group) == shadow_apply(held(group), change),
        apply(group, key, change).group is None <==> shadow_apply(held(group), change).len() == 0,
        apply(group, key, change).group matches Some(g) ==> least_of(
            g.aggregate().sort_key(),
            shadow_apply(held(group), change),
        ),
{
    let out = apply(group, key, change);
    let empty = Seq::<Seq<int>>::empty();
    lemma_touch_wf(group, key, change.removal(), change.addition());
    empty.to_multiset_ensures();
    assert(empty.to_multiset() =~= Multiset::<Seq<int>>::empty());
    match group {
        None => {
            let v = change.addition()->0;
            assert(keys_of(seq![v]) =~= empty.push(v.sort_key()));
            assert(held(out.group) =~= shadow_apply(held(group), change));
        },
        Some(g) => {
            let retracted = match change.removal() {
                Some(r) => removed(g.values, r),
                None => g.values,
            };
            if let Some(r) = change.removal() {
                lemma_removed_sorted(g.values, r);
                lemma_keys_removed(g.values, r);
            }
            if let Some(v) = change.addition() {
                lemma_inserted_sorted(retracted, v);
                lemma_keys_inserted(retracted, v);
            }
            match out.group {
                None => {
                    assert(change.addition() is None);
                    assert(retracted.len() == 0);
                    assert(keys_of(retracted) =~= empty);
                    assert(held(out.group) =~= shadow_apply(held(group), change));
                },
                Some(after) => {
                    assert(held(out.group) =~= shadow_apply(held(group), change));
                },
            }
        },
    }
    match out.group {
        Some(after) => {
            lemma_first_least(after.values);
            keys_of(after.values).to_multiset_ensures();
        },
        None => {},
    }
}

/// The kernel's aggregate is the minimum of a brute-force shadow.
///
/// Start a group and a plain multiset that hold the same, and let both
/// take in the same changes, none of which retracts what the group does
/// not hold at the time. Then after the changes they still hold the same,
/// the group exists exactly when the shadow is not empty, and the
/// aggregate of the group is a least element of the shadow.
pub proof fn lemma_aggregate_tracks_shadow(
    group: Option<GroupView>,
    key: Seq<FieldValue>,
    changes: Seq<GroupChange>,
)
    requires
        exact(group),
        faithful(group, key, changes),
    ensures
        exact(run(group, key, changes)),
        held(run(group, key, changes)) == shadow_run(held(group), changes),
        run(group, key, changes) is None <==> shadow_run(held(group), changes).len() == 0,
        run(group, key, changes) matches Some(g) ==> least_of(
            g.aggregate().sort_key(),
            shadow_run(held(group), changes),
        ),
    decreases changes.len(),
{
    if changes.len() == 0 {
        match group {
            Some(g) => {
                lemma_first_least(g.values);
                keys_of(g.values).to_multiset_ensures();
            },
            None => {},
        }
    } else {
        lemma_aggregate_tracks_shadow(group, key, changes.drop_last());
        lemma_change_tracks_shadow(run(group, key, changes.drop_last()), key, changes.last());
    }
}

/// Which event a change emits is decided by whether the group exists
/// before and after it: `Insert` exactly when the group comes into being,
/// `Delete` exactly when it ceases to exist, `Update` exactly when it
/// exists before and after a change that retracts or adds something, also
/// where the aggregate stays the same, and nothing in all other cases. An
/// event carries the aggregate before the change, the aggregate after it,
/// or both.
pub proof fn lemma_transition_events(
    group: Option<GroupView>,
    key: Seq<FieldValue>,
    removal: Option<FieldValue>,
    addition: Option<FieldValue>,
)
    requires
        group matches Some(g) ==> g.wf(),
    ensures
        ({
            let out = touch(group, key, removal, addition);
            &&& (out.event is Some && out.event->0 is Insert) <==> (group is None
                && out.group is Some)
            &&& (out.event is Some && out.event->0 is Delete) <==> (group is Some
                && out.group is None)
            &&& (out.event is Some && out.event->0 is Update) <==> (group is Some
                && out.group is Some && (removal is Some || addition is Some))
            &&& out.event matches Some(TransitionView::Insert { value }) ==> value
                == out.group->0.aggregate()
            &&& out.event matches Some(TransitionView::Delete { value }) ==> value
                == group->0.aggregate()
            &&& out.event matches Some(TransitionView::Update { old, new }) ==> old
                == group->0.aggregate() && new == out.group->0.aggregate()
        }),
{
    lemma_touch_wf(group, key, removal, addition);
}

/// The aggregate of a group that exists after a change is a least one of
/// the values that the group holds then.
pub proof fn lemma_aggregate_is_least(
    group: Option<GroupView>,
    key: Seq<FieldValue>,
    removal: Option<FieldValue>,
    addition: Option<FieldValue>,
    i: int,
)
    requires
        group matches Some(g) ==> g.wf(),
        touch(group, key, removal, addition).group matches Some(g) && 0 <= i < g.values.len(),
    ensures
        not_above(
            touch(group, key, removal, addition).group->0.aggregate(),
            touch(group, key, removal, addition).group->0.values[i],
        ),
{
    lemma_touch_wf(group, key, removal, addition);
    let after = touch(group, key, removal, addition).group->0;
    if i == 0 {
        lemma_order_equal(after.values[0], after.values[0]);
    }
}

} // verus!

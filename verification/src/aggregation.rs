use vstd::prelude::*;
use crate::errors::ExecutionError;
use crate::errors::ExecutionErrorView;
use crate::field::Field;
use crate::field::FieldValue;
use crate::multiset::OrderedMultiset;
use crate::multiset::inserted;
use crate::multiset::lemma_inserted_sorted;
use crate::multiset::lemma_removed_sorted;
use crate::multiset::removed;
use crate::multiset::sorted;
use crate::field::lemma_order_equal;
use crate::order::Comparison;
use crate::record::Operation;
use crate::record::OperationView;
use crate::record::Record;
use crate::record::clone_fields;
use crate::record::operations_of;
use crate::record::values_of;

verus! {

/// Mathematical value of the state of one group: the key columns of the
/// row that created it, the number of rows that contribute to it, and the
/// values they contributed, from least to greatest.
pub struct GroupView {
    pub key: Seq<FieldValue>,
    pub rows: nat,
    pub values: Seq<FieldValue>,
}

impl GroupView {
    /// What holds of every group that exists: it has at least one row, no
    /// fewer values than rows, and its values in order.
    pub open spec fn wf(self) -> bool {
        &&& sorted(self.values)
        &&& 1 <= self.rows <= self.values.len()
    }

    /// The group's aggregate: the least of its values.
    pub open spec fn aggregate(self) -> FieldValue {
        self.values[0]
    }

    /// One more value can join the group: it holds fewer values than the
    /// machine can count.
    pub open spec fn has_room(self) -> bool {
        self.values.len() < usize::MAX
    }
}

/// Mathematical value of a [`Transition`].
pub enum TransitionView {
    Insert { value: FieldValue },
    Update { old: FieldValue, new: FieldValue },
    Delete { value: FieldValue },
}

/// What one change does to one group: the group afterwards, `None` where
/// it does not exist, and the event to emit, if any.
pub struct Outcome {
    pub group: Option<GroupView>,
    pub event: Option<TransitionView>,
}

/// The values of a group after a retraction and an addition, either of
/// which may be missing. The retraction comes first.
pub open spec fn touched_values(
    values: Seq<FieldValue>,
    removal: Option<FieldValue>,
    addition: Option<FieldValue>,
) -> Seq<FieldValue> {
    let retracted = match removal {
        Some(r) => removed(values, r),
        None => values,
    };
    match addition {
        Some(v) => inserted(retracted, v),
        None => retracted,
    }
}

/// The number of rows of a group after a retraction and an addition.
pub open spec fn touched_rows(rows: nat, removal: Option<FieldValue>, addition: Option<FieldValue>)
    -> int {
    rows - (if removal is Some {
        1int
    } else {
        0int
    }) + (if addition is Some {
        1int
    } else {
        0int
    })
}

/// The transition rule of the kernel.
///
/// `group` is the state of the group before the change, `None` where the
/// group does not exist; `key` is the key that a group created by this
/// change gets; `removal` is the value of a row that leaves the group and
/// `addition` that of a row that joins it.
///
/// - A group that does not exist comes into being with the first row that
///   joins it, and reports `Insert` with that row's value. A retraction
///   from it is void.
/// - A group that exists loses one row with a retraction, whether or not
///   it holds the value retracted, and gains one with an addition. When no
///   row is left it ceases to exist and reports `Delete` with the
///   aggregate it had. Otherwise it reports `Update` from the aggregate it
///   had to the least of its values now, also where the two are the same.
/// - A change that neither retracts nor adds reports nothing.
pub open spec fn touch(
    group: Option<GroupView>,
    key: Seq<FieldValue>,
    removal: Option<FieldValue>,
    addition: Option<FieldValue>,
) -> Outcome {
    match group {
        None => match addition {
            Some(v) => Outcome {
                group: Some(GroupView { key, rows: 1, values: seq![v] }),
                event: Some(TransitionView::Insert { value: v }),
            },
            None => Outcome { group: None, event: None },
        },
        Some(g) => if removal is None && addition is None {
            Outcome { group: Some(g), event: None }
        } else {
            let rows = touched_rows(g.rows, removal, addition);
            let values = touched_values(g.values, removal, addition);
            if rows <= 0 {
                Outcome {
                    group: None,
                    event: Some(TransitionView::Delete { value: g.aggregate() }),
                }
            } else {
                Outcome {
                    group: Some(GroupView { key: g.key, rows: rows as nat, values }),
                    event: Some(TransitionView::Update { old: g.aggregate(), new: values[0] }),
                }
            }
        },
    }
}

/// The rule keeps groups well formed.
pub proof fn lemma_touch_wf(
    group: Option<GroupView>,
    key: Seq<FieldValue>,
    removal: Option<FieldValue>,
    addition: Option<FieldValue>,
)
    requires
        group matches Some(g) ==> g.wf(),
    ensures
        touch(group, key, removal, addition).group matches Some(g) ==> g.wf(),
{
    match group {
        None => {},
        Some(g) => {
            let retracted = match removal {
                Some(r) => removed(g.values, r),
                None => g.values,
            };
            if let Some(r) = removal {
                lemma_removed_sorted(g.values, r);
            }
            if let Some(v) = addition {
                lemma_inserted_sorted(retracted, v);
            }
        },
    }
}

/// The state of one group: the key it was created under, the number of
/// rows that contribute to it, their values in order, and the aggregate
/// that was reported last, which is the least of the values.
pub struct GroupState {
    key: Vec<Field>,
    rows: usize,
    values: OrderedMultiset,
    current: Field,
}

impl View for GroupState {
    type V = GroupView;

    closed spec fn view(&self) -> GroupView {
        GroupView { key: values_of(self.key@), rows: self.rows as nat, values: self.values@ }
    }
}

impl GroupState {
    /// What holds of every group state that this module hands out.
    pub closed spec fn wf(&self) -> bool {
        &&& self.values.wf()
        &&& self@.wf()
        &&& self.current@ == self@.aggregate()
    }

    /// The value of a well-formed state is well formed.
    pub proof fn lemma_wf(&self)
        requires
            self.wf(),
        ensures
            self@.wf(),
    {
    }

    /// The key columns of the row that created the group.
    pub fn key(&self) -> (key: &Vec<Field>)
        ensures
            values_of(key@) == self@.key,
    {
        &self.key
    }

    /// The number of rows that contribute to the group.
    pub fn rows(&self) -> (rows: usize)
        ensures
            rows == self@.rows,
    {
        self.rows
    }

    /// Whether one more value can join the group.
    pub fn has_room(&self) -> (r: bool)
        requires
            self.wf(),
        ensures
            r == self@.has_room(),
    {
        self.values.has_room()
    }

    /// The group's aggregate: the least of its values.
    pub fn aggregate(&self) -> (least: &Field)
        requires
            self.wf(),
        ensures
            least@ == self@.aggregate(),
    {
        &self.current
    }
}

/// The event that a change to one group emits.
#[derive(Debug, PartialEq, Eq)]
pub enum Transition {
    /// The group came into being, with this aggregate.
    Insert { value: Field },
    /// The group stays, and its aggregate went from `old` to `new`.
    Update { old: Field, new: Field },
    /// The group ceased to exist; this was its last aggregate.
    Delete { value: Field },
}

impl View for Transition {
    type V = TransitionView;

    open spec fn view(&self) -> TransitionView {
        match self {
            Transition::Insert { value } => TransitionView::Insert { value: value@ },
            Transition::Update { old, new } => TransitionView::Update { old: old@, new: new@ },
            Transition::Delete { value } => TransitionView::Delete { value: value@ },
        }
    }
}

/// The value of a group that may not exist.
pub open spec fn group_view(group: Option<GroupState>) -> Option<GroupView> {
    match group {
        Some(g) => Some(g@),
        None => None,
    }
}

/// The value of an event that may be missing.
pub open spec fn event_view(event: Option<Transition>) -> Option<TransitionView> {
    match event {
        Some(e) => Some(e@),
        None => None,
    }
}

/// The value of a field that may be missing.
pub open spec fn field_view(field: Option<Field>) -> Option<FieldValue> {
    match field {
        Some(f) => Some(f@),
        None => None,
    }
}

/// Applies the transition rule [`touch`] to one group. A group that a
/// value joins must have room for it.
pub fn touch_group(
    group: Option<GroupState>,
    key: Vec<Field>,
    removal: Option<Field>,
    addition: Option<Field>,
) -> (r: (Option<GroupState>, Option<Transition>))
    requires
        group matches Some(g) ==> g.wf(),
        addition is Some ==> (group matches Some(g) ==> g@.has_room()),
    ensures
        r.0 matches Some(g) ==> g.wf(),
        group_view(r.0) == touch(
            group_view(group),
            values_of(key@),
            field_view(removal),
            field_view(addition),
        ).group,
        event_view(r.1) == touch(
            group_view(group),
            values_of(key@),
            field_view(removal),
            field_view(addition),
        ).event,
{
    proof {
        lemma_touch_wf(
            group_view(group),
            values_of(key@),
            field_view(removal),
            field_view(addition),
        );
    }
    match group {
        None => match addition {
            Some(v) => {
                let reported = v.clone();
                let current = v.clone();
                let mut values = OrderedMultiset::new();
                values.insert(v);
                assert(values@ =~= seq![v@]) by {
                    assert(inserted(Seq::<FieldValue>::empty(), v@) =~= seq![v@]);
                }
                let created = GroupState { key, rows: 1, values, current };
                (Some(created), Some(Transition::Insert { value: reported }))
            },
            None => (None, None),
        },
        Some(g) => {
            if removal.is_none() && addition.is_none() {
                return (Some(g), None);
            }
            let ghost before = g@;
            let GroupState { key: created_under, rows, values, current: previous } = g;
            let mut rows = rows;
            let mut values = values;
            match removal {
                Some(r) => {
                    proof {
                        lemma_removed_sorted(before.values, r@);
                    }
                    let _ = values.remove(&r);
                    rows = rows - 1;
                },
                None => {},
            }
            match addition {
                Some(v) => {
                    values.insert(v);
                    let held: usize = values.len();
                    assert(rows < held);
                    rows = rows + 1;
                },
                None => {},
            }
            if rows == 0 {
                (None, Some(Transition::Delete { value: previous }))
            } else {
                let current = values.min().unwrap().clone();
                let reported = current.clone();
                let after = GroupState { key: created_under, rows, values, current };
                (Some(after), Some(Transition::Update { old: previous, new: reported }))
            }
        },
    }
}

/// What identifies a group: the places that the values of its key columns
/// hold in the order of values. Rows whose key columns agree in this
/// belong to one group.
pub open spec fn group_key(key: Seq<FieldValue>) -> Seq<Seq<int>> {
    Seq::new(key.len(), |i: int| key[i].sort_key())
}

/// The value of a record in a column; null where the record has no such
/// column.
pub open spec fn column_value(record: Seq<FieldValue>, column: usize) -> FieldValue {
    if column < record.len() {
        record[column as int]
    } else {
        FieldValue::Null
    }
}

/// The values of a record in the given columns, in their order.
pub open spec fn projection(record: Seq<FieldValue>, columns: Seq<usize>) -> Seq<FieldValue> {
    Seq::new(columns.len(), |i: int| column_value(record, columns[i]))
}

/// What a row brings to the aggregation: the key of its group and the
/// value it contributes.
pub struct Contribution {
    pub key: Seq<FieldValue>,
    pub value: FieldValue,
}

/// The contribution of a row, `None` where its measure is null: such a row
/// belongs to no group.
pub open spec fn contribution(group_by: Seq<usize>, measure: usize, record: Seq<FieldValue>)
    -> Option<Contribution> {
    let value = column_value(record, measure);
    if value is Null {
        None
    } else {
        Some(Contribution { key: projection(record, group_by), value })
    }
}

/// The operation that reports an event of the group with the given key:
/// its records hold the key columns followed by the aggregate.
pub open spec fn event_operation(key: Seq<FieldValue>, event: TransitionView) -> OperationView {
    match event {
        TransitionView::Insert { value } => OperationView::Insert { new: key.push(value) },
        TransitionView::Update { old, new } => OperationView::Update {
            old: key.push(old),
            new: key.push(new),
        },
        TransitionView::Delete { value } => OperationView::Delete { old: key.push(value) },
    }
}

/// Mathematical value of an [`AggregationProcessor`]: the columns it
/// groups by, the column it takes the minimum of, and its groups by what
/// identifies them.
pub struct ProcessorView {
    pub group_by: Seq<usize>,
    pub measure: usize,
    pub groups: Map<Seq<Seq<int>>, GroupView>,
}

/// The error of an operation whose row would join a group that holds as
/// many values as the machine can count.
pub open spec fn group_full() -> ExecutionErrorView {
    ExecutionErrorView::InternalError("group holds as many values as can be counted"@)
}

/// The group that `key` identifies exists and has no room for one more
/// value.
pub open spec fn is_full(groups: Map<Seq<Seq<int>>, GroupView>, key: Seq<FieldValue>) -> bool {
    group_of(groups, key) matches Some(g) && !g.has_room()
}

/// The contribution of the row that an operation brings in, if it brings
/// one.
pub open spec fn joining(state: ProcessorView, op: OperationView) -> Option<Contribution> {
    match op {
        OperationView::Insert { new } => contribution(state.group_by, state.measure, new),
        OperationView::Update { new, .. } => contribution(state.group_by, state.measure, new),
        OperationView::Delete { .. } => None,
    }
}

/// The operation cannot be taken in: its row would join a group that has
/// no room.
pub open spec fn refused(state: ProcessorView, op: OperationView) -> bool {
    joining(state, op) matches Some(n) && is_full(state.groups, n.key)
}

/// The groups after a change, and the operations that the change emits.
pub struct Step {
    pub groups: Map<Seq<Seq<int>>, GroupView>,
    pub output: Seq<OperationView>,
}

/// The group that `key` identifies among `groups`, `None` where there is
/// none.
pub open spec fn group_of(groups: Map<Seq<Seq<int>>, GroupView>, key: Seq<FieldValue>) -> Option<
    GroupView,
> {
    if groups.dom().contains(group_key(key)) {
        Some(groups[group_key(key)])
    } else {
        None
    }
}

/// Applies the transition rule [`touch`] to the group that `key`
/// identifies. An event is reported under the key that the group was
/// created with.
pub open spec fn touch_in(
    groups: Map<Seq<Seq<int>>, GroupView>,
    key: Seq<FieldValue>,
    removal: Option<FieldValue>,
    addition: Option<FieldValue>,
) -> Step {
    let current = group_of(groups, key);
    let outcome = touch(current, key, removal, addition);
    let reported = match current {
        Some(g) => g.key,
        None => key,
    };
    Step {
        groups: match outcome.group {
            Some(g) => groups.insert(group_key(key), g),
            None => groups.remove(group_key(key)),
        },
        output: match outcome.event {
            Some(e) => seq![event_operation(reported, e)],
            None => Seq::empty(),
        },
    }
}

/// What one operation does to the groups and what it emits.
///
/// - An insert adds the new row's value to the row's group.
/// - A delete retracts the old row's value from the row's group.
/// - An update whose two rows belong to one group retracts the old value
///   from it and adds the new one in a single change, which emits one
///   event. Where they belong to two groups, the new row's group is
///   changed first and then the old row's, each by the rule, and the
///   events come out in that order.
/// - A row whose measure is null belongs to no group and changes nothing.
pub open spec fn aggregate_step(state: ProcessorView, op: OperationView) -> Step {
    let unchanged = Step { groups: state.groups, output: Seq::empty() };
    match op {
        OperationView::Insert { new } => match contribution(state.group_by, state.measure, new) {
            Some(n) => touch_in(state.groups, n.key, None, Some(n.value)),
            None => unchanged,
        },
        OperationView::Delete { old } => match contribution(state.group_by, state.measure, old) {
            Some(o) => touch_in(state.groups, o.key, Some(o.value), None),
            None => unchanged,
        },
        OperationView::Update { old, new } => match (
            contribution(state.group_by, state.measure, old),
            contribution(state.group_by, state.measure, new),
        ) {
            (None, None) => unchanged,
            (Some(o), None) => touch_in(state.groups, o.key, Some(o.value), None),
            (None, Some(n)) => touch_in(state.groups, n.key, None, Some(n.value)),
            (Some(o), Some(n)) => if group_key(o.key) == group_key(n.key) {
                touch_in(state.groups, n.key, Some(o.value), Some(n.value))
            } else {
                let joined = touch_in(state.groups, n.key, None, Some(n.value));
                let left = touch_in(joined.groups, o.key, Some(o.value), None);
                Step { groups: left.groups, output: joined.output + left.output }
            },
        },
    }
}

/// The key under which an event of the group that `key` identifies is
/// reported: the key the group was created with, or `key` itself where
/// the group does not exist yet.
pub open spec fn reported_key(groups: Map<Seq<Seq<int>>, GroupView>, key: Seq<FieldValue>) -> Seq<
    FieldValue,
> {
    match group_of(groups, key) {
        Some(g) => g.key,
        None => key,
    }
}

/// An update that moves a row from one group to another emits exactly two
/// events, one for each group, and each is the event that the transition
/// rule gives for its group alone: first that of the group the row joins,
/// which is an `Insert` where the group did not exist and an `Update`
/// otherwise, then that of the group the row leaves, which is a `Delete`
/// where the group ceases to exist and an `Update` otherwise. The row must
/// leave a group that exists.
pub proof fn lemma_cross_group_update(
    state: ProcessorView,
    old_row: Seq<FieldValue>,
    new_row: Seq<FieldValue>,
)
    requires
        contribution(state.group_by, state.measure, old_row) is Some,
        contribution(state.group_by, state.measure, new_row) is Some,
        group_key(contribution(state.group_by, state.measure, old_row)->0.key) != group_key(
            contribution(state.group_by, state.measure, new_row)->0.key,
        ),
        group_of(
            state.groups,
            contribution(state.group_by, state.measure, old_row)->0.key,
        ) matches Some(g) && g.wf(),
    ensures
        ({
            let o = contribution(state.group_by, state.measure, old_row)->0;
            let n = contribution(state.group_by, state.measure, new_row)->0;
            let step = aggregate_step(
                state,
                OperationView::Update { old: old_row, new: new_row },
            );
            let joined = touch(group_of(state.groups, n.key), n.key, None, Some(n.value));
            let left = touch(group_of(state.groups, o.key), o.key, Some(o.value), None);
            &&& step.output.len() == 2
            &&& joined.event is Some
            &&& left.event is Some
            &&& step.output[0] == event_operation(
                reported_key(state.groups, n.key),
                joined.event->0,
            )
            &&& step.output[1] == event_operation(
                reported_key(state.groups, o.key),
                left.event->0,
            )
            &&& joined.event->0 is Insert <==> group_of(state.groups, n.key) is None
            &&& joined.event->0 is Update <==> group_of(state.groups, n.key) is Some
            &&& left.event->0 is Delete <==> left.group is None
            &&& left.event->0 is Update <==> left.group is Some
            &&& group_of(step.groups, n.key) == joined.group
            &&& group_of(step.groups, o.key) == left.group
        }),
{
    let o = contribution(state.group_by, state.measure, old_row)->0;
    let n = contribution(state.group_by, state.measure, new_row)->0;
    let first = touch_in(state.groups, n.key, None, Some(n.value));
    assert(group_of(first.groups, o.key) == group_of(state.groups, o.key));
    let second = touch_in(first.groups, o.key, Some(o.value), None);
    assert(first.output.len() == 1);
    assert(second.output.len() == 1);
    assert((first.output + second.output)[0] == first.output[0]);
    assert((first.output + second.output)[1] == second.output[0]);
}

/// The values of a list of group states, position by position.
pub open spec fn group_views(groups: Seq<GroupState>) -> Seq<GroupView> {
    Seq::new(groups.len(), |i: int| groups[i]@)
}

/// What identifies the group at a position of a list.
pub open spec fn key_at(groups: Seq<GroupView>, i: int) -> Seq<Seq<int>> {
    group_key(groups[i].key)
}

/// No two groups of the list are identified by the same thing.
pub open spec fn distinct(groups: Seq<GroupView>) -> bool {
    forall|i: int, j: int|
        0 <= i < j < groups.len() ==> #[trigger] key_at(groups, i) != #[trigger] key_at(groups, j)
}

/// Some group of the list is identified by `k`.
pub open spec fn has_group(groups: Seq<GroupView>, k: Seq<Seq<int>>) -> bool {
    exists|i: int| 0 <= i < groups.len() && #[trigger] key_at(groups, i) == k
}

/// The groups of a list, each under what identifies it.
pub open spec fn groups_map(groups: Seq<GroupView>) -> Map<Seq<Seq<int>>, GroupView> {
    Map::new(
        |k: Seq<Seq<int>>| has_group(groups, k),
        |k: Seq<Seq<int>>|
            groups[choose|i: int| 0 <= i < groups.len() && #[trigger] key_at(groups, i) == k],
    )
}

proof fn lemma_groups_map_at(groups: Seq<GroupView>, i: int)
    requires
        distinct(groups),
        0 <= i < groups.len(),
    ensures
        groups_map(groups).dom().contains(key_at(groups, i)),
        groups_map(groups)[key_at(groups, i)] == groups[i],
{
    let k = key_at(groups, i);
    let j = choose|j: int| 0 <= j < groups.len() && #[trigger] key_at(groups, j) == k;
    assert(has_group(groups, k));
    if j < i {
        assert(key_at(groups, j) != key_at(groups, i));
    }
    if i < j {
        assert(key_at(groups, i) != key_at(groups, j));
    }
}

proof fn lemma_groups_map_push(groups: Seq<GroupView>, g: GroupView)
    requires
        distinct(groups),
        !has_group(groups, group_key(g.key)),
    ensures
        distinct(groups.push(g)),
        groups_map(groups.push(g)) == groups_map(groups).insert(group_key(g.key), g),
{
    let after = groups.push(g);
    assert forall|i: int, j: int| 0 <= i < j < after.len() implies #[trigger] key_at(after, i)
        != #[trigger] key_at(after, j) by {
        assert(key_at(after, i) == key_at(groups, i));
        if j < groups.len() {
            assert(key_at(after, j) == key_at(groups, j));
        }
    }
    assert forall|k: Seq<Seq<int>>| has_group(after, k) <==> (has_group(groups, k) || k
        == group_key(g.key)) by {
        if has_group(after, k) {
            let i = choose|i: int| 0 <= i < after.len() && #[trigger] key_at(after, i) == k;
            if i < groups.len() {
                assert(key_at(groups, i) == k);
            }
        }
        if has_group(groups, k) {
            let i = choose|i: int| 0 <= i < groups.len() && #[trigger] key_at(groups, i) == k;
            assert(key_at(after, i) == k);
        }
        if k == group_key(g.key) {
            assert(key_at(after, groups.len() as int) == k);
        }
    }
    assert forall|k: Seq<Seq<int>>| has_group(after, k) implies #[trigger] groups_map(after)[k]
        == groups_map(groups).insert(group_key(g.key), g)[k] by {
        let i = choose|i: int| 0 <= i < after.len() && #[trigger] key_at(after, i) == k;
        lemma_groups_map_at(after, i);
        if i < groups.len() {
            assert(key_at(groups, i) == k);
            lemma_groups_map_at(groups, i);
        }
    }
    assert(groups_map(after) =~= groups_map(groups).insert(group_key(g.key), g));
}

proof fn lemma_groups_map_remove(groups: Seq<GroupView>, at: int)
    requires
        distinct(groups),
        0 <= at < groups.len(),
    ensures
        distinct(groups.remove(at)),
        !has_group(groups.remove(at), key_at(groups, at)),
        groups_map(groups.remove(at)) == groups_map(groups).remove(key_at(groups, at)),
{
    let after = groups.remove(at);
    let gone = key_at(groups, at);
    assert forall|i: int| 0 <= i < after.len() implies #[trigger] key_at(after, i) == key_at(
        groups,
        if i < at {
            i
        } else {
            i + 1
        },
    ) by {}
    assert forall|i: int, j: int| 0 <= i < j < after.len() implies #[trigger] key_at(after, i)
        != #[trigger] key_at(after, j) by {
        let si = if i < at {
            i
        } else {
            i + 1
        };
        let sj = if j < at {
            j
        } else {
            j + 1
        };
        assert(key_at(groups, si) != key_at(groups, sj));
    }
    assert forall|k: Seq<Seq<int>>| has_group(after, k) <==> (has_group(groups, k) && k
        != gone) by {
        if has_group(after, k) {
            let i = choose|i: int| 0 <= i < after.len() && #[trigger] key_at(after, i) == k;
            let si = if i < at {
                i
            } else {
                i + 1
            };
            assert(key_at(groups, si) == k);
            if si < at {
                assert(key_at(groups, si) != key_at(groups, at));
            } else {
                assert(key_at(groups, at) != key_at(groups, si));
            }
        }
        if has_group(groups, k) && k != gone {
            let i = choose|i: int| 0 <= i < groups.len() && #[trigger] key_at(groups, i) == k;
            let shifted = if i < at {
                i
            } else {
                i - 1
            };
            assert(key_at(after, shifted) == k);
        }
    }
    assert forall|k: Seq<Seq<int>>| has_group(after, k) implies #[trigger] groups_map(after)[k]
        == groups_map(groups).remove(gone)[k] by {
        let i = choose|i: int| 0 <= i < after.len() && #[trigger] key_at(after, i) == k;
        lemma_groups_map_at(after, i);
        let si = if i < at {
            i
        } else {
            i + 1
        };
        assert(key_at(groups, si) == k);
        lemma_groups_map_at(groups, si);
    }
    assert(groups_map(after) =~= groups_map(groups).remove(gone));
}

proof fn lemma_groups_map_count(groups: Seq<GroupView>)
    requires
        distinct(groups),
    ensures
        groups_map(groups).dom().finite(),
        groups_map(groups).dom().len() == groups.len(),
    decreases groups.len(),
{
    if groups.len() == 0 {
        assert(groups_map(groups).dom() =~= Set::<Seq<Seq<int>>>::empty());
    } else {
        let front = groups.drop_last();
        let g = groups.last();
        let last = groups.len() - 1;
        assert(groups =~= front.push(g));
        assert forall|i: int, j: int| 0 <= i < j < front.len() implies #[trigger] key_at(front, i)
            != #[trigger] key_at(front, j) by {
            assert(key_at(front, i) == key_at(groups, i));
            assert(key_at(front, j) == key_at(groups, j));
        }
        if has_group(front, group_key(g.key)) {
            let i = choose|i: int|
                0 <= i < front.len() && #[trigger] key_at(front, i) == group_key(g.key);
            assert(key_at(groups, i) == key_at(front, i));
            assert(key_at(groups, i) != key_at(groups, last));
        }
        lemma_groups_map_push(front, g);
        lemma_groups_map_count(front);
        assert(groups_map(groups).dom() =~= groups_map(front).dom().insert(group_key(g.key)));
    }
}

/// Whether two keys identify the same group.
pub fn keys_match(a: &Vec<Field>, b: &Vec<Field>) -> (r: bool)
    ensures
        r == (group_key(values_of(a@)) == group_key(values_of(b@))),
{
    let ghost ka = group_key(values_of(a@));
    let ghost kb = group_key(values_of(b@));
    if a.len() != b.len() {
        assert(ka.len() != kb.len());
        return false;
    }
    let mut i: usize = 0;
    while i < a.len()
        invariant
            i <= a.len(),
            a.len() == b.len(),
            ka == group_key(values_of(a@)),
            kb == group_key(values_of(b@)),
            forall|j: int| 0 <= j < i ==> ka[j] == kb[j],
        decreases a.len() - i,
    {
        proof {
            lemma_order_equal(a[i as int]@, b[i as int]@);
        }
        match a[i].compare(&b[i]) {
            Comparison::Equal => {},
            _ => {
                assert(ka[i as int] != kb[i as int]);
                return false;
            },
        }
        i = i + 1;
    }
    assert(ka =~= kb);
    true
}

/// The record that reports an aggregate of the group with the given key.
fn keyed_record(key: &Vec<Field>, value: Field) -> (record: Record)
    ensures
        record@ == values_of(key@).push(value@),
{
    let mut values = clone_fields(key);
    let ghost copied = values@;
    values.push(value);
    assert(values_of(values@) =~= values_of(copied).push(value@));
    Record::new(values)
}

/// The operation that reports an event of the group with the given key.
fn reported_operation(key: &Vec<Field>, event: Transition) -> (op: Operation)
    ensures
        op@ == event_operation(values_of(key@), event@),
{
    match event {
        Transition::Insert { value } => Operation::Insert { new: keyed_record(key, value) },
        Transition::Update { old, new } => Operation::Update {
            old: keyed_record(key, old),
            new: keyed_record(key, new),
        },
        Transition::Delete { value } => Operation::Delete { old: keyed_record(key, value) },
    }
}

/// Copy of the value of a record in a column; null where the record has no
/// such column.
fn column_of(record: &Record, column: usize) -> (value: Field)
    ensures
        value@ == column_value(record@, column),
{
    if column < record.values.len() {
        record.values[column].clone()
    } else {
        Field::Null
    }
}

/// Copies of the values of a record in the given columns.
fn project(record: &Record, columns: &Vec<usize>) -> (key: Vec<Field>)
    ensures
        values_of(key@) == projection(record@, columns@),
{
    let mut key: Vec<Field> = Vec::new();
    let mut i: usize = 0;
    while i < columns.len()
        invariant
            i <= columns.len(),
            key.len() == i,
            forall|j: int| 0 <= j < i ==> key[j]@ == column_value(record@, columns[j]),
        decreases columns.len() - i,
    {
        key.push(column_of(record, columns[i]));
        i = i + 1;
    }
    assert(values_of(key@) =~= projection(record@, columns@));
    key
}

/// Incremental `MIN` over the rows of each group: for every operation on
/// a row it says how the aggregates of the groups change.
pub struct AggregationProcessor {
    group_by: Vec<usize>,
    measure: usize,
    groups: Vec<GroupState>,
}

impl View for AggregationProcessor {
    type V = ProcessorView;

    closed spec fn view(&self) -> ProcessorView {
        ProcessorView {
            group_by: self.group_by@,
            measure: self.measure,
            groups: groups_map(group_views(self.groups@)),
        }
    }
}

impl AggregationProcessor {
    /// What holds of every processor that this module hands out.
    pub closed spec fn wf(&self) -> bool {
        &&& forall|i: int| 0 <= i < self.groups.len() ==> (#[trigger] self.groups[i]).wf()
        &&& distinct(group_views(self.groups@))
    }

    /// Every group of a processor is well formed.
    pub proof fn lemma_groups_wf(&self, k: Seq<Seq<int>>)
        requires
            self.wf(),
            self@.groups.dom().contains(k),
        ensures
            self@.groups[k].wf(),
            group_key(self@.groups[k].key) == k,
    {
        let views = group_views(self.groups@);
        let i = choose|i: int| 0 <= i < views.len() && #[trigger] key_at(views, i) == k;
        lemma_groups_map_at(views, i);
        assert(self.groups[i].wf());
    }

    /// A processor without groups that groups by the columns `group_by`
    /// and takes the minimum of the column `measure`.
    pub fn new(group_by: Vec<usize>, measure: usize) -> (processor: Self)
        ensures
            processor.wf(),
            processor@ == (ProcessorView {
                group_by: group_by@,
                measure,
                groups: Map::<Seq<Seq<int>>, GroupView>::empty(),
            }),
    {
        let processor = AggregationProcessor { group_by, measure, groups: Vec::new() };
        assert(processor@.groups =~= Map::<Seq<Seq<int>>, GroupView>::empty());
        processor
    }

    /// Position of the group that `key` identifies.
    fn find_group(&self, key: &Vec<Field>) -> (found: Option<usize>)
        requires
            self.wf(),
        ensures
            found matches Some(i) ==> i < self.groups.len() && key_at(
                group_views(self.groups@),
                i as int,
            ) == group_key(values_of(key@)),
            found is None ==> !has_group(group_views(self.groups@), group_key(values_of(key@))),
    {
        let ghost views = group_views(self.groups@);
        let mut i: usize = 0;
        while i < self.groups.len()
            invariant
                i <= self.groups.len(),
                views == group_views(self.groups@),
                forall|j: int| 0 <= j < i ==> #[trigger] key_at(views, j) != group_key(
                    values_of(key@),
                ),
            decreases self.groups.len() - i,
        {
            if keys_match(self.groups[i].key(), key) {
                return Some(i);
            }
            i = i + 1;
        }
        None
    }

    /// The number of groups that exist.
    pub fn group_count(&self) -> (n: usize)
        requires
            self.wf(),
        ensures
            n == self@.groups.dom().len(),
            self@.groups.dom().finite(),
    {
        proof {
            lemma_groups_map_count(group_views(self.groups@));
        }
        self.groups.len()
    }

    /// The aggregate of the group that `key` identifies, `None` where no
    /// such group exists.
    pub fn aggregate_of(&self, key: &Vec<Field>) -> (least: Option<Field>)
        requires
            self.wf(),
        ensures
            match group_of(self@.groups, values_of(key@)) {
                Some(g) => least is Some && least->0@ == g.aggregate(),
                None => least is None,
            },
    {
        match self.find_group(key) {
            Some(i) => {
                proof {
                    lemma_groups_map_at(group_views(self.groups@), i as int);
                }
                Some(self.groups[i].aggregate().clone())
            },
            None => None,
        }
    }

    /// Applies the transition rule to the group that `key` identifies and
    /// appends what it emits to `output`.
    fn touch(
        &mut self,
        key: Vec<Field>,
        removal: Option<Field>,
        addition: Option<Field>,
        output: &mut Vec<Operation>,
    ) -> (done: bool)
        requires
            old(self).wf(),
        ensures
            final(self).wf(),
            final(self)@.group_by == old(self)@.group_by,
            final(self)@.measure == old(self)@.measure,
            done == !(addition is Some && is_full(old(self)@.groups, values_of(key@))),
            !done ==> final(self)@.groups == old(self)@.groups && final(output)@ == old(output)@,
            done ==> final(self)@.groups == touch_in(
                old(self)@.groups,
                values_of(key@),
                field_view(removal),
                field_view(addition),
            ).groups,
            done ==> operations_of(final(output)@) == operations_of(old(output)@) + touch_in(
                old(self)@.groups,
                values_of(key@),
                field_view(removal),
                field_view(addition),
            ).output,
    {
        let ghost before = group_views(self.groups@);
        let ghost emitted = operations_of(output@);
        let ghost k = group_key(values_of(key@));
        let found = self.find_group(&key);
        match found {
            Some(i) => {
                proof {
                    lemma_groups_map_at(before, i as int);
                }
                if addition.is_some() && !self.groups[i].has_room() {
                    return false;
                }
            },
            None => {},
        }
        let (current, reported) = match found {
            Some(i) => {
                proof {
                    lemma_groups_map_at(before, i as int);
                    lemma_groups_map_remove(before, i as int);
                    assert(group_views(self.groups@.remove(i as int)) =~= before.remove(i as int));
                }
                let g = self.groups.remove(i);
                let reported = clone_fields(g.key());
                (Some(g), reported)
            },
            None => {
                let reported = clone_fields(&key);
                (None, reported)
            },
        };
        let ghost rest = group_views(self.groups@);
        assert(distinct(rest));
        assert(!has_group(rest, k));
        assert(groups_map(rest) == groups_map(before).remove(k)) by {
            if found is None {
                assert(groups_map(before).remove(k) =~= groups_map(before));
            }
        }
        let (after, event) = touch_group(current, key, removal, addition);
        match after {
            Some(g) => {
                proof {
                    lemma_groups_map_push(rest, g@);
                    assert(group_views(self.groups@.push(g)) =~= rest.push(g@));
                    assert(groups_map(before).remove(k).insert(k, g@) =~= groups_map(
                        before,
                    ).insert(k, g@));
                }
                self.groups.push(g);
            },
            None => {
                proof {
                    assert(groups_map(before).remove(k).remove(k) =~= groups_map(before).remove(
                        k,
                    ));
                }
            },
        }
        match event {
            Some(e) => {
                let op = reported_operation(&reported, e);
                output.push(op);
                assert(operations_of(output@) =~= emitted + seq![op@]);
            },
            None => {
                assert(operations_of(output@) =~= emitted + Seq::<OperationView>::empty());
            },
        }
        true
    }

    /// The key and the value that a row contributes, `None` where its
    /// measure is null.
    fn contribution_of(&self, record: &Record) -> (c: Option<(Vec<Field>, Field)>)
        ensures
            match contribution(self@.group_by, self@.measure, record@) {
                Some(expected) => c matches Some(pair) && values_of(pair.0@) == expected.key
                    && pair.1@ == expected.value,
                None => c is None,
            },
    {
        let value = column_of(record, self.measure);
        if value.is_null() {
            None
        } else {
            Some((project(record, &self.group_by), value))
        }
    }

    /// Folds one operation into the groups and returns the operations that
    /// report how their aggregates changed, as [`aggregate_step`] says.
    ///
    /// An operation whose row would join a group that holds as many values
    /// as the machine can count is refused and changes nothing.
    pub fn aggregate(&mut self, op: Operation) -> (r: Result<Vec<Operation>, ExecutionError>)
        requires
            old(self).wf(),
        ensures
            final(self).wf(),
            final(self)@.group_by == old(self)@.group_by,
            final(self)@.measure == old(self)@.measure,
            refused(old(self)@, op@) ==> r is Err && r->Err_0@ == group_full() && final(self)@
                == old(self)@,
            !refused(old(self)@, op@) ==> r is Ok && final(self)@.groups == aggregate_step(
                old(self)@,
                op@,
            ).groups && operations_of(r->Ok_0@) == aggregate_step(old(self)@, op@).output,
    {
        let mut output: Vec<Operation> = Vec::new();
        assert(operations_of(output@) =~= Seq::<OperationView>::empty());
        let ghost expected = aggregate_step(self@, op@);
        let done = match op {
            Operation::Insert { new: joining } => {
                match self.contribution_of(&joining) {
                    Some((key, value)) => {
                        let done = self.touch(key, None, Some(value), &mut output);
                        assert(done ==> operations_of(output@) =~= expected.output);
                        done
                    },
                    None => true,
                }
            },
            Operation::Delete { old: leaving } => {
                match self.contribution_of(&leaving) {
                    Some((key, value)) => {
                        let done = self.touch(key, Some(value), None, &mut output);
                        assert(operations_of(output@) =~= expected.output);
                        done
                    },
                    None => true,
                }
            },
            Operation::Update { old: leaving, new: joining } => {
                let retracted = self.contribution_of(&leaving);
                let added = self.contribution_of(&joining);
                match (retracted, added) {
                    (None, None) => true,
                    (Some((key, value)), None) => {
                        let done = self.touch(key, Some(value), None, &mut output);
                        assert(operations_of(output@) =~= expected.output);
                        done
                    },
                    (None, Some((key, value))) => {
                        let done = self.touch(key, None, Some(value), &mut output);
                        assert(done ==> operations_of(output@) =~= expected.output);
                        done
                    },
                    (Some((old_key, old_value)), Some((new_key, new_value))) => {
                        if keys_match(&old_key, &new_key) {
                            let done = self.touch(
                                new_key,
                                Some(old_value),
                                Some(new_value),
                                &mut output,
                            );
                            assert(done ==> operations_of(output@) =~= expected.output);
                            done
                        } else {
                            let done = self.touch(new_key, None, Some(new_value), &mut output);
                            if done {
                                let left = self.touch(old_key, Some(old_value), None, &mut output);
                                assert(operations_of(output@) =~= expected.output);
                            }
                            done
                        }
                    },
                }
            },
        };
        if done {
            Ok(output)
        } else {
            Err(
                ExecutionError::InternalError(
                    "group holds as many values as can be counted".to_string(),
                ),
            )
        }
    }
}

} // verus!

use dozer_core::aggregation::{keys_match, touch_group, AggregationProcessor, GroupState, Transition};
use dozer_core::field::Field;
use dozer_core::record::{Operation, Record};

fn key(country: &str) -> Vec<Field> {
    vec![Field::String(country.to_string())]
}

fn row(country: &str, salary: Field) -> Record {
    Record::new(vec![Field::String(country.to_string()), salary])
}

fn reported(country: &str, aggregate: i64) -> Record {
    Record::new(vec![Field::String(country.to_string()), Field::Int(aggregate)])
}

fn insert(country: &str, salary: i64) -> Operation {
    Operation::Insert { new: row(country, Field::Int(salary)) }
}

fn delete(country: &str, salary: i64) -> Operation {
    Operation::Delete { old: row(country, Field::Int(salary)) }
}

fn update(from: &str, old: i64, to: &str, new: i64) -> Operation {
    Operation::Update { old: row(from, Field::Int(old)), new: row(to, Field::Int(new)) }
}

fn inserted(country: &str, aggregate: i64) -> Operation {
    Operation::Insert { new: reported(country, aggregate) }
}

fn updated(country: &str, old: i64, new: i64) -> Operation {
    Operation::Update { old: reported(country, old), new: reported(country, new) }
}

fn deleted(country: &str, aggregate: i64) -> Operation {
    Operation::Delete { old: reported(country, aggregate) }
}

fn processor() -> AggregationProcessor {
    AggregationProcessor::new(vec![0], 1)
}

fn agg(processor: &mut AggregationProcessor, op: Operation) -> Vec<Operation> {
    processor.aggregate(op).unwrap()
}

#[test]
fn country_minimum_scenario() {
    let mut p = processor();
    assert_eq!(agg(&mut p, insert("Italy", 100)), vec![inserted("Italy", 100)]);
    assert_eq!(agg(&mut p, insert("Italy", 100)), vec![updated("Italy", 100, 100)]);
    assert_eq!(agg(&mut p, insert("Singapore", 50)), vec![inserted("Singapore", 50)]);
    assert_eq!(
        agg(&mut p, update("Singapore", 50, "Italy", 50)),
        vec![updated("Italy", 100, 50), deleted("Singapore", 50)]
    );
    assert_eq!(p.aggregate_of(&key("Singapore")), None);
    assert_eq!(agg(&mut p, delete("Italy", 100)), vec![updated("Italy", 50, 50)]);
    // Italy still holds one row of 100: taking the 50 out moves its minimum.
    assert_eq!(agg(&mut p, delete("Italy", 50)), vec![updated("Italy", 50, 100)]);
    assert_eq!(p.aggregate_of(&key("Italy")), Some(Field::Int(100)));
    // Its last row gone, the group reports the aggregate it had and is absent.
    assert_eq!(agg(&mut p, delete("Italy", 100)), vec![deleted("Italy", 100)]);
    assert_eq!(p.aggregate_of(&key("Italy")), None);
    assert_eq!(p.group_count(), 0);
}

#[test]
fn a_group_reports_insert_then_updates_then_delete() {
    let (group, event) = touch_group(None, key("Italy"), None, Some(Field::Int(7)));
    assert_eq!(event, Some(Transition::Insert { value: Field::Int(7) }));
    let group = group.unwrap();
    assert_eq!(group.rows(), 1);
    assert!(group.has_room());
    assert_eq!(group.key(), &key("Italy"));
    assert_eq!(group.aggregate(), &Field::Int(7));

    // The aggregate does not move, and yet an update is reported.
    let (group, event) = touch_group(Some(group), key("Italy"), None, Some(Field::Int(9)));
    assert_eq!(event, Some(Transition::Update { old: Field::Int(7), new: Field::Int(7) }));
    let group = group.unwrap();
    assert_eq!(group.rows(), 2);

    let (group, event) = touch_group(Some(group), key("Italy"), Some(Field::Int(7)), None);
    assert_eq!(event, Some(Transition::Update { old: Field::Int(7), new: Field::Int(9) }));

    let (group, event) = touch_group(group, key("Italy"), Some(Field::Int(9)), None);
    assert_eq!(event, Some(Transition::Delete { value: Field::Int(9) }));
    assert!(group.is_none());
}

#[test]
fn a_group_that_does_not_exist_reports_nothing_on_a_retraction() {
    let (group, event): (Option<GroupState>, _) =
        touch_group(None, key("Italy"), Some(Field::Int(7)), None);
    assert!(group.is_none());
    assert_eq!(event, None);
    let (group, event) = touch_group(None, key("Italy"), None, None);
    assert!(group.is_none());
    assert_eq!(event, None);
}

#[test]
fn a_change_that_touches_nothing_reports_nothing() {
    let (group, _) = touch_group(None, key("Italy"), None, Some(Field::Int(7)));
    let (group, event) = touch_group(group, key("Italy"), None, None);
    assert_eq!(event, None);
    assert_eq!(group.unwrap().rows(), 1);
}

#[test]
fn an_update_within_a_group_reports_once() {
    let (group, _) = touch_group(None, key("Italy"), None, Some(Field::Int(7)));
    // The only member changes: the group persists throughout.
    let (group, event) =
        touch_group(group, key("Italy"), Some(Field::Int(7)), Some(Field::Int(3)));
    assert_eq!(event, Some(Transition::Update { old: Field::Int(7), new: Field::Int(3) }));
    let group = group.unwrap();
    assert_eq!(group.rows(), 1);
    assert_eq!(group.aggregate(), &Field::Int(3));
}

#[test]
fn an_update_on_a_group_that_does_not_exist_creates_it() {
    let (group, event) = touch_group(None, key("Italy"), Some(Field::Int(7)), Some(Field::Int(3)));
    assert_eq!(event, Some(Transition::Insert { value: Field::Int(3) }));
    assert_eq!(group.unwrap().rows(), 1);
}

#[test]
fn retracting_a_value_that_is_not_held_still_retires_a_row() {
    let mut p = processor();
    agg(&mut p, insert("Italy", 100));
    agg(&mut p, insert("Italy", 50));
    assert_eq!(agg(&mut p, delete("Italy", 200)), vec![updated("Italy", 50, 50)]);
    assert_eq!(agg(&mut p, delete("Italy", 300)), vec![deleted("Italy", 50)]);
    assert_eq!(p.group_count(), 0);
    // The group starts afresh.
    assert_eq!(agg(&mut p, insert("Italy", 70)), vec![inserted("Italy", 70)]);
}

#[test]
fn an_update_across_groups_reports_one_event_for_each() {
    // The joined group exists, the left group stays.
    let mut p = processor();
    agg(&mut p, insert("Italy", 100));
    agg(&mut p, insert("Singapore", 50));
    agg(&mut p, insert("Singapore", 60));
    assert_eq!(
        agg(&mut p, update("Singapore", 50, "Italy", 170)),
        vec![updated("Italy", 100, 100), updated("Singapore", 50, 60)]
    );
    // The joined group comes into being, the left group ceases to exist.
    assert_eq!(
        agg(&mut p, update("Singapore", 60, "France", 10)),
        vec![inserted("France", 10), deleted("Singapore", 60)]
    );
    assert_eq!(p.group_count(), 2);
    assert_eq!(p.aggregate_of(&key("France")), Some(Field::Int(10)));
    assert_eq!(p.aggregate_of(&key("Italy")), Some(Field::Int(100)));
}

#[test]
fn an_update_that_leaves_a_group_that_does_not_exist_reports_the_joined_group_only() {
    let mut p = processor();
    assert_eq!(
        agg(&mut p, update("Singapore", 60, "France", 10)),
        vec![inserted("France", 10)]
    );
}

#[test]
fn rows_with_a_null_measure_belong_to_no_group() {
    let mut p = processor();
    assert_eq!(agg(&mut p, Operation::Insert { new: row("Italy", Field::Null) }), vec![]);
    assert_eq!(p.group_count(), 0);
    agg(&mut p, insert("Italy", 5));
    assert_eq!(agg(&mut p, Operation::Insert { new: row("Italy", Field::Null) }), vec![]);
    assert_eq!(agg(&mut p, Operation::Delete { old: row("Italy", Field::Null) }), vec![]);
    // From null to a value: the row joins. From a value to null: it leaves.
    assert_eq!(
        agg(&mut p, Operation::Update {
            old: row("Italy", Field::Null),
            new: row("Italy", Field::Int(3)),
        }),
        vec![updated("Italy", 5, 3)]
    );
    assert_eq!(
        agg(&mut p, Operation::Update {
            old: row("Italy", Field::Int(3)),
            new: row("Italy", Field::Null),
        }),
        vec![updated("Italy", 3, 5)]
    );
    assert_eq!(
        agg(&mut p, Operation::Update {
            old: row("Italy", Field::Null),
            new: row("Italy", Field::Null),
        }),
        vec![]
    );
    assert_eq!(agg(&mut p, delete("Italy", 5)), vec![deleted("Italy", 5)]);
}

#[test]
fn a_column_that_a_record_lacks_reads_as_null() {
    let mut p = AggregationProcessor::new(vec![0, 5], 1);
    // No measure: the row belongs to no group.
    let short = Record::new(vec![Field::String("Italy".to_string())]);
    assert_eq!(agg(&mut p, Operation::Insert { new: short }), vec![]);
    // No fifth column: null stands in the key.
    assert_eq!(
        agg(&mut p, insert("Italy", 4)),
        vec![Operation::Insert {
            new: Record::new(vec![Field::String("Italy".to_string()), Field::Null, Field::Int(4)]),
        }]
    );
}

#[test]
fn keys_match_by_rank() {
    assert!(keys_match(&key("Italy"), &key("Italy")));
    assert!(!keys_match(&key("Italy"), &key("Singapore")));
    assert!(!keys_match(&key("Italy"), &vec![]));
    assert!(keys_match(&vec![], &vec![]));
    assert!(keys_match(
        &vec![Field::Float(0.0f64.to_bits())],
        &vec![Field::Float((-0.0f64).to_bits())]
    ));
    assert!(!keys_match(&vec![Field::Int(1)], &vec![Field::UInt(1)]));
}

#[test]
fn groups_by_several_columns_and_by_none() {
    let mut p = AggregationProcessor::new(vec![0, 2], 1);
    let r = |a: i64, v: i64, b: i64| Record::new(vec![Field::Int(a), Field::Int(v), Field::Int(b)]);
    assert_eq!(
        agg(&mut p, Operation::Insert { new: r(1, 10, 2) }),
        vec![Operation::Insert {
            new: Record::new(vec![Field::Int(1), Field::Int(2), Field::Int(10)]),
        }]
    );
    assert_eq!(agg(&mut p, Operation::Insert { new: r(1, 5, 3) }).len(), 1);
    assert_eq!(p.group_count(), 2);

    let mut all = AggregationProcessor::new(vec![], 0);
    assert_eq!(
        agg(&mut all, Operation::Insert { new: Record::new(vec![Field::Int(9)]) }),
        vec![Operation::Insert { new: Record::new(vec![Field::Int(9)]) }]
    );
    assert_eq!(
        agg(&mut all, Operation::Insert { new: Record::new(vec![Field::Int(4)]) }),
        vec![Operation::Update {
            old: Record::new(vec![Field::Int(9)]),
            new: Record::new(vec![Field::Int(4)]),
        }]
    );
}

/// Brute-force shadow of one group: a plain list, with the minimum found
/// by a scan.
struct Shadow {
    values: Vec<i64>,
}

impl Shadow {
    fn take(&mut self, v: i64) {
        let at = self.values.iter().position(|x| *x == v).unwrap();
        self.values.remove(at);
    }

    fn min(&self) -> Option<i64> {
        self.values.iter().min().copied()
    }
}

#[test]
fn the_aggregate_is_the_minimum_of_a_shadow_multiset() {
    let mut p = processor();
    let mut shadow = Shadow { values: Vec::new() };
    let mut state: u64 = 0x2545_f491_4f6c_dd1d;
    for _ in 0..3000 {
        state ^= state << 13;
        state ^= state >> 7;
        state ^= state << 17;
        let fresh = (state % 41) as i64 - 20;
        let before = shadow.min();
        let choice = (state >> 40) % 3;
        let op = if shadow.values.is_empty() || choice == 0 {
            shadow.values.push(fresh);
            insert("Italy", fresh)
        } else {
            let held = shadow.values[(state >> 24) as usize % shadow.values.len()];
            shadow.take(held);
            if choice == 1 {
                delete("Italy", held)
            } else {
                shadow.values.push(fresh);
                update("Italy", held, "Italy", fresh)
            }
        };
        let out = agg(&mut p, op);
        let after = shadow.min();
        let expected = match (before, after) {
            (None, Some(a)) => inserted("Italy", a),
            (Some(b), Some(a)) => updated("Italy", b, a),
            (Some(b), None) => deleted("Italy", b),
            (None, None) => unreachable!(),
        };
        assert_eq!(out, vec![expected]);
        assert_eq!(p.aggregate_of(&key("Italy")), after.map(Field::Int));
        assert_eq!(p.group_count(), if after.is_some() { 1 } else { 0 });
    }
}

use chrono::{Datelike, NaiveDate, TimeZone, Utc};
use dozer_core::aggregation::AggregationProcessor;
use dozer_core::decimal::Decimal;
use dozer_core::field::{Field, Timestamp};
use dozer_core::record::{Operation, Record};
use ordered_float::OrderedFloat;

const ITALY: &str = "Italy";
const SINGAPORE: &str = "Singapore";
const DATE4: &str = "2015-10-04";
const DATE8: &str = "2015-10-08";
const DATE16: &str = "2015-10-16";

/// `SELECT Country, MIN(Salary) FROM Users WHERE Salary >= 1 GROUP BY Country`
/// over rows of (ID, Country, Salary, Salary): grouped by column 1, with the
/// minimum taken of column 2. Every row below passes the filter.
fn init_processor() -> AggregationProcessor {
    AggregationProcessor::new(vec![1], 2)
}

fn output(processor: &mut AggregationProcessor, inp: Operation) -> Vec<Operation> {
    processor
        .aggregate(inp)
        .unwrap_or_else(|_e| panic!("Error executing aggregate"))
}

fn row(country: &str, field: &Field) -> Record {
    Record::new(vec![
        Field::Int(0),
        Field::String(country.to_string()),
        field.clone(),
        field.clone(),
    ])
}

fn insert_field(country: &str, insert_field: &Field) -> Operation {
    Operation::Insert {
        new: row(country, insert_field),
    }
}

fn delete_field(country: &str, deleted_field: &Field) -> Operation {
    Operation::Delete {
        old: row(country, deleted_field),
    }
}

fn update_field(
    old_country: &str,
    new_country: &str,
    old: &Field,
    new: &Field,
) -> Operation {
    Operation::Update {
        old: row(old_country, old),
        new: row(new_country, new),
    }
}

fn exp_row(country: &str, field: &Field) -> Record {
    Record::new(vec![Field::String(country.to_string()), field.clone()])
}

fn insert_exp(country: &str, inserted_field: &Field) -> Operation {
    Operation::Insert {
        new: exp_row(country, inserted_field),
    }
}

fn delete_exp(country: &str, deleted_field: &Field) -> Operation {
    Operation::Delete {
        old: exp_row(country, deleted_field),
    }
}

fn update_exp(
    old_country: &str,
    new_country: &str,
    old: &Field,
    new: &Field,
) -> Operation {
    Operation::Update {
        old: exp_row(old_country, old),
        new: exp_row(new_country, new),
    }
}

fn float_field(val: f64) -> Field {
    Field::Float(OrderedFloat(val).into_inner().to_bits())
}

fn get_decimal_field(val: i64) -> Field {
    let parts = rust_decimal::Decimal::new(val, 0).unpack();
    Field::Decimal(
        Decimal::from_parts(parts.lo, parts.mid, parts.hi, parts.negative, parts.scale).unwrap(),
    )
}

fn get_ts_field(val: i64) -> Field {
    let instant = Utc.timestamp_millis_opt(val).unwrap().fixed_offset();
    Field::Timestamp(Timestamp {
        seconds: instant.timestamp(),
        nanos: instant.timestamp_subsec_nanos(),
        offset: instant.offset().local_minus_utc(),
    })
}

fn get_date_field(val: &str) -> Field {
    Field::Date(
        NaiveDate::parse_from_str(val, "%Y-%m-%d")
            .unwrap()
            .num_days_from_ce(),
    )
}

#[test]
fn test_min_aggregation_float() {
    let mut processor = init_processor();
    let field_50 = &float_field(50.0);
    let field_100 = &float_field(100.0);
    let field_200 = &float_field(200.0);

    // Insert 100 for segment Italy
    let mut inp = insert_field(ITALY, field_100);
    let mut out = output(&mut processor, inp);
    let mut exp = vec![insert_exp(ITALY, field_100)];
    assert_eq!(out, exp);

    // Insert another 100 for segment Italy
    inp = insert_field(ITALY, field_100);
    out = output(&mut processor, inp);
    exp = vec![update_exp(ITALY, ITALY, field_100, field_100)];
    assert_eq!(out, exp);

    // Insert 50 for segment Singapore
    inp = insert_field(SINGAPORE, field_50);
    out = output(&mut processor, inp);
    exp = vec![insert_exp(SINGAPORE, field_50)];
    assert_eq!(out, exp);

    // Update Singapore segment to Italy
    inp = update_field(SINGAPORE, ITALY, field_50, field_50);
    out = output(&mut processor, inp);
    exp = vec![
        update_exp(ITALY, ITALY, field_100, field_50),
        delete_exp(SINGAPORE, field_50),
    ];
    assert_eq!(out, exp);

    // Update Italy value 100 -> 200
    inp = update_field(ITALY, ITALY, field_100, field_200);
    out = output(&mut processor, inp);
    exp = vec![update_exp(ITALY, ITALY, field_50, field_50)];
    assert_eq!(out, exp);

    // Delete 1 record (200)
    inp = delete_field(ITALY, field_200);
    out = output(&mut processor, inp);
    exp = vec![update_exp(ITALY, ITALY, field_50, field_50)];
    assert_eq!(out, exp);

    // Delete another record (50)
    inp = delete_field(ITALY, field_50);
    out = output(&mut processor, inp);
    exp = vec![update_exp(ITALY, ITALY, field_50, field_100)];
    assert_eq!(out, exp);

    // Delete last record
    inp = delete_field(ITALY, field_100);
    out = output(&mut processor, inp);
    exp = vec![delete_exp(ITALY, field_100)];
    assert_eq!(out, exp);
}

#[test]
fn test_min_aggregation_int() {
    let mut processor = init_processor();
    let field_50 = &Field::Int(50);
    let field_100 = &Field::Int(100);
    let field_200 = &Field::Int(200);

    // Insert 100 for segment Italy
    let mut inp = insert_field(ITALY, field_100);
    let mut out = output(&mut processor, inp);
    let mut exp = vec![insert_exp(ITALY, field_100)];
    assert_eq!(out, exp);

    // Insert another 100 for segment Italy
    inp = insert_field(ITALY, field_100);
    out = output(&mut processor, inp);
    exp = vec![update_exp(ITALY, ITALY, field_100, field_100)];
    assert_eq!(out, exp);

    // Insert 50 for segment Singapore
    inp = insert_field(SINGAPORE, field_50);
    out = output(&mut processor, inp);
    exp = vec![insert_exp(SINGAPORE, field_50)];
    assert_eq!(out, exp);

    // Update Singapore segment to Italy
    inp = update_field(SINGAPORE, ITALY, field_50, field_50);
    out = output(&mut processor, inp);
    exp = vec![
        update_exp(ITALY, ITALY, field_100, field_50),
        delete_exp(SINGAPORE, field_50),
    ];
    assert_eq!(out, exp);

    // Update Italy value 100 -> 50
    inp = update_field(ITALY, ITALY, field_100, field_50);
    out = output(&mut processor, inp);
    exp = vec![update_exp(ITALY, ITALY, field_50, field_50)];
    assert_eq!(out, exp);

    // Delete 1 record (200), a value that the segment does not hold
    inp = delete_field(ITALY, field_200);
    out = output(&mut processor, inp);
    exp = vec![update_exp(ITALY, ITALY, field_50, field_50)];
    assert_eq!(out, exp);

    // Delete another record (50)
    inp = delete_field(ITALY, field_50);
    out = output(&mut processor, inp);
    exp = vec![update_exp(ITALY, ITALY, field_50, field_50)];
    assert_eq!(out, exp);

    // Delete last record
    inp = delete_field(ITALY, field_100);
    out = output(&mut processor, inp);
    exp = vec![delete_exp(ITALY, field_50)];
    assert_eq!(out, exp);
}

#[test]
fn test_min_aggregation_decimal() {
    let mut processor = init_processor();

    // Insert 100 for segment Italy
    let mut inp = insert_field(ITALY, &get_decimal_field(100));
    let mut out = output(&mut processor, inp);
    let mut exp = vec![insert_exp(ITALY, &get_decimal_field(100))];
    assert_eq!(out, exp);

    // Insert another 100 for segment Italy
    inp = insert_field(ITALY, &get_decimal_field(100));
    out = output(&mut processor, inp);
    exp = vec![update_exp(
        ITALY,
        ITALY,
        &get_decimal_field(100),
        &get_decimal_field(100),
    )];
    assert_eq!(out, exp);

    // Insert 50 for segment Singapore
    inp = insert_field(SINGAPORE, &get_decimal_field(50));
    out = output(&mut processor, inp);
    exp = vec![insert_exp(SINGAPORE, &get_decimal_field(50))];
    assert_eq!(out, exp);

    // Update Singapore segment to Italy
    inp = update_field(
        SINGAPORE,
        ITALY,
        &get_decimal_field(50),
        &get_decimal_field(50),
    );
    out = output(&mut processor, inp);
    exp = vec![
        update_exp(
            ITALY,
            ITALY,
            &get_decimal_field(100),
            &get_decimal_field(50),
        ),
        delete_exp(SINGAPORE, &get_decimal_field(50)),
    ];
    assert_eq!(out, exp);

    // Update Italy value 100 -> 200
    inp = update_field(
        ITALY,
        ITALY,
        &get_decimal_field(100),
        &get_decimal_field(200),
    );
    out = output(&mut processor, inp);
    exp = vec![update_exp(
        ITALY,
        ITALY,
        &get_decimal_field(50),
        &get_decimal_field(50),
    )];
    assert_eq!(out, exp);

    // Delete 1 record (200)
    inp = delete_field(ITALY, &get_decimal_field(200));
    out = output(&mut processor, inp);
    exp = vec![update_exp(
        ITALY,
        ITALY,
        &get_decimal_field(50),
        &get_decimal_field(50),
    )];
    assert_eq!(out, exp);

    // Delete another record (50)
    inp = delete_field(ITALY, &get_decimal_field(50));
    out = output(&mut processor, inp);
    exp = vec![update_exp(
        ITALY,
        ITALY,
        &get_decimal_field(50),
        &get_decimal_field(100),
    )];
    assert_eq!(out, exp);

    // Delete last record
    inp = delete_field(ITALY, &get_decimal_field(100));
    out = output(&mut processor, inp);
    exp = vec![delete_exp(ITALY, &get_decimal_field(100))];
    assert_eq!(out, exp);
}

#[test]
fn test_min_aggregation_timestamp() {
    let mut processor = init_processor();

    // Insert 100 for segment Italy
    let mut inp = insert_field(ITALY, &get_ts_field(100));
    let mut out = output(&mut processor, inp);
    let mut exp = vec![insert_exp(ITALY, &get_ts_field(100))];
    assert_eq!(out, exp);

    // Insert another 100 for segment Italy
    inp = insert_field(ITALY, &get_ts_field(100));
    out = output(&mut processor, inp);
    exp = vec![update_exp(
        ITALY,
        ITALY,
        &get_ts_field(100),
        &get_ts_field(100),
    )];
    assert_eq!(out, exp);

    // Insert 50 for segment Singapore
    inp = insert_field(SINGAPORE, &get_ts_field(50));
    out = output(&mut processor, inp);
    exp = vec![insert_exp(SINGAPORE, &get_ts_field(50))];
    assert_eq!(out, exp);

    // Update Singapore segment to Italy
    inp = update_field(SINGAPORE, ITALY, &get_ts_field(50), &get_ts_field(50));
    out = output(&mut processor, inp);
    exp = vec![
        update_exp(ITALY, ITALY, &get_ts_field(100), &get_ts_field(50)),
        delete_exp(SINGAPORE, &get_ts_field(50)),
    ];
    assert_eq!(out, exp);

    // Update Italy value 100 -> 200
    inp = update_field(ITALY, ITALY, &get_ts_field(100), &get_ts_field(200));
    out = output(&mut processor, inp);
    exp = vec![update_exp(
        ITALY,
        ITALY,
        &get_ts_field(50),
        &get_ts_field(50),
    )];
    assert_eq!(out, exp);

    // Delete 1 record (200)
    inp = delete_field(ITALY, &get_ts_field(200));
    out = output(&mut processor, inp);
    exp = vec![update_exp(
        ITALY,
        ITALY,
        &get_ts_field(50),
        &get_ts_field(50),
    )];
    assert_eq!(out, exp);

    // Delete another record (50)
    inp = delete_field(ITALY, &get_ts_field(50));
    out = output(&mut processor, inp);
    exp = vec![update_exp(
        ITALY,
        ITALY,
        &get_ts_field(50),
        &get_ts_field(100),
    )];
    assert_eq!(out, exp);

    // Delete last record
    inp = delete_field(ITALY, &get_ts_field(100));
    out = output(&mut processor, inp);
    exp = vec![delete_exp(ITALY, &get_ts_field(100))];
    assert_eq!(out, exp);
}

#[test]
fn test_min_aggregation_date() {
    let mut processor = init_processor();

    // Insert 2015-10-08 for segment Italy
    let mut inp = insert_field(ITALY, &get_date_field(DATE8));
    let mut out = output(&mut processor, inp);
    let mut exp = vec![insert_exp(ITALY, &get_date_field(DATE8))];
    assert_eq!(out, exp);

    // Insert another 2015-10-08 for segment Italy
    inp = insert_field(ITALY, &get_date_field(DATE8));
    out = output(&mut processor, inp);
    exp = vec![update_exp(
        ITALY,
        ITALY,
        &get_date_field(DATE8),
        &get_date_field(DATE8),
    )];
    assert_eq!(out, exp);

    // Insert 2015-10-04 for segment Singapore
    inp = insert_field(SINGAPORE, &get_date_field(DATE4));
    out = output(&mut processor, inp);
    exp = vec![insert_exp(SINGAPORE, &get_date_field(DATE4))];
    assert_eq!(out, exp);

    // Update Singapore segment to Italy
    inp = update_field(
        SINGAPORE,
        ITALY,
        &get_date_field(DATE4),
        &get_date_field(DATE4),
    );
    out = output(&mut processor, inp);
    exp = vec![
        update_exp(ITALY, ITALY, &get_date_field(DATE8), &get_date_field(DATE4)),
        delete_exp(SINGAPORE, &get_date_field(DATE4)),
    ];
    assert_eq!(out, exp);

    // Update Italy value 2015-10-08 -> 2015-10-16
    inp = update_field(
        ITALY,
        ITALY,
        &get_date_field(DATE8),
        &get_date_field(DATE16),
    );
    out = output(&mut processor, inp);
    exp = vec![update_exp(
        ITALY,
        ITALY,
        &get_date_field(DATE4),
        &get_date_field(DATE4),
    )];
    assert_eq!(out, exp);

    // Delete 1 record (2015-10-16)
    inp = delete_field(ITALY, &get_date_field(DATE16));
    out = output(&mut processor, inp);
    exp = vec![update_exp(
        ITALY,
        ITALY,
        &get_date_field(DATE4),
        &get_date_field(DATE4),
    )];
    assert_eq!(out, exp);

    // Delete another record (2015-10-04)
    inp = delete_field(ITALY, &get_date_field(DATE4));
    out = output(&mut processor, inp);
    exp = vec![update_exp(
        ITALY,
        ITALY,
        &get_date_field(DATE4),
        &get_date_field(DATE8),
    )];
    assert_eq!(out, exp);

    // Delete last record
    inp = delete_field(ITALY, &get_date_field(DATE8));
    out = output(&mut processor, inp);
    exp = vec![delete_exp(ITALY, &get_date_field(DATE8))];
    assert_eq!(out, exp);
}

use dozer_core::decimal::Decimal;
use dozer_core::field::{DozerDuration, DozerPoint, Field, TimeUnit, Timestamp};
use dozer_core::order::{compare_bytes, Comparison};
use ordered_float::OrderedFloat;
use std::cmp::Ordering;

fn expected(ordering: Ordering) -> Comparison {
    match ordering {
        Ordering::Less => Comparison::Less,
        Ordering::Equal => Comparison::Equal,
        Ordering::Greater => Comparison::Greater,
    }
}

fn decimal(value: rust_decimal::Decimal) -> Decimal {
    let parts = value.unpack();
    Decimal::from_parts(parts.lo, parts.mid, parts.hi, parts.negative, parts.scale).unwrap()
}

#[test]
fn integers_compare_by_value() {
    assert_eq!(Field::Int(-5).compare(&Field::Int(3)), Comparison::Less);
    assert_eq!(Field::Int(3).compare(&Field::Int(3)), Comparison::Equal);
    assert_eq!(Field::Int(i64::MIN).compare(&Field::Int(i64::MAX)), Comparison::Less);
    assert_eq!(Field::UInt(9).compare(&Field::UInt(3)), Comparison::Greater);
    assert_eq!(Field::UInt(u64::MAX).compare(&Field::UInt(0)), Comparison::Greater);
    assert_eq!(Field::U128(u128::MAX).compare(&Field::U128(u128::MAX - 1)), Comparison::Greater);
    assert_eq!(Field::I128(i128::MIN).compare(&Field::I128(-1)), Comparison::Less);
    assert_eq!(Field::I128(7).compare(&Field::I128(7)), Comparison::Equal);
    assert_eq!(Field::Date(735_000).compare(&Field::Date(735_004)), Comparison::Less);
    assert_eq!(Field::Date(-3).compare(&Field::Date(-4)), Comparison::Greater);
}

#[test]
fn booleans_put_false_first() {
    assert_eq!(Field::Boolean(false).compare(&Field::Boolean(true)), Comparison::Less);
    assert_eq!(Field::Boolean(true).compare(&Field::Boolean(true)), Comparison::Equal);
    assert_eq!(Field::Boolean(true).compare(&Field::Boolean(false)), Comparison::Greater);
}

#[test]
fn floats_compare_as_ordered_float_does() {
    let samples = [
        f64::NEG_INFINITY,
        f64::MIN,
        -200.5,
        -1.0,
        -f64::MIN_POSITIVE,
        -5e-324,
        -0.0,
        0.0,
        5e-324,
        f64::MIN_POSITIVE,
        0.5,
        1.0,
        50.0,
        100.0,
        200.0,
        f64::MAX,
        f64::INFINITY,
        f64::NAN,
        -f64::NAN,
    ];
    for a in samples {
        for b in samples {
            let got = Field::Float(a.to_bits()).compare(&Field::Float(b.to_bits()));
            assert_eq!(got, expected(OrderedFloat(a).cmp(&OrderedFloat(b))), "{a} against {b}");
        }
    }
}

#[test]
fn float_rank_has_the_documented_values() {
    assert_eq!(dozer_core::field::rank_of_float(0), 0);
    assert_eq!(dozer_core::field::rank_of_float(1u64 << 63), 0);
    assert_eq!(dozer_core::field::rank_of_float(1), 1);
    assert_eq!(dozer_core::field::rank_of_float((1u64 << 63) + 1), -1);
    assert_eq!(
        dozer_core::field::rank_of_float(f64::INFINITY.to_bits()),
        0x7ff0_0000_0000_0000
    );
    assert_eq!(
        dozer_core::field::rank_of_float(f64::NAN.to_bits()),
        0x7ff0_0000_0000_0001
    );
    assert_eq!(
        dozer_core::field::rank_of_float(f64::NEG_INFINITY.to_bits()),
        -0x7ff0_0000_0000_0000
    );
}

#[test]
fn decimals_compare_as_rust_decimal_does() {
    let samples = [
        rust_decimal::Decimal::new(0, 0),
        rust_decimal::Decimal::new(0, 5),
        rust_decimal::Decimal::new(1, 0),
        rust_decimal::Decimal::new(10, 1),
        rust_decimal::Decimal::new(100, 2),
        rust_decimal::Decimal::new(-1, 0),
        rust_decimal::Decimal::new(-100, 2),
        rust_decimal::Decimal::new(5, 1),
        rust_decimal::Decimal::new(49, 2),
        rust_decimal::Decimal::new(-49, 2),
        rust_decimal::Decimal::new(100, 0),
        rust_decimal::Decimal::new(50, 0),
        rust_decimal::Decimal::new(200, 0),
        rust_decimal::Decimal::new(1, 28),
        rust_decimal::Decimal::MAX,
        rust_decimal::Decimal::MIN,
        rust_decimal::Decimal::from_parts(u32::MAX, u32::MAX, u32::MAX, false, 28),
        rust_decimal::Decimal::from_parts(0, 0, 0, true, 3),
    ];
    for a in samples {
        for b in samples {
            let got = Field::Decimal(decimal(a)).compare(&Field::Decimal(decimal(b)));
            assert_eq!(got, expected(a.cmp(&b)), "{a} against {b}");
            assert_eq!(decimal(a).compare(&decimal(b)), expected(a.cmp(&b)));
        }
    }
}

#[test]
fn decimal_rejects_a_scale_beyond_the_maximum() {
    assert!(Decimal::from_parts(1, 0, 0, false, 28).is_some());
    assert!(Decimal::from_parts(1, 0, 0, false, 29).is_none());
    let d = Decimal::from_parts(1, 2, 3, true, 4).unwrap();
    assert_eq!((d.lo(), d.mid(), d.hi(), d.is_negative(), d.scale()), (1, 2, 3, true, 4));
}

#[test]
fn byte_strings_compare_lexicographically() {
    assert_eq!(compare_bytes(b"", b""), Comparison::Equal);
    assert_eq!(compare_bytes(b"", b"a"), Comparison::Less);
    assert_eq!(compare_bytes(b"a", b""), Comparison::Greater);
    assert_eq!(compare_bytes(b"ab", b"abc"), Comparison::Less);
    assert_eq!(compare_bytes(b"abd", b"abc"), Comparison::Greater);
    assert_eq!(compare_bytes(b"abc", b"abc"), Comparison::Equal);
    assert_eq!(compare_bytes(&[0xff], &[0x00, 0xff]), Comparison::Greater);
}

#[test]
fn text_compares_as_strings_do() {
    let samples = ["", "Italy", "Singapore", "Ital", "italy", "Zürich", "Zurich", "日本", "~"];
    for a in samples {
        for b in samples {
            assert_eq!(
                Field::String(a.to_string()).compare(&Field::String(b.to_string())),
                expected(a.cmp(b))
            );
            assert_eq!(
                Field::Text(a.to_string()).compare(&Field::Text(b.to_string())),
                expected(a.cmp(b))
            );
            assert_eq!(
                Field::Binary(a.as_bytes().to_vec()).compare(&Field::Binary(b.as_bytes().to_vec())),
                expected(a.as_bytes().cmp(b.as_bytes()))
            );
            assert_eq!(
                Field::Bson(a.as_bytes().to_vec()).compare(&Field::Bson(b.as_bytes().to_vec())),
                expected(a.as_bytes().cmp(b.as_bytes()))
            );
        }
    }
}

#[test]
fn timestamps_compare_by_instant_and_ignore_the_offset() {
    let early = Timestamp { seconds: 10, nanos: 999_999_999, offset: 0 };
    let late = Timestamp { seconds: 11, nanos: 0, offset: 0 };
    let late_elsewhere = Timestamp { seconds: 11, nanos: 0, offset: 3600 };
    let later = Timestamp { seconds: 11, nanos: 1, offset: -3600 };
    let before_epoch = Timestamp { seconds: -1, nanos: 5, offset: 0 };
    assert_eq!(Field::Timestamp(early).compare(&Field::Timestamp(late)), Comparison::Less);
    assert_eq!(Field::Timestamp(late).compare(&Field::Timestamp(late_elsewhere)), Comparison::Equal);
    assert_eq!(Field::Timestamp(later).compare(&Field::Timestamp(late)), Comparison::Greater);
    assert_eq!(Field::Timestamp(before_epoch).compare(&Field::Timestamp(early)), Comparison::Less);
}

#[test]
fn points_compare_by_x_then_y() {
    let p = |x: f64, y: f64| Field::Point(DozerPoint { x: x.to_bits(), y: y.to_bits() });
    assert_eq!(p(1.0, 5.0).compare(&p(2.0, 0.0)), Comparison::Less);
    assert_eq!(p(1.0, 5.0).compare(&p(1.0, 6.0)), Comparison::Less);
    assert_eq!(p(1.0, 5.0).compare(&p(1.0, 5.0)), Comparison::Equal);
    assert_eq!(p(-1.0, 5.0).compare(&p(-2.0, 9.0)), Comparison::Greater);
    assert_eq!(p(0.0, -0.0).compare(&p(-0.0, 0.0)), Comparison::Equal);
}

#[test]
fn durations_compare_by_length_then_unit() {
    let d = |seconds: u64, nanos: u32, unit: TimeUnit| {
        Field::Duration(DozerDuration { seconds, nanos, unit })
    };
    assert_eq!(
        d(1, 0, TimeUnit::Nanoseconds).compare(&d(0, 999, TimeUnit::Seconds)),
        Comparison::Greater
    );
    assert_eq!(
        d(1, 5, TimeUnit::Seconds).compare(&d(1, 6, TimeUnit::Seconds)),
        Comparison::Less
    );
    assert_eq!(
        d(1, 5, TimeUnit::Seconds).compare(&d(1, 5, TimeUnit::Milliseconds)),
        Comparison::Less
    );
    assert_eq!(
        d(1, 5, TimeUnit::Nanoseconds).compare(&d(1, 5, TimeUnit::Microseconds)),
        Comparison::Greater
    );
    assert_eq!(
        d(1, 5, TimeUnit::Microseconds).compare(&d(1, 5, TimeUnit::Microseconds)),
        Comparison::Equal
    );
    assert_eq!(TimeUnit::Seconds.rank_value(), 0);
    assert_eq!(TimeUnit::Nanoseconds.rank_value(), 3);
}

#[test]
fn kinds_are_ordered_among_each_other() {
    let one_of_each = vec![
        Field::UInt(u64::MAX),
        Field::U128(0),
        Field::Int(i64::MAX),
        Field::I128(0),
        Field::Float(f64::NAN.to_bits()),
        Field::Boolean(true),
        Field::String("z".to_string()),
        Field::Text("a".to_string()),
        Field::Binary(vec![0xff]),
        Field::Decimal(decimal(rust_decimal::Decimal::MAX)),
        Field::Timestamp(Timestamp { seconds: i64::MAX, nanos: 0, offset: 0 }),
        Field::Date(i32::MAX),
        Field::Bson(vec![]),
        Field::Point(DozerPoint { x: 0, y: 0 }),
        Field::Duration(DozerDuration { seconds: 0, nanos: 0, unit: TimeUnit::Seconds }),
        Field::Null,
    ];
    for (i, a) in one_of_each.iter().enumerate() {
        assert_eq!(a.kind_rank() as usize, i);
        for (j, b) in one_of_each.iter().enumerate() {
            assert_eq!(a.compare(b), expected(i.cmp(&j)));
        }
    }
    assert!(Field::Null.is_null());
    assert!(!Field::Int(0).is_null());
}

#[test]
fn a_copy_of_a_field_equals_it() {
    let fields = vec![
        Field::String("Italy".to_string()),
        Field::Binary(vec![1, 2, 3]),
        Field::Int(-4),
        Field::Null,
    ];
    for f in &fields {
        assert_eq!(&f.clone(), f);
    }
}

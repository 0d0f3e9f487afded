use vstd::prelude::*;
use vstd::utf8::encode_utf8;
use crate::decimal::Decimal;
use crate::order::Comparison;
use crate::order::bytes_key;
use crate::order::compare_bytes;
use crate::order::int_order;
use crate::order::key_order;
use crate::order::lemma_key_order_equal;
use crate::order::lemma_key_order_flip;
use crate::order::lemma_key_order_push_front;
use crate::order::lemma_key_order_transitive;

verus! {

/// Unit in which a duration was expressed.
#[derive(Clone, Copy, Debug, PartialEq, Eq, Structural)]
pub enum TimeUnit {
    Seconds,
    Milliseconds,
    Microseconds,
    Nanoseconds,
}

impl TimeUnit {
    /// Place of the unit among the units, coarsest first.
    pub open spec fn rank(self) -> int {
        match self {
            TimeUnit::Seconds => 0,
            TimeUnit::Milliseconds => 1,
            TimeUnit::Microseconds => 2,
            TimeUnit::Nanoseconds => 3,
        }
    }

    /// Place of the unit among the units, coarsest first.
    pub fn rank_value(&self) -> (r: u8)
        ensures
            r == self.rank(),
    {
        match self {
            TimeUnit::Seconds => 0,
            TimeUnit::Milliseconds => 1,
            TimeUnit::Microseconds => 2,
            TimeUnit::Nanoseconds => 3,
        }
    }
}

/// An instant: whole seconds since the Unix epoch in UTC, the nanoseconds
/// within that second, and the offset from UTC, in seconds, under which the
/// instant was written down. The offset plays no part in the order.
#[derive(Clone, Copy, Debug, PartialEq, Eq, Structural)]
pub struct Timestamp {
    pub seconds: i64,
    pub nanos: u32,
    pub offset: i32,
}

/// A point of the plane. Each coordinate is the IEEE 754 binary64 bit
/// pattern of the number it stands for.
#[derive(Clone, Copy, Debug, PartialEq, Eq, Structural)]
pub struct DozerPoint {
    pub x: u64,
    pub y: u64,
}

/// A span of time with the unit it was expressed in.
#[derive(Clone, Copy, Debug, PartialEq, Eq, Structural)]
pub struct DozerDuration {
    pub seconds: u64,
    pub nanos: u32,
    pub unit: TimeUnit,
}

/// One value of a record.
///
/// A `Float` holds the IEEE 754 binary64 bit pattern of its number, a
/// `Date` the number of days since the first of January of year one.
#[derive(Debug, PartialEq, Eq)]
pub enum Field {
    UInt(u64),
    U128(u128),
    Int(i64),
    I128(i128),
    Float(u64),
    Boolean(bool),
    String(String),
    Text(String),
    Binary(Vec<u8>),
    Decimal(Decimal),
    Timestamp(Timestamp),
    Date(i32),
    Bson(Vec<u8>),
    Point(DozerPoint),
    Duration(DozerDuration),
    Null,
}

/// Mathematical value of a [`Field`].
pub enum FieldValue {
    UInt(u64),
    U128(u128),
    Int(i64),
    I128(i128),
    Float(u64),
    Boolean(bool),
    String(Seq<char>),
    Text(Seq<char>),
    Binary(Seq<u8>),
    Decimal(Decimal),
    Timestamp(Timestamp),
    Date(i32),
    Bson(Seq<u8>),
    Point(DozerPoint),
    Duration(DozerDuration),
    Null,
}

impl View for Field {
    type V = FieldValue;

    open spec fn view(&self) -> FieldValue {
        match self {
            Field::UInt(v) => FieldValue::UInt(*v),
            Field::U128(v) => FieldValue::U128(*v),
            Field::Int(v) => FieldValue::Int(*v),
            Field::I128(v) => FieldValue::I128(*v),
            Field::Float(v) => FieldValue::Float(*v),
            Field::Boolean(v) => FieldValue::Boolean(*v),
            Field::String(v) => FieldValue::String(v@),
            Field::Text(v) => FieldValue::Text(v@),
            Field::Binary(v) => FieldValue::Binary(v@),
            Field::Decimal(v) => FieldValue::Decimal(*v),
            Field::Timestamp(v) => FieldValue::Timestamp(*v),
            Field::Date(v) => FieldValue::Date(*v),
            Field::Bson(v) => FieldValue::Bson(v@),
            Field::Point(v) => FieldValue::Point(*v),
            Field::Duration(v) => FieldValue::Duration(*v),
            Field::Null => FieldValue::Null,
        }
    }
}

/// Place of a binary64 bit pattern in the total order of the numbers such
/// patterns stand for: negative numbers below positive ones, the two zeros
/// together, and every not-a-number pattern together above positive
/// infinity.
pub open spec fn float_rank(bits: u64) -> int {
    let magnitude = (bits % 0x8000_0000_0000_0000) as int;
    if magnitude > 0x7ff0_0000_0000_0000 {
        0x7ff0_0000_0000_0001
    } else if bits >= 0x8000_0000_0000_0000 {
        -magnitude
    } else {
        magnitude
    }
}

/// Computes [`float_rank`].
pub fn rank_of_float(bits: u64) -> (r: i128)
    ensures
        r == float_rank(bits),
{
    let magnitude: u64 = bits % 0x8000_0000_0000_0000;
    if magnitude > 0x7ff0_0000_0000_0000 {
        0x7ff0_0000_0000_0001
    } else if bits >= 0x8000_0000_0000_0000 {
        -(magnitude as i128)
    } else {
        magnitude as i128
    }
}

impl FieldValue {
    /// Place of the value's kind among the kinds.
    pub open spec fn kind_rank(self) -> int {
        match self {
            FieldValue::UInt(_) => 0,
            FieldValue::U128(_) => 1,
            FieldValue::Int(_) => 2,
            FieldValue::I128(_) => 3,
            FieldValue::Float(_) => 4,
            FieldValue::Boolean(_) => 5,
            FieldValue::String(_) => 6,
            FieldValue::Text(_) => 7,
            FieldValue::Binary(_) => 8,
            FieldValue::Decimal(_) => 9,
            FieldValue::Timestamp(_) => 10,
            FieldValue::Date(_) => 11,
            FieldValue::Bson(_) => 12,
            FieldValue::Point(_) => 13,
            FieldValue::Duration(_) => 14,
            FieldValue::Null => 15,
        }
    }

    /// What orders the value among the values of its kind: integers that
    /// are compared position by position.
    pub open spec fn kind_key(self) -> Seq<int> {
        match self {
            FieldValue::UInt(v) => seq![v as int],
            FieldValue::U128(v) => seq![v as int],
            FieldValue::Int(v) => seq![v as int],
            FieldValue::I128(v) => seq![v as int],
            FieldValue::Float(v) => seq![float_rank(v)],
            FieldValue::Boolean(v) => seq![if v { 1int } else { 0int }],
            FieldValue::String(v) => bytes_key(encode_utf8(v)),
            FieldValue::Text(v) => bytes_key(encode_utf8(v)),
            FieldValue::Binary(v) => bytes_key(v),
            FieldValue::Decimal(v) => seq![v.scaled()],
            FieldValue::Timestamp(v) => seq![v.seconds as int, v.nanos as int],
            FieldValue::Date(v) => seq![v as int],
            FieldValue::Bson(v) => bytes_key(v),
            FieldValue::Point(v) => seq![float_rank(v.x), float_rank(v.y)],
            FieldValue::Duration(v) => seq![v.seconds as int, v.nanos as int, v.unit.rank()],
            FieldValue::Null => Seq::empty(),
        }
    }

    /// The integers by which the value is ordered among all values: its
    /// kind first, then its place within the kind.
    pub open spec fn sort_key(self) -> Seq<int> {
        seq![self.kind_rank()] + self.kind_key()
    }

    /// Total order of the values: by kind, and within a kind by value.
    /// Values whose keys agree compare as equal.
    pub open spec fn order(self, other: FieldValue) -> Comparison {
        key_order(self.sort_key(), other.sort_key())
    }

    /// The two values hold the same place in the order.
    pub open spec fn same_rank(self, other: FieldValue) -> bool {
        self.sort_key() == other.sort_key()
    }

    /// The value is the null value.
    pub open spec fn is_null(self) -> bool {
        self is Null
    }
}

/// Within one kind the key of the kind decides.
pub proof fn lemma_order_within_kind(a: FieldValue, b: FieldValue)
    requires
        a.kind_rank() == b.kind_rank(),
    ensures
        a.order(b) == key_order(a.kind_key(), b.kind_key()),
{
    lemma_key_order_push_front(a.kind_rank(), a.kind_key(), b.kind_rank(), b.kind_key());
}

/// Across kinds the kinds decide.
pub proof fn lemma_order_across_kinds(a: FieldValue, b: FieldValue)
    requires
        a.kind_rank() != b.kind_rank(),
    ensures
        a.order(b) == int_order(a.kind_rank(), b.kind_rank()),
{
    lemma_key_order_push_front(a.kind_rank(), a.kind_key(), b.kind_rank(), b.kind_key());
}

/// Two values compare as equal exactly when they hold the same place in
/// the order; in particular every value compares as equal to itself.
pub proof fn lemma_order_equal(a: FieldValue, b: FieldValue)
    ensures
        a.order(b) is Equal <==> a.same_rank(b),
        a.order(a) is Equal,
{
    lemma_key_order_equal(a.sort_key(), b.sort_key());
    lemma_key_order_equal(a.sort_key(), a.sort_key());
}

/// Swapping the operands mirrors the outcome.
pub proof fn lemma_order_flip(a: FieldValue, b: FieldValue)
    ensures
        a.order(b) is Less <==> b.order(a) is Greater,
        a.order(b) is Equal <==> b.order(a) is Equal,
        a.order(b) is Greater <==> b.order(a) is Less,
{
    lemma_key_order_flip(a.sort_key(), b.sort_key());
}

/// The order is transitive, and a strict step anywhere makes the whole
/// chain strict.
pub proof fn lemma_order_transitive(a: FieldValue, b: FieldValue, c: FieldValue)
    requires
        !(a.order(b) is Greater),
        !(b.order(c) is Greater),
    ensures
        !(a.order(c) is Greater),
        a.order(b) is Less || b.order(c) is Less ==> a.order(c) is Less,
{
    lemma_key_order_transitive(a.sort_key(), b.sort_key(), c.sort_key());
}

proof fn lemma_order_one(x: int, y: int)
    ensures
        key_order(seq![x], seq![y]) == int_order(x, y),
{
    assert(seq![x] =~= seq![x] + Seq::<int>::empty());
    assert(seq![y] =~= seq![y] + Seq::<int>::empty());
    lemma_key_order_push_front(x, Seq::empty(), y, Seq::empty());
}

proof fn lemma_order_two(x0: int, x1: int, y0: int, y1: int)
    ensures
        key_order(seq![x0, x1], seq![y0, y1]) == if x0 != y0 {
            int_order(x0, y0)
        } else {
            int_order(x1, y1)
        },
{
    assert(seq![x0, x1] =~= seq![x0] + seq![x1]);
    assert(seq![y0, y1] =~= seq![y0] + seq![y1]);
    lemma_key_order_push_front(x0, seq![x1], y0, seq![y1]);
    lemma_order_one(x1, y1);
}

proof fn lemma_order_three(x0: int, x1: int, x2: int, y0: int, y1: int, y2: int)
    ensures
        key_order(seq![x0, x1, x2], seq![y0, y1, y2]) == if x0 != y0 {
            int_order(x0, y0)
        } else if x1 != y1 {
            int_order(x1, y1)
        } else {
            int_order(x2, y2)
        },
{
    assert(seq![x0, x1, x2] =~= seq![x0] + seq![x1, x2]);
    assert(seq![y0, y1, y2] =~= seq![y0] + seq![y1, y2]);
    lemma_key_order_push_front(x0, seq![x1, x2], y0, seq![y1, y2]);
    lemma_order_two(x1, x2, y1, y2);
}

/// Compares two integers.
fn compare_wide(a: i128, b: i128) -> (r: Comparison)
    ensures
        r == int_order(a as int, b as int),
{
    if a < b {
        Comparison::Less
    } else if a == b {
        Comparison::Equal
    } else {
        Comparison::Greater
    }
}

/// Compares two unsigned integers.
fn compare_unsigned(a: u128, b: u128) -> (r: Comparison)
    ensures
        r == int_order(a as int, b as int),
{
    if a < b {
        Comparison::Less
    } else if a == b {
        Comparison::Equal
    } else {
        Comparison::Greater
    }
}

impl Field {
    /// Place of the value's kind among the kinds.
    pub fn kind_rank(&self) -> (r: u8)
        ensures
            r == self@.kind_rank(),
    {
        match self {
            Field::UInt(_) => 0,
            Field::U128(_) => 1,
            Field::Int(_) => 2,
            Field::I128(_) => 3,
            Field::Float(_) => 4,
            Field::Boolean(_) => 5,
            Field::String(_) => 6,
            Field::Text(_) => 7,
            Field::Binary(_) => 8,
            Field::Decimal(_) => 9,
            Field::Timestamp(_) => 10,
            Field::Date(_) => 11,
            Field::Bson(_) => 12,
            Field::Point(_) => 13,
            Field::Duration(_) => 14,
            Field::Null => 15,
        }
    }

    /// Whether the value is the null value.
    pub fn is_null(&self) -> (r: bool)
        ensures
            r == self@.is_null(),
    {
        match self {
            Field::Null => true,
            _ => false,
        }
    }

    /// Compares two values under the total order of [`FieldValue::order`].
    pub fn compare(&self, other: &Field) -> (r: Comparison)
        ensures
            r == self@.order(other@),
    {
        proof {
            if self@.kind_rank() == other@.kind_rank() {
                lemma_order_within_kind(self@, other@);
            } else {
                lemma_order_across_kinds(self@, other@);
            }
        }
        match (self, other) {
            (Field::UInt(a), Field::UInt(b)) => {
                proof {
                    lemma_order_one(*a as int, *b as int);
                }
                compare_unsigned(*a as u128, *b as u128)
            },
            (Field::U128(a), Field::U128(b)) => {
                proof {
                    lemma_order_one(*a as int, *b as int);
                }
                compare_unsigned(*a, *b)
            },
            (Field::Int(a), Field::Int(b)) => {
                proof {
                    lemma_order_one(*a as int, *b as int);
                }
                compare_wide(*a as i128, *b as i128)
            },
            (Field::I128(a), Field::I128(b)) => {
                proof {
                    lemma_order_one(*a as int, *b as int);
                }
                compare_wide(*a, *b)
            },
            (Field::Float(a), Field::Float(b)) => {
                proof {
                    lemma_order_one(float_rank(*a), float_rank(*b));
                }
                compare_wide(rank_of_float(*a), rank_of_float(*b))
            },
            (Field::Boolean(a), Field::Boolean(b)) => {
                proof {
                    lemma_order_one(if *a { 1 } else { 0 }, if *b { 1 } else { 0 });
                }
                let left: u128 = if *a { 1 } else { 0 };
                let right: u128 = if *b { 1 } else { 0 };
                compare_unsigned(left, right)
            },
            (Field::String(a), Field::String(b)) => compare_bytes(
                a.as_str().as_bytes(),
                b.as_str().as_bytes(),
            ),
            (Field::Text(a), Field::Text(b)) => compare_bytes(
                a.as_str().as_bytes(),
                b.as_str().as_bytes(),
            ),
            (Field::Binary(a), Field::Binary(b)) => compare_bytes(a.as_slice(), b.as_slice()),
            (Field::Decimal(a), Field::Decimal(b)) => {
                proof {
                    lemma_order_one(a.scaled(), b.scaled());
                }
                a.compare(b)
            },
            (Field::Timestamp(a), Field::Timestamp(b)) => {
                proof {
                    lemma_order_two(
                        a.seconds as int,
                        a.nanos as int,
                        b.seconds as int,
                        b.nanos as int,
                    );
                }
                if a.seconds != b.seconds {
                    compare_wide(a.seconds as i128, b.seconds as i128)
                } else {
                    compare_unsigned(a.nanos as u128, b.nanos as u128)
                }
            },
            (Field::Date(a), Field::Date(b)) => {
                proof {
                    lemma_order_one(*a as int, *b as int);
                }
                compare_wide(*a as i128, *b as i128)
            },
            (Field::Bson(a), Field::Bson(b)) => compare_bytes(a.as_slice(), b.as_slice()),
            (Field::Point(a), Field::Point(b)) => {
                proof {
                    lemma_order_two(
                        float_rank(a.x),
                        float_rank(a.y),
                        float_rank(b.x),
                        float_rank(b.y),
                    );
                }
                let left: i128 = rank_of_float(a.x);
                let right: i128 = rank_of_float(b.x);
                if left != right {
                    compare_wide(left, right)
                } else {
                    compare_wide(rank_of_float(a.y), rank_of_float(b.y))
                }
            },
            (Field::Duration(a), Field::Duration(b)) => {
                proof {
                    lemma_order_three(
                        a.seconds as int,
                        a.nanos as int,
                        a.unit.rank(),
                        b.seconds as int,
                        b.nanos as int,
                        b.unit.rank(),
                    );
                }
                if a.seconds != b.seconds {
                    compare_unsigned(a.seconds as u128, b.seconds as u128)
                } else if a.nanos != b.nanos {
                    compare_unsigned(a.nanos as u128, b.nanos as u128)
                } else {
                    compare_unsigned(a.unit.rank_value() as u128, b.unit.rank_value() as u128)
                }
            },
            (Field::Null, Field::Null) => {
                Comparison::Equal
            },
            _ => compare_unsigned(self.kind_rank() as u128, other.kind_rank() as u128),
        }
    }
}

impl Clone for Field {
    fn clone(&self) -> (copy: Self)
        ensures
            copy@ == self@,
    {
        match self {
            Field::UInt(v) => Field::UInt(*v),
            Field::U128(v) => Field::U128(*v),
            Field::Int(v) => Field::Int(*v),
            Field::I128(v) => Field::I128(*v),
            Field::Float(v) => Field::Float(*v),
            Field::Boolean(v) => Field::Boolean(*v),
            Field::String(v) => Field::String(v.clone()),
            Field::Text(v) => Field::Text(v.clone()),
            Field::Binary(v) => Field::Binary(v.clone()),
            Field::Decimal(v) => Field::Decimal(*v),
            Field::Timestamp(v) => Field::Timestamp(*v),
            Field::Date(v) => Field::Date(*v),
            Field::Bson(v) => Field::Bson(v.clone()),
            Field::Point(v) => Field::Point(*v),
            Field::Duration(v) => Field::Duration(*v),
            Field::Null => Field::Null,
        }
    }
}

} // verus!

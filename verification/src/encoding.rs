use vstd::prelude::*;
use vstd::slice::slice_to_vec;
use vstd::utf8::encode_utf8;
use crate::field::Field;
use crate::field::FieldValue;

verus! {

/// The `width` low bytes of a number, highest first.
pub open spec fn be_bytes(value: nat, width: nat) -> Seq<u8>
    decreases width,
{
    if width == 0 {
        Seq::empty()
    } else {
        be_bytes(value / 256, (width - 1) as nat).push((value % 256) as u8)
    }
}

/// The `width` low bytes of a number, lowest first.
pub open spec fn le_bytes(value: nat, width: nat) -> Seq<u8>
    decreases width,
{
    if width == 0 {
        Seq::empty()
    } else {
        seq![(value % 256) as u8] + le_bytes(value / 256, (width - 1) as nat)
    }
}

/// The number below two to the power of `bits` that stands for a signed
/// number in two's complement; `modulus` is that power.
pub open spec fn twos_complement(value: int, modulus: int) -> nat {
    if value >= 0 {
        value as nat
    } else {
        (value + modulus) as nat
    }
}

/// As many bytes are written as were asked for.
pub proof fn lemma_be_bytes_len(value: nat, width: nat)
    ensures
        be_bytes(value, width).len() == width,
    decreases width,
{
    if width > 0 {
        lemma_be_bytes_len(value / 256, (width - 1) as nat);
    }
}

/// As many bytes are written as were asked for.
pub proof fn lemma_le_bytes_len(value: nat, width: nat)
    ensures
        le_bytes(value, width).len() == width,
    decreases width,
{
    if width > 0 {
        lemma_le_bytes_len(value / 256, (width - 1) as nat);
    }
}

/// Appends the `width` low bytes of `value`, highest first.
fn push_be(out: &mut Vec<u8>, value: u128, width: usize)
    ensures
        final(out)@ == old(out)@ + be_bytes(value as nat, width as nat),
    decreases width,
{
    if width > 0 {
        push_be(out, value / 256, width - 1);
        let low: u8 = (value % 256) as u8;
        out.push(low);
        assert(out@ =~= old(out)@ + be_bytes(value as nat, width as nat));
    } else {
        assert(out@ =~= old(out)@ + be_bytes(value as nat, width as nat));
    }
}

/// The two's complement of a signed number of 64 bits.
fn unsigned_of_i64(value: i64) -> (u: u64)
    ensures
        u == twos_complement(value as int, 0x1_0000_0000_0000_0000),
{
    if value >= 0 {
        value as u64
    } else {
        let above_least: u64 = (value - i64::MIN) as u64;
        above_least + 0x8000_0000_0000_0000
    }
}

/// The two's complement of a signed number of 128 bits.
fn unsigned_of_i128(value: i128) -> (u: u128)
    ensures
        u == twos_complement(value as int, 0x1_0000_0000_0000_0000_0000_0000_0000_0000int),
{
    if value >= 0 {
        value as u128
    } else {
        let above_least: u128 = (value - i128::MIN) as u128;
        above_least + 0x8000_0000_0000_0000_0000_0000_0000_0000
    }
}

/// The two's complement of a signed number of 32 bits.
fn unsigned_of_i32(value: i32) -> (u: u32)
    ensures
        u == twos_complement(value as int, 0x1_0000_0000),
{
    if value >= 0 {
        value as u32
    } else {
        let above_least: u32 = (value - i32::MIN) as u32;
        above_least + 0x8000_0000
    }
}

impl FieldValue {
    /// The bytes that stand for the value. Numbers are written highest
    /// byte first and signed ones in two's complement, text in UTF-8,
    /// a decimal as [`crate::decimal::Decimal::serialized`] says, and null
    /// as nothing. A value of several parts has them one after the other.
    pub open spec fn encoding(self) -> Seq<u8> {
        match self {
            FieldValue::UInt(v) => be_bytes(v as nat, 8),
            FieldValue::U128(v) => be_bytes(v as nat, 16),
            FieldValue::Int(v) => be_bytes(twos_complement(v as int, 0x1_0000_0000_0000_0000), 8),
            FieldValue::I128(v) => be_bytes(
                twos_complement(v as int, 0x1_0000_0000_0000_0000_0000_0000_0000_0000int),
                16,
            ),
            FieldValue::Float(v) => be_bytes(v as nat, 8),
            FieldValue::Boolean(v) => seq![if v { 1u8 } else { 0u8 }],
            FieldValue::String(v) => encode_utf8(v),
            FieldValue::Text(v) => encode_utf8(v),
            FieldValue::Binary(v) => v,
            FieldValue::Decimal(v) => v.serialized(),
            FieldValue::Timestamp(v) => be_bytes(
                twos_complement(v.seconds as int, 0x1_0000_0000_0000_0000),
                8,
            ) + be_bytes(v.nanos as nat, 4) + be_bytes(
                twos_complement(v.offset as int, 0x1_0000_0000),
                4,
            ),
            FieldValue::Date(v) => be_bytes(twos_complement(v as int, 0x1_0000_0000), 4),
            FieldValue::Bson(v) => v,
            FieldValue::Point(v) => be_bytes(v.x as nat, 8) + be_bytes(v.y as nat, 8),
            FieldValue::Duration(v) => (be_bytes(v.seconds as nat, 8) + be_bytes(
                v.nanos as nat,
                4,
            )).push(v.unit.rank() as u8),
            FieldValue::Null => Seq::empty(),
        }
    }

    /// The number of bytes that stand for the value: fixed by its kind,
    /// but for text and bytes, which take what they hold.
    pub open spec fn encoding_len(self) -> nat {
        match self {
            FieldValue::UInt(_) => 8,
            FieldValue::U128(_) => 16,
            FieldValue::Int(_) => 8,
            FieldValue::I128(_) => 16,
            FieldValue::Float(_) => 8,
            FieldValue::Boolean(_) => 1,
            FieldValue::String(v) => encode_utf8(v).len(),
            FieldValue::Text(v) => encode_utf8(v).len(),
            FieldValue::Binary(v) => v.len(),
            FieldValue::Decimal(_) => 16,
            FieldValue::Timestamp(_) => 16,
            FieldValue::Date(_) => 4,
            FieldValue::Bson(v) => v.len(),
            FieldValue::Point(_) => 16,
            FieldValue::Duration(_) => 13,
            FieldValue::Null => 0,
        }
    }
}

/// The length of an encoding is the length that its kind announces.
pub proof fn lemma_encoding_len(value: FieldValue)
    ensures
        value.encoding().len() == value.encoding_len(),
{
    match value {
        FieldValue::UInt(v) => lemma_be_bytes_len(v as nat, 8),
        FieldValue::U128(v) => lemma_be_bytes_len(v as nat, 16),
        FieldValue::Int(v) => lemma_be_bytes_len(
            twos_complement(v as int, 0x1_0000_0000_0000_0000),
            8,
        ),
        FieldValue::I128(v) => lemma_be_bytes_len(
            twos_complement(v as int, 0x1_0000_0000_0000_0000_0000_0000_0000_0000int),
            16,
        ),
        FieldValue::Float(v) => lemma_be_bytes_len(v as nat, 8),
        FieldValue::Decimal(v) => {
            lemma_le_bytes_len(v.flags(), 4);
            lemma_le_bytes_len(v.spec_lo() as nat, 4);
            lemma_le_bytes_len(v.spec_mid() as nat, 4);
            lemma_le_bytes_len(v.spec_hi() as nat, 4);
        },
        FieldValue::Timestamp(v) => {
            lemma_be_bytes_len(twos_complement(v.seconds as int, 0x1_0000_0000_0000_0000), 8);
            lemma_be_bytes_len(v.nanos as nat, 4);
            lemma_be_bytes_len(twos_complement(v.offset as int, 0x1_0000_0000), 4);
        },
        FieldValue::Date(v) => lemma_be_bytes_len(twos_complement(v as int, 0x1_0000_0000), 4),
        FieldValue::Point(v) => {
            lemma_be_bytes_len(v.x as nat, 8);
            lemma_be_bytes_len(v.y as nat, 8);
        },
        FieldValue::Duration(v) => {
            lemma_be_bytes_len(v.seconds as nat, 8);
            lemma_be_bytes_len(v.nanos as nat, 4);
        },
        _ => {},
    }
}

impl Field {
    /// The bytes that stand for the value, as [`FieldValue::encoding`]
    /// says.
    pub fn encode_data(&self) -> (bytes: Vec<u8>)
        ensures
            bytes@ == self@.encoding(),
    {
        let mut bytes: Vec<u8> = Vec::new();
        match self {
            Field::UInt(v) => push_be(&mut bytes, *v as u128, 8),
            Field::U128(v) => push_be(&mut bytes, *v, 16),
            Field::Int(v) => push_be(&mut bytes, unsigned_of_i64(*v) as u128, 8),
            Field::I128(v) => push_be(&mut bytes, unsigned_of_i128(*v), 16),
            Field::Float(v) => push_be(&mut bytes, *v as u128, 8),
            Field::Boolean(v) => {
                bytes.push(if *v { 1 } else { 0 });
            },
            Field::String(v) => {
                bytes = slice_to_vec(v.as_str().as_bytes());
            },
            Field::Text(v) => {
                bytes = slice_to_vec(v.as_str().as_bytes());
            },
            Field::Binary(v) => {
                bytes = slice_to_vec(v.as_slice());
            },
            Field::Decimal(v) => {
                bytes = v.serialize();
            },
            Field::Timestamp(v) => {
                push_be(&mut bytes, unsigned_of_i64(v.seconds) as u128, 8);
                push_be(&mut bytes, v.nanos as u128, 4);
                push_be(&mut bytes, unsigned_of_i32(v.offset) as u128, 4);
            },
            Field::Date(v) => push_be(&mut bytes, unsigned_of_i32(*v) as u128, 4),
            Field::Bson(v) => {
                bytes = slice_to_vec(v.as_slice());
            },
            Field::Point(v) => {
                push_be(&mut bytes, v.x as u128, 8);
                push_be(&mut bytes, v.y as u128, 8);
            },
            Field::Duration(v) => {
                push_be(&mut bytes, v.seconds as u128, 8);
                push_be(&mut bytes, v.nanos as u128, 4);
                bytes.push(v.unit.rank_value());
            },
            Field::Null => {},
        }
        assert(bytes@ =~= self@.encoding());
        bytes
    }

    /// The number of bytes that [`Field::encode_data`] returns, found
    /// without encoding.
    pub fn data_encoding_len(&self) -> (n: usize)
        ensures
            n == self@.encoding_len(),
            n == self@.encoding().len(),
    {
        proof {
            lemma_encoding_len(self@);
        }
        match self {
            Field::UInt(_) => 8,
            Field::U128(_) => 16,
            Field::Int(_) => 8,
            Field::I128(_) => 16,
            Field::Float(_) => 8,
            Field::Boolean(_) => 1,
            Field::String(v) => v.as_str().as_bytes().len(),
            Field::Text(v) => v.as_str().as_bytes().len(),
            Field::Binary(v) => v.len(),
            Field::Decimal(_) => 16,
            Field::Timestamp(_) => 16,
            Field::Date(_) => 4,
            Field::Bson(v) => v.len(),
            Field::Point(_) => 16,
            Field::Duration(_) => 13,
            Field::Null => 0,
        }
    }
}

} // verus!

use vstd::prelude::*;
use crate::encoding::le_bytes;
use crate::order::Comparison;
use crate::order::int_order;

verus! {

/// Largest number of decimal places a [`Decimal`] can carry.
pub const MAX_SCALE: u32 = 28;

/// A fixed-point decimal number: a 96-bit unsigned coefficient given as
/// three 32-bit limbs, a sign, and the number of decimal places.
///
/// Its value is the signed coefficient divided by ten to the power of the
/// scale. The scale never exceeds [`MAX_SCALE`].
#[derive(Clone, Copy, Debug, PartialEq, Eq)]
pub struct Decimal {
    lo: u32,
    mid: u32,
    hi: u32,
    negative: bool,
    scale: u32,
}

/// Ten to the power of `n`.
pub open spec fn pow10(n: nat) -> nat
    decreases n,
{
    if n == 0 {
        1
    } else {
        10 * pow10((n - 1) as nat)
    }
}

impl Decimal {
    #[verifier::type_invariant]
    spec fn well_formed(self) -> bool {
        self.scale <= MAX_SCALE
    }

    /// The low 32 bits of the coefficient.
    pub closed spec fn spec_lo(self) -> u32 {
        self.lo
    }

    /// The middle 32 bits of the coefficient.
    pub closed spec fn spec_mid(self) -> u32 {
        self.mid
    }

    /// The high 32 bits of the coefficient.
    pub closed spec fn spec_hi(self) -> u32 {
        self.hi
    }

    /// Whether the sign flag is set.
    pub closed spec fn spec_negative(self) -> bool {
        self.negative
    }

    /// The number of decimal places.
    pub closed spec fn spec_scale(self) -> u32 {
        self.scale
    }

    /// The unsigned coefficient.
    pub open spec fn coefficient(self) -> int {
        self.spec_lo() + self.spec_mid() * 0x1_0000_0000 + self.spec_hi()
            * 0x1_0000_0000_0000_0000
    }

    /// The value multiplied by ten to the power of [`MAX_SCALE`], which is
    /// an integer for every decimal: two decimals are ordered as these
    /// integers are.
    pub open spec fn scaled(self) -> int {
        let magnitude = self.coefficient() * pow10((MAX_SCALE - self.spec_scale()) as nat);
        if self.spec_negative() {
            -magnitude
        } else {
            magnitude
        }
    }

    /// The flags word of the decimal: the scale in its third byte and the
    /// sign in its highest bit. Zero carries no sign.
    pub open spec fn flags(self) -> nat {
        (self.spec_scale() * 0x1_0000 + if self.spec_negative() && self.coefficient() != 0 {
            0x8000_0000int
        } else {
            0int
        }) as nat
    }

    /// The sixteen bytes that stand for the decimal: the flags word and
    /// the three limbs of the coefficient from low to high, each with its
    /// low byte first.
    pub open spec fn serialized(self) -> Seq<u8> {
        le_bytes(self.flags(), 4) + le_bytes(self.spec_lo() as nat, 4) + le_bytes(
            self.spec_mid() as nat,
            4,
        ) + le_bytes(self.spec_hi() as nat, 4)
    }

    /// Numeric order of two decimals.
    pub open spec fn order(self, other: Decimal) -> Comparison {
        int_order(self.scaled(), other.scaled())
    }

    /// Builds a decimal from its parts, or `None` where `scale` exceeds
    /// [`MAX_SCALE`].
    pub fn from_parts(lo: u32, mid: u32, hi: u32, negative: bool, scale: u32) -> (d: Option<
        Decimal,
    >)
        ensures
            d is Some <==> scale <= MAX_SCALE,
            d matches Some(d) ==> {
                &&& d.spec_lo() == lo
                &&& d.spec_mid() == mid
                &&& d.spec_hi() == hi
                &&& d.spec_negative() == negative
                &&& d.spec_scale() == scale
            },
    {
        if scale <= MAX_SCALE {
            Some(Decimal { lo, mid, hi, negative, scale })
        } else {
            None
        }
    }

    /// The low 32 bits of the coefficient.
    pub fn lo(&self) -> (r: u32)
        ensures
            r == self.spec_lo(),
    {
        self.lo
    }

    /// The middle 32 bits of the coefficient.
    pub fn mid(&self) -> (r: u32)
        ensures
            r == self.spec_mid(),
    {
        self.mid
    }

    /// The high 32 bits of the coefficient.
    pub fn hi(&self) -> (r: u32)
        ensures
            r == self.spec_hi(),
    {
        self.hi
    }

    /// Whether the sign flag is set.
    pub fn is_negative(&self) -> (r: bool)
        ensures
            r == self.spec_negative(),
    {
        self.negative
    }

    /// The number of decimal places.
    pub fn scale(&self) -> (r: u32)
        ensures
            r == self.spec_scale(),
            r <= MAX_SCALE,
    {
        proof {
            use_type_invariant(self);
        }
        self.scale
    }

    /// The bytes that stand for the decimal.
    pub fn serialize(&self) -> (bytes: Vec<u8>)
        ensures
            bytes@ == self.serialized(),
    {
        proof {
            use_type_invariant(self);
        }
        serialized_parts(self)
    }

    /// Compares two decimals by value: trailing zeros and the sign of zero
    /// make no difference.
    pub fn compare(&self, other: &Decimal) -> (r: Comparison)
        ensures
            r == self.order(*other),
    {
        proof {
            use_type_invariant(self);
            use_type_invariant(other);
        }
        numeric_order(self, other)
    }
}

/// Calls `rust_decimal::Decimal::from_parts` on the parts of the decimal
/// and `serialize` on the result.
///
/// Trusted: that `serialize` lays out the flags word and the three limbs
/// as [`Decimal::serialized`] says, and that `from_parts` drops the sign of
/// a zero. `from_parts` panics on a scale above [`MAX_SCALE`], which
/// `requires` rules out.
#[verifier::external_body]
fn serialized_parts(d: &Decimal) -> (bytes: Vec<u8>)
    requires
        d.spec_scale() <= MAX_SCALE,
    ensures
        bytes@ == d.serialized(),
{
    rust_decimal::Decimal::from_parts(d.lo, d.mid, d.hi, d.negative, d.scale).serialize().to_vec()
}

/// Calls `rust_decimal::Decimal::from_parts` on the parts of each operand
/// and `Ord::cmp` on the two results.
///
/// Trusted: that `cmp` orders decimals by their numeric value, whatever
/// their scales, and takes a zero with the sign flag set for zero.
/// `from_parts` panics on a scale above [`MAX_SCALE`], which `requires`
/// rules out.
#[verifier::external_body]
fn numeric_order(a: &Decimal, b: &Decimal) -> (r: Comparison)
    requires
        a.spec_scale() <= MAX_SCALE,
        b.spec_scale() <= MAX_SCALE,
    ensures
        r == a.order(*b),
{
    let left = rust_decimal::Decimal::from_parts(a.lo, a.mid, a.hi, a.negative, a.scale);
    let right = rust_decimal::Decimal::from_parts(b.lo, b.mid, b.hi, b.negative, b.scale);
    match left.cmp(&right) {
        std::cmp::Ordering::Less => Comparison::Less,
        std::cmp::Ordering::Equal => Comparison::Equal,
        std::cmp::Ordering::Greater => Comparison::Greater,
    }
}

} // verus!

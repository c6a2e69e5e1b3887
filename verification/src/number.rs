//! Numbers as plain data.
//!
//! Geometry, spring constants and scalar fields are IEEE-754 values. The library never does
//! arithmetic on them: it picks, compares and clamps. So it carries the bit pattern of each
//! value, and for a scalar field its decimal rendering too, and orders values by their bits.

use vstd::prelude::*;

use crate::names::NameMap;

verus! {

/// A single-precision value, held as its IEEE-754 bit pattern.
#[derive(Clone, Copy, Debug, PartialEq, Eq, Structural)]
pub struct F32(pub u32);

/// The sign bit of a single-precision pattern.
pub const F32_SIGN: u32 = 0x8000_0000;

/// The pattern of single-precision infinity; a larger magnitude is a NaN.
pub const F32_INFINITY: u32 = 0x7F80_0000;

impl F32 {
    /// The pattern without its sign bit.
    pub open spec fn magnitude(self) -> int {
        if self.0 < F32_SIGN {
            self.0 as int
        } else {
            self.0 - F32_SIGN
        }
    }

    /// Whether the value is a NaN.
    pub open spec fn is_nan(self) -> bool {
        self.magnitude() > F32_INFINITY
    }

    /// Numeric equality: a NaN equals nothing, and the two zeros are equal.
    pub open spec fn equals(self, other: F32) -> bool {
        &&& !self.is_nan()
        &&& !other.is_nan()
        &&& (self.0 == other.0 || (self.magnitude() == 0 && other.magnitude() == 0))
    }

    /// Compares two values as numbers.
    pub fn same_value(self, other: F32) -> (r: bool)
        ensures
            r == self.equals(other),
    {
        let a: u32 = if self.0 < F32_SIGN {
            self.0
        } else {
            self.0 - F32_SIGN
        };
        let b: u32 = if other.0 < F32_SIGN {
            other.0
        } else {
            other.0 - F32_SIGN
        };
        if a > F32_INFINITY || b > F32_INFINITY {
            false
        } else {
            self.0 == other.0 || (a == 0 && b == 0)
        }
    }
}

/// The sign bit of a double-precision pattern.
pub const F64_SIGN: u64 = 0x8000_0000_0000_0000;

/// The pattern of double-precision infinity; a larger magnitude is a NaN.
pub const F64_INFINITY: u64 = 0x7FF0_0000_0000_0000;

/// The pattern of the double 1.
pub const F64_ONE: u64 = 0x3FF0_0000_0000_0000;

/// A double-precision scalar: its IEEE-754 bit pattern and its decimal rendering. Whoever makes
/// one renders it; every operation here hands one of its operands on, pattern and rendering
/// together.
#[derive(Debug, PartialEq, Eq)]
pub struct Number {
    pub bits: u64,
    pub text: String,
}

/// The view of a [`Number`].
pub struct NumberView {
    pub bits: u64,
    pub text: Seq<char>,
}

impl View for Number {
    type V = NumberView;

    open spec fn view(&self) -> NumberView {
        NumberView { bits: self.bits, text: self.text@ }
    }
}

impl Clone for Number {
    fn clone(&self) -> (r: Self)
        ensures
            r == *self,
    {
        Number { bits: self.bits, text: self.text.clone() }
    }
}

/// The double 0, rendered `0`.
pub open spec fn zero() -> NumberView {
    NumberView { bits: 0, text: seq!['0'] }
}

/// The double 1, rendered `1`.
pub open spec fn one() -> NumberView {
    NumberView { bits: F64_ONE, text: seq!['1'] }
}

/// The magnitude of a double-precision pattern.
pub open spec fn f64_magnitude(bits: u64) -> int {
    if bits < F64_SIGN {
        bits as int
    } else {
        bits - F64_SIGN
    }
}

/// Whether a double-precision pattern is a NaN.
pub open spec fn f64_is_nan(bits: u64) -> bool {
    f64_magnitude(bits) > F64_INFINITY
}

/// Where a double-precision pattern that is no NaN stands in the order of the reals: a larger
/// number has a larger rank, equal numbers (the two zeros) have equal ranks.
pub open spec fn f64_rank(bits: u64) -> int {
    if bits < F64_SIGN {
        bits as int
    } else {
        -(bits - F64_SIGN)
    }
}

/// Whether the number `a` is less than `b`. A NaN is not less than anything, nor greater.
pub open spec fn f64_less(a: u64, b: u64) -> bool {
    !f64_is_nan(a) && !f64_is_nan(b) && f64_rank(a) < f64_rank(b)
}

/// The larger of two numbers, `a` on a tie; the other one when one is a NaN.
pub open spec fn max_spec(a: NumberView, b: NumberView) -> NumberView {
    if f64_is_nan(a.bits) || f64_less(a.bits, b.bits) {
        b
    } else {
        a
    }
}

/// The smaller of two numbers, `a` on a tie; the other one when one is a NaN.
pub open spec fn min_spec(a: NumberView, b: NumberView) -> NumberView {
    if f64_is_nan(a.bits) || f64_less(b.bits, a.bits) {
        b
    } else {
        a
    }
}

/// `v` confined to `[0, 1]`; a NaN is left as it is.
pub open spec fn unit_spec(v: NumberView) -> NumberView {
    if f64_less(v.bits, 0) {
        zero()
    } else if f64_less(F64_ONE, v.bits) {
        one()
    } else {
        v
    }
}

/// Whether a number is neither zero nor anything equal to it.
pub open spec fn nonzero_spec(bits: u64) -> bool {
    f64_magnitude(bits) != 0
}

fn magnitude(bits: u64) -> (r: u64)
    ensures
        r == f64_magnitude(bits),
{
    if bits < F64_SIGN {
        bits
    } else {
        bits - F64_SIGN
    }
}

fn less(a: u64, b: u64) -> (r: bool)
    ensures
        r == f64_less(a, b),
{
    let x = magnitude(a);
    let y = magnitude(b);
    if x > F64_INFINITY || y > F64_INFINITY {
        false
    } else if a < F64_SIGN {
        b < F64_SIGN && x < y
    } else if b < F64_SIGN {
        x > 0 || y > 0
    } else {
        y < x
    }
}

impl Number {
    /// The number 0.
    pub fn zero() -> (r: Number)
        ensures
            r@ == zero(),
    {
        proof {
            reveal_strlit("0");
        }
        let r = Number { bits: 0, text: "0".to_string() };
        assert(r.text@ =~= seq!['0']);
        r
    }

    /// The number 1.
    pub fn one() -> (r: Number)
        ensures
            r@ == one(),
    {
        proof {
            reveal_strlit("1");
        }
        let r = Number { bits: F64_ONE, text: "1".to_string() };
        assert(r.text@ =~= seq!['1']);
        r
    }

    /// The larger of `self` and `other`.
    pub fn max(self, other: &Number) -> (r: Number)
        ensures
            r@ == max_spec(self@, other@),
    {
        if magnitude(self.bits) > F64_INFINITY || less(self.bits, other.bits) {
            other.clone()
        } else {
            self
        }
    }

    /// The smaller of `self` and `other`.
    pub fn min(self, other: &Number) -> (r: Number)
        ensures
            r@ == min_spec(self@, other@),
    {
        if magnitude(self.bits) > F64_INFINITY || less(other.bits, self.bits) {
            other.clone()
        } else {
            self
        }
    }

    /// `self` confined to `[0, 1]`.
    pub fn clamp_unit(self) -> (r: Number)
        ensures
            r@ == unit_spec(self@),
    {
        if less(self.bits, 0) {
            Number::zero()
        } else if less(F64_ONE, self.bits) {
            Number::one()
        } else {
            self
        }
    }

    /// Whether the number differs from 0.
    pub fn nonzero(&self) -> (r: bool)
        ensures
            r == nonzero_spec(self.bits),
    {
        magnitude(self.bits) != 0
    }
}

/// What texts read as when parsed as decimal numbers: each text that is a number, with the
/// number it denotes. A text that is not listed is no number. The parsing itself is done by
/// whoever fills the table.
pub type Readings = NameMap<Number>;

/// The number that `text` reads as, 0 when it is no number.
pub open spec fn reading(table: Readings, text: Seq<char>) -> NumberView {
    if table@.contains_key(text) {
        table@[text]@
    } else {
        zero()
    }
}

/// Looks up what `text` reads as, 0 when it is no number.
pub fn read_number(table: &Readings, text: &str) -> (r: Number)
    ensures
        r@ == reading(*table, text@),
{
    match table.get(text) {
        Some(n) => n.clone(),
        None => Number::zero(),
    }
}

/// Confining a number to `[0, 1]` gives a number that is neither below 0 nor above 1, and leaves
/// what already lies there unchanged.
pub proof fn clamp_unit_is_a_projection(v: NumberView)
    ensures
        !f64_less(unit_spec(v).bits, 0),
        !f64_less(F64_ONE, unit_spec(v).bits),
        unit_spec(unit_spec(v)) == unit_spec(v),
        !f64_less(v.bits, 0) && !f64_less(F64_ONE, v.bits) ==> unit_spec(v) == v,
{
}

/// Doubles are ordered as the numbers they stand for: those that are not negative by their bits,
/// negative ones the other way round, every negative one below every other but the two zeros alike,
/// and a NaN not at all.
pub proof fn doubles_are_ordered_by_value(a: u64, b: u64)
    ensures
        ({
            let sign: u64 = 0x8000_0000_0000_0000;
            let infinity: u64 = 0x7FF0_0000_0000_0000;
            let nan_a = infinity < a < sign || sign + infinity < a;
            let nan_b = infinity < b < sign || sign + infinity < b;
            &&& f64_is_nan(a) <==> nan_a
            &&& nan_a || nan_b ==> !f64_less(a, b)
            &&& !nan_a && !nan_b && a < sign && b < sign ==> (f64_less(a, b) <==> a < b)
            &&& !nan_a && !nan_b && a >= sign && b >= sign ==> (f64_less(a, b) <==> a > b)
            &&& !nan_a && !nan_b && a >= sign && b < sign ==> (f64_less(a, b) <==> !(a == sign && b
                == 0))
            &&& a < sign && b >= sign ==> !f64_less(a, b)
        }),
{
}

/// The larger of two numbers is one of them and below neither; a NaN gives way to the other.
pub proof fn the_larger_is_below_neither(a: NumberView, b: NumberView)
    ensures
        max_spec(a, b) == a || max_spec(a, b) == b,
        !f64_is_nan(a.bits) && !f64_is_nan(b.bits) ==> !f64_less(max_spec(a, b).bits, a.bits)
            && !f64_less(max_spec(a, b).bits, b.bits),
        f64_is_nan(a.bits) ==> max_spec(a, b) == b,
        f64_is_nan(b.bits) ==> f64_is_nan(a.bits) || max_spec(a, b) == a,
        !f64_less(a.bits, b.bits) && !f64_is_nan(a.bits) ==> max_spec(a, b) == a,
{
}

/// The smaller of two numbers is one of them and above neither; a NaN gives way to the other.
pub proof fn the_smaller_is_above_neither(a: NumberView, b: NumberView)
    ensures
        min_spec(a, b) == a || min_spec(a, b) == b,
        !f64_is_nan(a.bits) && !f64_is_nan(b.bits) ==> !f64_less(a.bits, min_spec(a, b).bits)
            && !f64_less(b.bits, min_spec(a, b).bits),
        f64_is_nan(a.bits) ==> min_spec(a, b) == b,
        f64_is_nan(b.bits) ==> f64_is_nan(a.bits) || min_spec(a, b) == a,
        !f64_less(b.bits, a.bits) && !f64_is_nan(a.bits) ==> min_spec(a, b) == a,
{
}

/// A number below 0 is confined to 0 and one above 1 to 1; any other is left as it is.
pub proof fn fractions_end_at_0_and_1(v: NumberView)
    ensures
        f64_less(v.bits, 0) ==> unit_spec(v).bits == 0 && unit_spec(v).text == seq!['0'],
        f64_less(0x3FF0_0000_0000_0000, v.bits) ==> unit_spec(v).bits == 0x3FF0_0000_0000_0000
            && unit_spec(v).text == seq!['1'],
        !f64_less(v.bits, 0) && !f64_less(0x3FF0_0000_0000_0000, v.bits) ==> unit_spec(v) == v,
{
}

/// Two single-precision values are equal as numbers exactly when neither is a NaN and they have the
/// same bits or are both zeros.
pub proof fn singles_are_equal_by_value(a: F32, b: F32)
    ensures
        ({
            let nan_a = 0x7F80_0000 < a.0 < 0x8000_0000 || 0xFF80_0000 < a.0;
            let nan_b = 0x7F80_0000 < b.0 < 0x8000_0000 || 0xFF80_0000 < b.0;
            let zero_a = a.0 == 0 || a.0 == 0x8000_0000;
            let zero_b = b.0 == 0 || b.0 == 0x8000_0000;
            a.equals(b) <==> !nan_a && !nan_b && (a.0 == b.0 || (zero_a && zero_b))
        }),
{
}

/// Only the two zeros count as zero.
pub proof fn only_zeros_are_zero(bits: u64)
    ensures
        nonzero_spec(bits) <==> bits != 0 && bits != 0x8000_0000_0000_0000,
{
}

/// A listed text reads as the number that it is listed with, any other as 0.
pub proof fn texts_read_as_listed(table: Readings, text: Seq<char>)
    ensures
        table@.contains_key(text) ==> reading(table, text) == table@[text]@,
        !table@.contains_key(text) ==> reading(table, text).bits == 0,
{
}

} // verus!

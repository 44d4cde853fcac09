//! Real numbers as they are kept and shown: the bits of an IEEE 754 double, and the
//! digits by which it is printed.

use vstd::prelude::*;

verus! {

/// A real number: its bits, and how it is printed.
#[derive(Debug, Clone, PartialEq, Eq)]
pub struct Real {
    pub bits: u64,
    pub text: String,
}

/// What a [`Real`] stands for.
#[verifier::ext_equal]
pub struct RealView {
    pub bits: u64,
    pub text: Seq<char>,
}

impl DeepView for Real {
    type V = RealView;

    open spec fn deep_view(&self) -> RealView {
        RealView { bits: self.bits, text: self.text@ }
    }
}

/// Copies a number.
pub fn copy(value: &Real) -> (out: Real)
    ensures
        out.deep_view() == value.deep_view(),
{
    Real { bits: value.bits, text: value.text.clone() }
}

/// The bits without the sign.
pub open spec fn magnitude(bits: u64) -> int {
    if bits >= 0x8000_0000_0000_0000 {
        bits - 0x8000_0000_0000_0000
    } else {
        bits as int
    }
}

/// Whether the bits are not those of a number.
pub open spec fn is_nan(bits: u64) -> bool {
    magnitude(bits) > 0x7ff0_0000_0000_0000
}

/// The place of a number among the numbers: both zeros have the same.
pub open spec fn place(bits: u64) -> int {
    if bits >= 0x8000_0000_0000_0000 {
        -magnitude(bits)
    } else {
        magnitude(bits)
    }
}

/// Whether a number is smaller than another one; what is not a number is not.
pub open spec fn is_less(a: u64, b: u64) -> bool {
    !is_nan(a) && !is_nan(b) && place(a) < place(b)
}

/// Whether a number is as large as another one or larger; what is not a number is not.
pub open spec fn is_at_least(a: u64, b: u64) -> bool {
    !is_nan(a) && !is_nan(b) && place(a) >= place(b)
}

/// The place of bits in the order of all of them: the negative zero comes before the
/// positive one, and what is not a number comes at the ends.
pub open spec fn total_place(bits: u64) -> int {
    if bits >= 0x8000_0000_0000_0000 {
        -magnitude(bits) - 1
    } else {
        magnitude(bits)
    }
}

/// Whether a number is smaller than another one; what is not a number is not.
pub fn less(a: u64, b: u64) -> (r: bool)
    ensures
        r == is_less(a, b),
{
    let sign: u64 = 0x8000_0000_0000_0000;
    let infinite: u64 = 0x7ff0_0000_0000_0000;
    let x: u64 = if a >= sign { a - sign } else { a };
    let y: u64 = if b >= sign { b - sign } else { b };
    if x > infinite || y > infinite {
        return false;
    }
    if a >= sign {
        if b >= sign {
            y < x
        } else {
            x > 0 || y > 0
        }
    } else if b >= sign {
        false
    } else {
        x < y
    }
}

/// Whether a number is as large as another one or larger; what is not a number is not.
pub fn at_least(a: u64, b: u64) -> (r: bool)
    ensures
        r == is_at_least(a, b),
{
    let sign: u64 = 0x8000_0000_0000_0000;
    let infinite: u64 = 0x7ff0_0000_0000_0000;
    let x: u64 = if a >= sign { a - sign } else { a };
    let y: u64 = if b >= sign { b - sign } else { b };
    if x > infinite || y > infinite {
        return false;
    }
    !less(a, b)
}

/// The place of bits in the order of all of them.
pub fn total_rank(bits: u64) -> (n: i64)
    ensures
        n == total_place(bits),
{
    if bits >= 0x8000_0000_0000_0000 {
        let magnitude: i64 = (bits - 0x8000_0000_0000_0000) as i64;
        -magnitude - 1
    } else {
        bits as i64
    }
}

/// The place of a number among the numbers.
pub fn rank(bits: u64) -> (n: i64)
    ensures
        n == place(bits),
{
    if bits >= 0x8000_0000_0000_0000 {
        let magnitude: i64 = (bits - 0x8000_0000_0000_0000) as i64;
        -magnitude
    } else {
        bits as i64
    }
}

/// The order of all bits agrees with that of the numbers.
pub proof fn total_order_keeps_the_order_of_numbers(a: u64, b: u64)
    requires
        is_less(a, b),
    ensures
        total_place(a) < total_place(b),
{
}

} // verus!

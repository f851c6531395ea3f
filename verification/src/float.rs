//! Floating-point values as IEEE 754 binary64 bit patterns.
//!
//! Sign, order and equality are read off the bits here, so that they are
//! proved like everything else in this crate. Rounding arithmetic and the
//! conversion between numerals and bits are not: they are left to the
//! caller, who supplies them as a [`FloatHost`], and this crate assumes
//! nothing of them. In particular it does not assume that the same operation
//! gives the same bits twice, which for a NaN it may not.

use vstd::prelude::*;

verus! {

/// The four operations of arithmetic.
#[derive(Clone, Copy, Debug, PartialEq, Eq, Structural)]
pub enum Arithmetic {
    Add,
    Subtract,
    Multiply,
    Divide,
}

/// The floating-point services of the machine the program runs on.
///
/// * `parse` turns a numeral of digits, a point and digits into bits;
/// * `apply` performs one rounding operation on two bit patterns;
/// * `render` writes the numeral of a bit pattern.
///
/// Contracts in this crate speak of what these functions return through the
/// predicates [`FloatHost::parses`], [`FloatHost::applies`] and
/// [`FloatHost::renders`], and promise nothing more of a result than the
/// function's own postcondition does.
pub struct FloatHost<P, A, R> {
    pub parse: P,
    pub apply: A,
    pub render: R,
}

impl<P, A, R> FloatHost<P, A, R> where
    P: Fn(String) -> u64,
    A: Fn(Arithmetic, u64, u64) -> u64,
    R: Fn(u64) -> String,
 {
    /// `parse` accepts every text.
    pub open spec fn can_parse(&self) -> bool {
        forall|text: String| self.parse.requires((text,))
    }

    /// `apply` accepts every operation on every pair of bit patterns.
    pub open spec fn can_apply(&self) -> bool {
        forall|op: Arithmetic, a: u64, b: u64| self.apply.requires((op, a, b))
    }

    /// `render` accepts every bit pattern.
    pub open spec fn can_render(&self) -> bool {
        forall|bits: u64| self.render.requires((bits,))
    }

    /// Every service accepts every argument.
    pub open spec fn ready(&self) -> bool {
        self.can_parse() && self.can_apply() && self.can_render()
    }

    /// `bits` is a possible result of `parse` on the numeral `text`.
    pub open spec fn parses(&self, text: Seq<char>, bits: u64) -> bool {
        exists|numeral: String| numeral@ == text && #[trigger] self.parse.ensures((numeral,), bits)
    }

    /// `result` is a possible result of `apply` on `op`, `a` and `b`.
    pub open spec fn applies(&self, op: Arithmetic, a: u64, b: u64, result: u64) -> bool {
        self.apply.ensures((op, a, b), result)
    }

    /// `text` is a possible result of `render` on `bits`.
    pub open spec fn renders(&self, bits: u64, text: Seq<char>) -> bool {
        exists|numeral: String| numeral@ == text && #[trigger] self.render.ensures((bits,), numeral)
    }
}

/// The bit that holds the sign.
pub const SIGN_BIT: u64 = 0x8000_0000_0000_0000;

/// The bits of positive infinity: every larger magnitude is a NaN.
pub const INFINITY_BITS: u64 = 0x7ff0_0000_0000_0000;

/// The bits without the sign.
pub open spec fn magnitude(bits: u64) -> u64 {
    if bits >= SIGN_BIT {
        (bits - SIGN_BIT) as u64
    } else {
        bits
    }
}

/// Whether the bits are a NaN.
pub open spec fn is_nan(bits: u64) -> bool {
    magnitude(bits) > INFINITY_BITS
}

/// An integer that orders the numbers as IEEE 754 does: the magnitude for a
/// number with a clear sign, its negation for one with the sign set. Both
/// zeros rank 0.
pub open spec fn rank(bits: u64) -> int {
    if bits >= SIGN_BIT {
        -(magnitude(bits) as int)
    } else {
        magnitude(bits) as int
    }
}

/// IEEE 754 equality: no NaN equals anything, and the two zeros are equal.
pub open spec fn float_eq(a: u64, b: u64) -> bool {
    !is_nan(a) && !is_nan(b) && rank(a) == rank(b)
}

/// IEEE 754 `<`: false when either side is a NaN.
pub open spec fn float_lt(a: u64, b: u64) -> bool {
    !is_nan(a) && !is_nan(b) && rank(a) < rank(b)
}

/// IEEE 754 `<=`: false when either side is a NaN.
pub open spec fn float_le(a: u64, b: u64) -> bool {
    !is_nan(a) && !is_nan(b) && rank(a) <= rank(b)
}

/// IEEE 754 negation: the same bits with the sign flipped.
pub open spec fn float_neg(bits: u64) -> u64 {
    if bits >= SIGN_BIT {
        (bits - SIGN_BIT) as u64
    } else {
        (bits + SIGN_BIT) as u64
    }
}

fn split(bits: u64) -> (parts: (bool, u64))
    ensures
        parts.0 == (bits >= SIGN_BIT),
        parts.1 == magnitude(bits),
        rank(bits) == if parts.0 {
            -(parts.1 as int)
        } else {
            parts.1 as int
        },
{
    if bits >= SIGN_BIT {
        (true, bits - SIGN_BIT)
    } else {
        (false, bits)
    }
}

/// Whether `a == b` as numbers.
pub fn equal(a: u64, b: u64) -> (r: bool)
    ensures
        r == float_eq(a, b),
{
    let (a_negative, a_magnitude) = split(a);
    let (b_negative, b_magnitude) = split(b);
    if a_magnitude > INFINITY_BITS || b_magnitude > INFINITY_BITS {
        false
    } else if a_negative == b_negative {
        a_magnitude == b_magnitude
    } else {
        a_magnitude == 0 && b_magnitude == 0
    }
}

/// Whether `a < b` as numbers.
pub fn less(a: u64, b: u64) -> (r: bool)
    ensures
        r == float_lt(a, b),
{
    let (a_negative, a_magnitude) = split(a);
    let (b_negative, b_magnitude) = split(b);
    if a_magnitude > INFINITY_BITS || b_magnitude > INFINITY_BITS {
        false
    } else if a_negative {
        if b_negative {
            a_magnitude > b_magnitude
        } else {
            a_magnitude != 0 || b_magnitude != 0
        }
    } else {
        !b_negative && a_magnitude < b_magnitude
    }
}

/// Whether `a <= b` as numbers.
pub fn less_equal(a: u64, b: u64) -> (r: bool)
    ensures
        r == float_le(a, b),
{
    let (a_negative, a_magnitude) = split(a);
    let (b_negative, b_magnitude) = split(b);
    if a_magnitude > INFINITY_BITS || b_magnitude > INFINITY_BITS {
        false
    } else if a_negative {
        !b_negative || a_magnitude >= b_magnitude
    } else if b_negative {
        a_magnitude == 0 && b_magnitude == 0
    } else {
        a_magnitude <= b_magnitude
    }
}

/// The number `-x`.
pub fn negate(bits: u64) -> (r: u64)
    ensures
        r == float_neg(bits),
{
    if bits >= SIGN_BIT {
        bits - SIGN_BIT
    } else {
        bits + SIGN_BIT
    }
}

} // verus!

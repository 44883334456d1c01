//! Numbers of the wire format that are not integers.
//!
//! A decoded number is held as what the stream says of it, in integers: the
//! arithmetic that turns it into a machine number is left to the caller.

use vstd::arithmetic::power2::pow2;
use vstd::prelude::*;

verus! {

/// An IEEE-754 single-precision number, held by its bit pattern.
#[derive(Clone, Copy, Debug, PartialEq, Eq, Structural)]
pub struct FloatBits {
    pub bits: u32,
}

/// A decoded number.
#[derive(Clone, Copy, Debug, PartialEq, Eq, Structural)]
pub enum FloatValue {
    /// The single-precision number with this bit pattern.
    Exact(FloatBits),
    /// `numerator / 2^fraction_bits`, negated if `negative`. A negated zero is
    /// the negative zero.
    Fixed { negative: bool, numerator: u32, fraction_bits: u8 },
    /// `low + (high - low) * (raw / (2^bit_count - 1))`, in single precision.
    Scaled { raw: u32, bit_count: u8, low: FloatBits, high: FloatBits },
}

impl FloatValue {
    /// Whether the number is one that decoding can give: a fixed-point number
    /// with at most eleven bits of fraction and a numerator below `2^24`,
    /// which single precision holds exactly; or a scaled number whose raw
    /// value fits its bit count, of at most 32 bits.
    pub open spec fn well_formed(self) -> bool {
        match self {
            FloatValue::Exact(_) => true,
            FloatValue::Fixed { numerator, fraction_bits, .. } => fraction_bits <= 11 && numerator
                < 0x100_0000,
            FloatValue::Scaled { raw, bit_count, .. } => bit_count <= 32 && raw < pow2(
                bit_count as nat,
            ),
        }
    }
}

} // verus!

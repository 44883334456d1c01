//! The numbers that decoding can give.

use crate::bits::{bits_value, lemma_bits_signed_value_range, lemma_bits_value_bound};
use crate::codec::{coord_mp_fraction_bits, coord_mp_whole_bits, take_optional};
use crate::refine::{FloatDefinition, SendPropParseDefinition};
use crate::stream::{take_bool, take_unsigned, ReadError};
use crate::value::{take_float, take_value, take_values, ValueModel};
use vstd::arithmetic::power2::{lemma2_to64, lemma_pow2_strictly_increases, pow2};
use vstd::prelude::*;

verus! {

/// A signed integer of `bit_count` bits, one at least, lies between
/// `-2^(bit_count-1)` and `2^(bit_count-1) - 1`.
pub proof fn lemma_int_range(bits: Seq<bool>, changes_often: bool, bit_count: u8, number: i64)
    requires
        bit_count >= 1,
        take_value(bits, SendPropParseDefinition::Int { changes_often, bit_count }).0 == Ok::<
            ValueModel,
            ReadError,
        >(ValueModel::Integer(number)),
    ensures
        -pow2((bit_count - 1) as nat) <= number <= pow2((bit_count - 1) as nat) - 1,
{
    let field = bits.take(bit_count as int);
    lemma_bits_signed_value_range(field);
    lemma2_to64();
    if bit_count < 32 {
        lemma_pow2_strictly_increases((bit_count - 1) as nat, 31);
    }
}

/// An unsigned integer of `bit_count` bits lies between zero and
/// `2^bit_count - 1`.
pub proof fn lemma_unsigned_int_range(
    bits: Seq<bool>,
    changes_often: bool,
    bit_count: u8,
    number: i64,
)
    requires
        take_value(bits, SendPropParseDefinition::UnsignedInt { changes_often, bit_count }).0
            == Ok::<ValueModel, ReadError>(ValueModel::Integer(number)),
    ensures
        0 <= number <= pow2(bit_count as nat) - 1,
{
    let field = bits.take(bit_count as int);
    lemma_bits_value_bound(field);
    lemma2_to64();
    if bit_count < 32 {
        lemma_pow2_strictly_increases(bit_count as nat, 32);
    }
}

/// Every number that is decoded is well formed: what the stream says of it
/// can be turned into a machine number without loss.
pub proof fn lemma_take_float_well_formed(bits: Seq<bool>, definition: FloatDefinition)
    ensures
        take_float(bits, definition).0 matches Ok(number) ==> number.well_formed(),
{
    lemma2_to64();
    let first = take_bool(bits);
    let second = take_bool(first.1);
    let third = take_bool(second.1);
    match definition {
        FloatDefinition::Coord => {
            if first.0 is Ok && second.0 is Ok && third.0 is Ok {
                let whole = take_optional(third.1, first.0.unwrap(), 14);
                let fraction = take_optional(whole.1, second.0.unwrap(), 5);
                lemma_bits_value_bound(third.1.take(14));
                lemma_bits_value_bound(whole.1.take(5));
                if whole.0 is Ok && fraction.0 is Ok {
                    assert(whole.0.unwrap() < 0x4000);
                    assert(fraction.0.unwrap() < 32);
                }
            }
        },
        FloatDefinition::CoordMP | FloatDefinition::CoordMPLowPrecision => {
            if first.0 is Ok && second.0 is Ok && third.0 is Ok {
                let low_precision = definition is CoordMPLowPrecision;
                let whole_bits = coord_mp_whole_bits(first.0.unwrap());
                let fraction_bits = coord_mp_fraction_bits(low_precision);
                let whole = take_optional(third.1, second.0.unwrap(), whole_bits);
                let fraction = take_unsigned(whole.1, fraction_bits, 32);
                lemma_bits_value_bound(third.1.take(whole_bits as int));
                lemma_bits_value_bound(whole.1.take(fraction_bits as int));
                if whole.0 is Ok && fraction.0 is Ok {
                    assert(whole.0.unwrap() < 0x4000);
                    assert(fraction.0.unwrap() < 32);
                    assert(pow2(fraction_bits) <= 32);
                    assert(pow2(fraction_bits) * (whole.0.unwrap() + 1) <= 32 * 0x4000)
                        by (nonlinear_arith)
                        requires
                            pow2(fraction_bits) <= 32,
                            whole.0.unwrap() < 0x4000,
                    ;
                }
            }
        },
        FloatDefinition::CoordMPIntegral => {
            if first.0 is Ok && second.0 is Ok && third.0 is Ok {
                let whole_bits = coord_mp_whole_bits(first.0.unwrap());
                lemma_bits_value_bound(third.1.take(whole_bits as int));
            }
        },
        FloatDefinition::FloatNoScale => {},
        FloatDefinition::NormalVarFloat => {
            lemma_bits_value_bound(first.1.take(11));
        },
        FloatDefinition::Scaled { bit_count, .. } => {
            lemma_bits_value_bound(bits.take(bit_count as int));
            if bit_count < 32 {
                lemma_pow2_strictly_increases(bit_count as nat, 32);
            }
        },
    }
}

/// As many values are decoded as were asked for.
pub proof fn lemma_take_values_len(bits: Seq<bool>, definition: SendPropParseDefinition, count: nat)
    ensures
        take_values(bits, definition, count).0 matches Ok(items) ==> items.len() == count,
    decreases count,
{
    if count > 0 {
        lemma_take_values_len(take_value(bits, definition).1, definition, (count - 1) as nat);
    }
}

/// An array that is decoded has as many elements as its length says, and
/// its length is a number of as many bits as the recipe gives it.
pub proof fn lemma_array_len(
    bits: Seq<bool>,
    changes_often: bool,
    inner_definition: SendPropParseDefinition,
    count_bit_count: u16,
    items: Seq<ValueModel>,
)
    requires
        take_value(
            bits,
            SendPropParseDefinition::Array {
                changes_often,
                inner_definition: Box::new(inner_definition),
                count_bit_count,
            },
        ).0 == Ok::<ValueModel, ReadError>(ValueModel::Array(items)),
    ensures
        count_bit_count <= usize::BITS,
        count_bit_count <= bits.len(),
        items.len() == bits_value(bits.take(count_bit_count as int)),
        items.len() < pow2(count_bit_count as nat),
{
    let count = take_unsigned(bits, count_bit_count as nat, usize::BITS as nat);
    lemma_take_values_len(count.1, inner_definition, count.0.unwrap());
    lemma_bits_value_bound(bits.take(count_bit_count as int));
}

} // verus!

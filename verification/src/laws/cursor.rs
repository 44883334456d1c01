//! The cursor of a stream moves forward only.

use crate::bits::bytes_of;
use crate::codec::{
    coord_mp_fraction_bits, coord_mp_whole_bits, take_optional, take_var_int_groups,
};
use crate::refine::{FloatDefinition, SendPropParseDefinition};
use crate::stream::{
    take_bool, take_signed, take_sized_text, take_text, take_unsigned, terminator_index,
};
use crate::value::{take_float, take_value, take_values};
use vstd::prelude::*;

verus! {

/// Whether `rest` is what is left of `bits` once some of its first bits are
/// taken away.
pub open spec fn is_rest_of(rest: Seq<bool>, bits: Seq<bool>) -> bool {
    rest.len() <= bits.len() && rest == bits.skip(bits.len() - rest.len())
}

/// What is left of what is left is left.
pub proof fn lemma_rest_of_rest(last: Seq<bool>, middle: Seq<bool>, bits: Seq<bool>)
    requires
        is_rest_of(last, middle),
        is_rest_of(middle, bits),
    ensures
        is_rest_of(last, bits),
{
    assert(bits.skip(bits.len() - middle.len()).skip(middle.len() - last.len()) =~= bits.skip(
        bits.len() - last.len(),
    ));
}

/// Skipping bits leaves a rest.
pub proof fn lemma_skip_is_rest(bits: Seq<bool>, count: int)
    requires
        0 <= count <= bits.len(),
    ensures
        is_rest_of(bits.skip(count), bits),
        is_rest_of(bits, bits),
{
    assert(bits.skip(0) =~= bits);
}

/// Reading an unsigned number moves the cursor forward or not at all.
pub proof fn lemma_take_unsigned_rest(bits: Seq<bool>, count: nat, width: nat)
    ensures
        is_rest_of(take_unsigned(bits, count, width).1, bits),
        is_rest_of(take_signed(bits, count, width).1, bits),
{
    lemma_skip_is_rest(bits, 0);
    if count <= bits.len() {
        lemma_skip_is_rest(bits, count as int);
    }
}

/// Reading text up to a zero byte moves the cursor forward or not at all.
pub proof fn lemma_take_text_rest(bits: Seq<bool>)
    ensures
        is_rest_of(take_text(bits).1, bits),
{
    bytes_of(bits, bits.len() / 8).index_of_first_ensures(0u8);
    match terminator_index(bits) {
        Some(len) => lemma_skip_is_rest(bits, 8 * (len + 1)),
        None => lemma_skip_is_rest(bits, 8 * (bits.len() / 8) as int),
    }
}

/// Reading the groups of a variable-length integer moves the cursor forward
/// or not at all.
pub proof fn lemma_take_var_int_groups_rest(bits: Seq<bool>, groups: nat)
    ensures
        is_rest_of(take_var_int_groups(bits, groups).1, bits),
    decreases groups,
{
    lemma_skip_is_rest(bits, 0);
    if groups > 0 {
        let byte = take_unsigned(bits, 8, 32);
        if byte.0 is Ok {
            lemma_skip_is_rest(bits, 8);
            lemma_take_var_int_groups_rest(byte.1, (groups - 1) as nat);
            lemma_rest_of_rest(take_var_int_groups(byte.1, (groups - 1) as nat).1, byte.1, bits);
        }
    }
}

/// Reading a number moves the cursor forward or not at all.
pub proof fn lemma_take_float_rest(bits: Seq<bool>, definition: FloatDefinition)
    ensures
        is_rest_of(take_float(bits, definition).1, bits),
{
    let first = take_bool(bits);
    let second = take_bool(first.1);
    let third = take_bool(second.1);
    lemma_skip_is_rest(bits, 0);
    lemma_skip_is_rest(first.1, 0);
    lemma_skip_is_rest(second.1, 0);
    lemma_skip_is_rest(third.1, 0);
    if bits.len() >= 1 {
        lemma_skip_is_rest(bits, 1);
    }
    if first.1.len() >= 1 {
        lemma_skip_is_rest(first.1, 1);
    }
    if second.1.len() >= 1 {
        lemma_skip_is_rest(second.1, 1);
    }
    lemma_rest_of_rest(second.1, first.1, bits);
    lemma_rest_of_rest(third.1, second.1, first.1);
    lemma_rest_of_rest(third.1, first.1, bits);
    match definition {
        FloatDefinition::Coord => {
            let whole = take_optional(third.1, first.0.unwrap(), 14);
            let fraction = take_optional(whole.1, second.0.unwrap(), 5);
            lemma_take_unsigned_rest(third.1, 14, 32);
            lemma_skip_is_rest(whole.1, 0);
            lemma_take_unsigned_rest(whole.1, 5, 32);
            lemma_rest_of_rest(whole.1, third.1, bits);
            lemma_rest_of_rest(fraction.1, whole.1, bits);
        },
        FloatDefinition::CoordMP | FloatDefinition::CoordMPLowPrecision => {
            let low_precision = definition is CoordMPLowPrecision;
            let whole_bits = coord_mp_whole_bits(first.0.unwrap());
            let fraction_bits = coord_mp_fraction_bits(low_precision);
            let whole = take_optional(third.1, second.0.unwrap(), whole_bits);
            let fraction = take_unsigned(whole.1, fraction_bits, 32);
            lemma_take_unsigned_rest(third.1, whole_bits, 32);
            lemma_take_unsigned_rest(whole.1, fraction_bits, 32);
            lemma_rest_of_rest(whole.1, third.1, bits);
            lemma_rest_of_rest(fraction.1, whole.1, bits);
        },
        FloatDefinition::CoordMPIntegral => {
            let whole_bits = coord_mp_whole_bits(first.0.unwrap());
            let whole = take_unsigned(third.1, whole_bits, 32);
            lemma_take_unsigned_rest(third.1, whole_bits, 32);
            lemma_rest_of_rest(whole.1, third.1, bits);
        },
        FloatDefinition::FloatNoScale => {
            lemma_take_unsigned_rest(bits, 32, 32);
        },
        FloatDefinition::NormalVarFloat => {
            let fraction = take_unsigned(first.1, 11, 32);
            lemma_take_unsigned_rest(first.1, 11, 32);
            lemma_rest_of_rest(fraction.1, first.1, bits);
        },
        FloatDefinition::Scaled { bit_count, .. } => {
            lemma_take_unsigned_rest(bits, bit_count as nat, 32);
        },
    }
}

/// Decoding moves the cursor forward or not at all, whether it succeeds or
/// fails: what is left unread is what was unread before, less some of its
/// first bits.
pub proof fn lemma_take_value_rest(bits: Seq<bool>, definition: SendPropParseDefinition)
    ensures
        is_rest_of(take_value(bits, definition).1, bits),
    decreases definition, 0nat,
{
    lemma_skip_is_rest(bits, 0);
    match definition {
        SendPropParseDefinition::NormalVarInt { .. } => {
            lemma_take_var_int_groups_rest(bits, 5);
        },
        SendPropParseDefinition::UnsignedInt { bit_count, .. } => {
            lemma_take_unsigned_rest(bits, bit_count as nat, 32);
        },
        SendPropParseDefinition::Int { bit_count, .. } => {
            lemma_take_unsigned_rest(bits, bit_count as nat, 32);
        },
        SendPropParseDefinition::Float { definition, .. } => {
            lemma_take_float_rest(bits, definition);
        },
        SendPropParseDefinition::String { .. } => {
            let length = take_unsigned(bits, 9, 32);
            lemma_take_unsigned_rest(bits, 9, 32);
            if length.0 is Ok {
                let len = length.0.unwrap();
                lemma_skip_is_rest(length.1, 0);
                if 8 * len <= length.1.len() {
                    lemma_skip_is_rest(length.1, 8 * len as int);
                }
                lemma_rest_of_rest(take_sized_text(length.1, len).1, length.1, bits);
            }
        },
        SendPropParseDefinition::Vector { definition, .. } => {
            let x = take_float(bits, definition);
            let y = take_float(x.1, definition);
            let z = take_float(y.1, definition);
            lemma_take_float_rest(bits, definition);
            lemma_take_float_rest(x.1, definition);
            lemma_take_float_rest(y.1, definition);
            lemma_rest_of_rest(y.1, x.1, bits);
            lemma_rest_of_rest(z.1, y.1, bits);
        },
        SendPropParseDefinition::VectorXY { definition, .. } => {
            let x = take_float(bits, definition);
            let y = take_float(x.1, definition);
            lemma_take_float_rest(bits, definition);
            lemma_take_float_rest(x.1, definition);
            lemma_rest_of_rest(y.1, x.1, bits);
        },
        SendPropParseDefinition::Array { inner_definition, count_bit_count, .. } => {
            let count = take_unsigned(bits, count_bit_count as nat, usize::BITS as nat);
            lemma_take_unsigned_rest(bits, count_bit_count as nat, usize::BITS as nat);
            if count.0 is Ok {
                lemma_take_values_rest(count.1, *inner_definition, count.0.unwrap());
                lemma_rest_of_rest(
                    take_values(count.1, *inner_definition, count.0.unwrap()).1,
                    count.1,
                    bits,
                );
            }
        },
    }
}

/// Decoding values one after the other moves the cursor forward or not at
/// all.
pub proof fn lemma_take_values_rest(
    bits: Seq<bool>,
    definition: SendPropParseDefinition,
    count: nat,
)
    ensures
        is_rest_of(take_values(bits, definition, count).1, bits),
    decreases definition, count,
{
    lemma_skip_is_rest(bits, 0);
    if count > 0 {
        let first = take_value(bits, definition);
        lemma_take_value_rest(bits, definition);
        if first.0 is Ok {
            lemma_take_values_rest(first.1, definition, (count - 1) as nat);
            lemma_rest_of_rest(
                take_values(first.1, definition, (count - 1) as nat).1,
                first.1,
                bits,
            );
        }
    }
}

} // verus!

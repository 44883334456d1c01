//! Records and the recipes they give.

use crate::definition::{bound_records, RawDefinitionModel, RawSendPropDefinition};
use crate::flags::{SendPropFlag, SendPropType};
use crate::float::FloatBits;
use crate::refine::{FloatDefinition, MalformedSendPropDefinitionError, SendPropParseDefinition};
use vstd::arithmetic::logarithm::{lemma_log0, lemma_log_s, log};
use vstd::arithmetic::power2::{
    lemma2_to64, lemma_pow2_strictly_increases, lemma_pow2_unfold, pow2,
};
use vstd::prelude::*;

verus! {

/// Whether one of the flags is set that decide by themselves how a number
/// is sent.
pub open spec fn sent_by_flag(flags: Set<SendPropFlag>) -> bool {
    flags.contains(SendPropFlag::Coord) || flags.contains(SendPropFlag::CoordMP) || flags.contains(
        SendPropFlag::CoordMPLowPrecision,
    ) || flags.contains(SendPropFlag::CoordMPIntegral) || flags.contains(SendPropFlag::NoScale)
        || flags.contains(SendPropFlag::NormalVarInt)
}

/// How a number is sent is always settled where a flag settles it. Where
/// none does the number is scaled into a range, and that fails if, and only
/// if, the bit count or an end of the range is missing.
pub proof fn lemma_float_definition_total(
    flags: Set<SendPropFlag>,
    bit_count: Option<u32>,
    high: Option<FloatBits>,
    low: Option<FloatBits>,
)
    ensures
        sent_by_flag(flags) ==> FloatDefinition::of(flags, bit_count, high, low) is Ok
            && !(FloatDefinition::of(flags, bit_count, high, low).unwrap() is Scaled),
        !sent_by_flag(flags) && bit_count is Some && high is Some && low is Some
            ==> FloatDefinition::of(flags, bit_count, high, low) is Ok && FloatDefinition::of(
            flags,
            bit_count,
            high,
            low,
        ).unwrap() is Scaled,
        FloatDefinition::of(flags, bit_count, high, low) is Err <==> !sent_by_flag(flags) && !(
        bit_count is Some && high is Some && low is Some),
        FloatDefinition::of(flags, bit_count, high, low) matches Err(error) ==> error
            == MalformedSendPropDefinitionError::UnsizedFloat,
{
}

/// The whole part of the logarithm to the base two of a number lies between
/// the powers of two that enclose the number.
pub proof fn lemma_log2_bounds(number: nat)
    requires
        number > 0,
    ensures
        log(2, number as int) >= 0,
        pow2(log(2, number as int) as nat) <= number < pow2((log(2, number as int) + 1) as nat),
    decreases number,
{
    lemma2_to64();
    if number < 2 {
        lemma_log0(2, number as int);
    } else {
        lemma_log_s(2, number as int);
        lemma_log2_bounds(number / 2);
        let exponent = log(2, (number / 2) as int);
        lemma_pow2_unfold((exponent + 1) as nat);
        lemma_pow2_unfold((exponent + 2) as nat);
    }
}

/// The length of an array is sent in as many bits as the greatest number of
/// its elements has binary digits: one more than the whole part of its
/// logarithm to the base two. Every length up to that number fits.
pub proof fn lemma_array_count_bits(raw: RawDefinitionModel)
    requires
        raw.prop_type == SendPropType::Array,
        SendPropParseDefinition::refine(raw) is Ok,
    ensures
        raw.element_count is Some,
        SendPropParseDefinition::refine(raw).unwrap() is Array,
        SendPropParseDefinition::refine(raw).unwrap()->count_bit_count == log(
            2,
            raw.element_count.unwrap() as int,
        ) + 1,
        1 <= SendPropParseDefinition::refine(raw).unwrap()->count_bit_count <= 16,
        raw.element_count.unwrap() < pow2(
            SendPropParseDefinition::refine(raw).unwrap()->count_bit_count as nat,
        ),
{
    let count = raw.element_count.unwrap();
    lemma2_to64();
    if count == 0 {
        lemma_log0(2, 0);
    } else {
        lemma_log2_bounds(count as nat);
        let exponent = log(2, count as int);
        if exponent >= 16 {
            if exponent > 16 {
                lemma_pow2_strictly_increases(16, exponent as nat);
            }
        }
    }
}

/// Every record that is read is well formed, and holds no record of
/// elements yet.
pub proof fn lemma_take_definition_well_formed(bits: Seq<bool>, owner_table: Seq<char>)
    ensures
        RawSendPropDefinition::take(bits, owner_table).0 matches Ok(raw) ==> raw.well_formed()
            && raw.array_property is None && raw.owner_table == owner_table,
{
}

/// A record that gives a recipe holds a value, and is bound if it is an
/// array.
pub proof fn lemma_refined_is_bound(raw: RawDefinitionModel)
    requires
        SendPropParseDefinition::refine(raw) is Ok,
    ensures
        !raw.flags.contains(SendPropFlag::Exclude),
        raw.prop_type != SendPropType::DataTable,
        raw.prop_type != SendPropType::NumSendPropTypes,
        raw.bound(),
        SendPropParseDefinition::refine(raw).unwrap().spec_changes_often() == raw.flags.contains(
            SendPropFlag::ChangesOften,
        ),
{
}

/// Once the arrays of a table are bound, every array but a first record
/// holds the record of its elements, and no record has changed otherwise.
pub proof fn lemma_bound_records(records: Seq<RawDefinitionModel>, index: int)
    requires
        0 <= index < records.len(),
    ensures
        bound_records(records).len() == records.len(),
        index > 0 ==> bound_records(records)[index].bound(),
        index > 0 && records[index].prop_type == SendPropType::Array ==> bound_records(
            records,
        )[index].array_property == Some(Box::new(records[index - 1])),
        bound_records(records)[index] == (RawDefinitionModel {
            array_property: bound_records(records)[index].array_property,
            ..records[index]
        }),
        bound_records(records)[index].well_formed() == records[index].well_formed(),
{
}

} // verus!

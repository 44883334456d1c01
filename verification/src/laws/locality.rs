//! Decoding looks at no bit behind what it decodes.

use crate::bits::{byte_at, bytes_of};
use crate::codec::{
    coord_mp_fraction_bits, coord_mp_whole_bits, take_bit_coord, take_bit_coord_mp,
    take_bit_normal, take_optional, take_var_int, take_var_int_groups,
};
use crate::definition::RawSendPropDefinition;
use crate::flags::{SendPropFlags, SendPropType};
use crate::refine::{FloatDefinition, SendPropParseDefinition};
use crate::stream::{
    take_bool, take_signed, take_sized_text, take_text, take_unsigned, terminator_index, Taken,
};
use crate::value::{take_float, take_value, take_values};
use vstd::prelude::*;

verus! {

/// The outcome of a read with `extra` bits behind what was left unread.
pub open spec fn followed_by<T>(taken: Taken<T>, extra: Seq<bool>) -> Taken<T> {
    (taken.0, taken.1 + extra)
}

/// The front of a run of bits is the front of any run that begins with it,
/// and what is behind the front is followed by what the run is followed by.
pub proof fn lemma_front_of_longer(bits: Seq<bool>, extra: Seq<bool>, count: int)
    requires
        0 <= count <= bits.len(),
    ensures
        (bits + extra).take(count) == bits.take(count),
        (bits + extra).skip(count) == bits.skip(count) + extra,
{
    assert((bits + extra).take(count) =~= bits.take(count));
    assert((bits + extra).skip(count) =~= bits.skip(count) + extra);
}

/// The whole bytes of a run of bits are those of any run that begins with it.
pub proof fn lemma_bytes_of_longer(bits: Seq<bool>, extra: Seq<bool>, count: nat)
    requires
        8 * count <= bits.len(),
    ensures
        bytes_of(bits + extra, count) == bytes_of(bits, count),
{
    assert forall|index: int| 0 <= index < count implies byte_at(bits + extra, index) == byte_at(
        bits,
        index,
    ) by {
        assert((bits + extra).subrange(8 * index, 8 * index + 8) =~= bits.subrange(
            8 * index,
            8 * index + 8,
        ));
    }
    assert(bytes_of(bits + extra, count) =~= bytes_of(bits, count));
}

/// A bit that was read is read the same whatever follows.
pub proof fn lemma_take_bool_local(bits: Seq<bool>, extra: Seq<bool>)
    ensures
        take_bool(bits).0 is Ok ==> take_bool(bits + extra) == followed_by(take_bool(bits), extra),
{
    if bits.len() >= 1 {
        lemma_front_of_longer(bits, extra, 1);
    }
}

/// An unsigned number that was read is read the same whatever follows.
pub proof fn lemma_take_unsigned_local(bits: Seq<bool>, extra: Seq<bool>, count: nat, width: nat)
    ensures
        take_unsigned(bits, count, width).0 is Ok ==> take_unsigned(bits + extra, count, width)
            == followed_by(take_unsigned(bits, count, width), extra),
{
    if count <= bits.len() {
        lemma_front_of_longer(bits, extra, count as int);
    }
}

/// A signed number that was read is read the same whatever follows.
pub proof fn lemma_take_signed_local(bits: Seq<bool>, extra: Seq<bool>, count: nat, width: nat)
    ensures
        take_signed(bits, count, width).0 is Ok ==> take_signed(bits + extra, count, width)
            == followed_by(take_signed(bits, count, width), extra),
{
    if count <= bits.len() {
        lemma_front_of_longer(bits, extra, count as int);
    }
}

/// A number that may be absent is read the same whatever follows.
pub proof fn lemma_take_optional_local(
    bits: Seq<bool>,
    extra: Seq<bool>,
    present: bool,
    count: nat,
)
    ensures
        take_optional(bits, present, count).0 is Ok ==> take_optional(bits + extra, present, count)
            == followed_by(take_optional(bits, present, count), extra),
{
    lemma_take_unsigned_local(bits, extra, count, 32);
}

/// Text of a given length that was read, or skipped as malformed, is read
/// the same whatever follows.
pub proof fn lemma_take_sized_text_local(bits: Seq<bool>, extra: Seq<bool>, len: nat)
    ensures
        8 * len <= bits.len() ==> take_sized_text(bits + extra, len) == followed_by(
            take_sized_text(bits, len),
            extra,
        ),
{
    if 8 * len <= bits.len() {
        lemma_front_of_longer(bits, extra, 8 * len as int);
        lemma_bytes_of_longer(bits, extra, len);
    }
}

/// Text that a zero byte ends, read or skipped as malformed, is read the same
/// whatever follows.
pub proof fn lemma_take_text_local(bits: Seq<bool>, extra: Seq<bool>)
    ensures
        terminator_index(bits) is Some ==> take_text(bits + extra) == followed_by(
            take_text(bits),
            extra,
        ),
{
    let whole = bits.len() / 8;
    let bytes = bytes_of(bits, whole);
    bytes.index_of_first_ensures(0u8);
    if let Some(len) = terminator_index(bits) {
        let longer = bits + extra;
        let longer_bytes = bytes_of(longer, longer.len() / 8);
        longer_bytes.index_of_first_ensures(0u8);
        lemma_bytes_of_longer(bits, extra, whole);
        assert forall|index: int| 0 <= index < whole implies longer_bytes[index] == bytes[index] by {
            assert(bytes_of(longer, whole)[index] == byte_at(longer, index));
        }
        assert(longer_bytes[len] == 0u8);
        assert(longer_bytes.contains(0u8));
        let found = longer_bytes.index_of_first(0u8).unwrap();
        assert(found == len) by {
            if found < len {
                assert(bytes[found] == 0u8);
            }
        }
        lemma_bytes_of_longer(bits, extra, len as nat);
        lemma_front_of_longer(bits, extra, 8 * (len + 1));
    }
}

/// The groups of a variable-length integer that were read are read the same
/// whatever follows.
pub proof fn lemma_take_var_int_groups_local(bits: Seq<bool>, extra: Seq<bool>, groups: nat)
    ensures
        take_var_int_groups(bits, groups).0 is Ok ==> take_var_int_groups(bits + extra, groups)
            == followed_by(take_var_int_groups(bits, groups), extra),
    decreases groups,
{
    if groups > 0 {
        lemma_take_unsigned_local(bits, extra, 8, 32);
        let byte = take_unsigned(bits, 8, 32);
        if byte.0 is Ok && byte.0.unwrap() >= 128 {
            lemma_take_var_int_groups_local(byte.1, extra, (groups - 1) as nat);
        }
    }
}

/// A variable-length integer that was read is read the same whatever follows.
pub proof fn lemma_take_var_int_local(bits: Seq<bool>, extra: Seq<bool>, signed: bool)
    ensures
        take_var_int(bits, signed).0 is Ok ==> take_var_int(bits + extra, signed) == followed_by(
            take_var_int(bits, signed),
            extra,
        ),
{
    lemma_take_var_int_groups_local(bits, extra, 5);
}

/// A world coordinate that was read is read the same whatever follows.
pub proof fn lemma_take_bit_coord_local(bits: Seq<bool>, extra: Seq<bool>)
    ensures
        take_bit_coord(bits).0 is Ok ==> take_bit_coord(bits + extra) == followed_by(
            take_bit_coord(bits),
            extra,
        ),
{
    let has_whole = take_bool(bits);
    let has_fraction = take_bool(has_whole.1);
    let negative = take_bool(has_fraction.1);
    lemma_take_bool_local(bits, extra);
    lemma_take_bool_local(has_whole.1, extra);
    lemma_take_bool_local(has_fraction.1, extra);
    if has_whole.0 is Ok && has_fraction.0 is Ok && negative.0 is Ok {
        let whole = take_optional(negative.1, has_whole.0.unwrap(), 14);
        lemma_take_optional_local(negative.1, extra, has_whole.0.unwrap(), 14);
        lemma_take_optional_local(whole.1, extra, has_fraction.0.unwrap(), 5);
    }
}

/// A multiplayer coordinate that was read is read the same whatever follows.
pub proof fn lemma_take_bit_coord_mp_local(
    bits: Seq<bool>,
    extra: Seq<bool>,
    is_integral: bool,
    low_precision: bool,
)
    ensures
        take_bit_coord_mp(bits, is_integral, low_precision).0 is Ok ==> take_bit_coord_mp(
            bits + extra,
            is_integral,
            low_precision,
        ) == followed_by(take_bit_coord_mp(bits, is_integral, low_precision), extra),
{
    let in_bounds = take_bool(bits);
    let has_whole = take_bool(in_bounds.1);
    let negative = take_bool(has_whole.1);
    lemma_take_bool_local(bits, extra);
    lemma_take_bool_local(in_bounds.1, extra);
    lemma_take_bool_local(has_whole.1, extra);
    if in_bounds.0 is Ok && has_whole.0 is Ok && negative.0 is Ok {
        let whole_bits = coord_mp_whole_bits(in_bounds.0.unwrap());
        if is_integral {
            lemma_take_unsigned_local(negative.1, extra, whole_bits, 32);
        } else {
            let whole = take_optional(negative.1, has_whole.0.unwrap(), whole_bits);
            lemma_take_optional_local(negative.1, extra, has_whole.0.unwrap(), whole_bits);
            lemma_take_unsigned_local(
                whole.1,
                extra,
                coord_mp_fraction_bits(low_precision),
                32,
            );
        }
    }
}

/// A component of a unit vector that was read is read the same whatever
/// follows.
pub proof fn lemma_take_bit_normal_local(bits: Seq<bool>, extra: Seq<bool>)
    ensures
        take_bit_normal(bits).0 is Ok ==> take_bit_normal(bits + extra) == followed_by(
            take_bit_normal(bits),
            extra,
        ),
{
    lemma_take_bool_local(bits, extra);
    lemma_take_unsigned_local(take_bool(bits).1, extra, 11, 32);
}

/// A number that was read is read the same whatever follows.
pub proof fn lemma_take_float_local(bits: Seq<bool>, extra: Seq<bool>, definition: FloatDefinition)
    ensures
        take_float(bits, definition).0 is Ok ==> take_float(bits + extra, definition)
            == followed_by(take_float(bits, definition), extra),
{
    match definition {
        FloatDefinition::Coord => lemma_take_bit_coord_local(bits, extra),
        FloatDefinition::CoordMP => lemma_take_bit_coord_mp_local(bits, extra, false, false),
        FloatDefinition::CoordMPLowPrecision => lemma_take_bit_coord_mp_local(
            bits,
            extra,
            false,
            true,
        ),
        FloatDefinition::CoordMPIntegral => lemma_take_bit_coord_mp_local(bits, extra, true, false),
        FloatDefinition::FloatNoScale => lemma_take_unsigned_local(bits, extra, 32, 32),
        FloatDefinition::NormalVarFloat => lemma_take_bit_normal_local(bits, extra),
        FloatDefinition::Scaled { bit_count, .. } => lemma_take_unsigned_local(
            bits,
            extra,
            bit_count as nat,
            32,
        ),
    }
}

/// Decoding looks at no bit behind the value: a value that was decoded from
/// a run of bits is decoded from any run that begins with it, and leaves
/// unread what the first run left and all that follows.
pub proof fn lemma_take_value_local(
    bits: Seq<bool>,
    extra: Seq<bool>,
    definition: SendPropParseDefinition,
)
    ensures
        take_value(bits, definition).0 is Ok ==> take_value(bits + extra, definition)
            == followed_by(take_value(bits, definition), extra),
    decreases definition, 0nat,
{
    match definition {
        SendPropParseDefinition::NormalVarInt { unsigned, .. } => {
            lemma_take_var_int_local(bits, extra, !unsigned);
        },
        SendPropParseDefinition::UnsignedInt { bit_count, .. } => {
            lemma_take_unsigned_local(bits, extra, bit_count as nat, 32);
        },
        SendPropParseDefinition::Int { bit_count, .. } => {
            lemma_take_signed_local(bits, extra, bit_count as nat, 32);
        },
        SendPropParseDefinition::Float { definition, .. } => {
            lemma_take_float_local(bits, extra, definition);
        },
        SendPropParseDefinition::String { .. } => {
            let length = take_unsigned(bits, 9, 32);
            lemma_take_unsigned_local(bits, extra, 9, 32);
            if length.0 is Ok {
                lemma_take_sized_text_local(length.1, extra, length.0.unwrap());
            }
        },
        SendPropParseDefinition::Vector { definition, .. } => {
            let x = take_float(bits, definition);
            let y = take_float(x.1, definition);
            lemma_take_float_local(bits, extra, definition);
            lemma_take_float_local(x.1, extra, definition);
            lemma_take_float_local(y.1, extra, definition);
        },
        SendPropParseDefinition::VectorXY { definition, .. } => {
            let x = take_float(bits, definition);
            lemma_take_float_local(bits, extra, definition);
            lemma_take_float_local(x.1, extra, definition);
        },
        SendPropParseDefinition::Array { inner_definition, count_bit_count, .. } => {
            let count = take_unsigned(bits, count_bit_count as nat, usize::BITS as nat);
            lemma_take_unsigned_local(bits, extra, count_bit_count as nat, usize::BITS as nat);
            if count.0 is Ok {
                lemma_take_values_local(count.1, extra, *inner_definition, count.0.unwrap());
            }
        },
    }
}

/// Values that were decoded one after the other are decoded the same
/// whatever follows.
pub proof fn lemma_take_values_local(
    bits: Seq<bool>,
    extra: Seq<bool>,
    definition: SendPropParseDefinition,
    count: nat,
)
    ensures
        take_values(bits, definition, count).0 is Ok ==> take_values(bits + extra, definition, count)
            == followed_by(take_values(bits, definition, count), extra),
    decreases definition, count,
{
    if count > 0 {
        let first = take_value(bits, definition);
        lemma_take_value_local(bits, extra, definition);
        if first.0 is Ok {
            lemma_take_values_local(first.1, extra, definition, (count - 1) as nat);
        }
    }
}

/// Decoding consumes the bits of the value and no others: where a run of
/// bits is the whole of a value, decoding what begins with that run gives
/// the value, and leaves unread exactly what follows the run.
pub proof fn lemma_take_value_consumes_its_bits(
    encoded: Seq<bool>,
    rest: Seq<bool>,
    definition: SendPropParseDefinition,
)
    requires
        take_value(encoded, definition).0 is Ok,
        take_value(encoded, definition).1.len() == 0,
    ensures
        take_value(encoded + rest, definition) == (take_value(encoded, definition).0, rest),
{
    lemma_take_value_local(encoded, rest, definition);
    assert(take_value(encoded, definition).1 + rest =~= rest);
}

/// A record that was read is read the same whatever follows it in the
/// stream.
#[verifier::rlimit(40)]
pub proof fn lemma_take_definition_local(bits: Seq<bool>, extra: Seq<bool>, owner_table: Seq<char>)
    ensures
        RawSendPropDefinition::take(bits, owner_table).0 is Ok ==> RawSendPropDefinition::take(
            bits + extra,
            owner_table,
        ) == followed_by(RawSendPropDefinition::take(bits, owner_table), extra),
{
    let prop_type = SendPropType::take(bits);
    lemma_take_unsigned_local(bits, extra, 5, 32);
    if prop_type.0 is Ok {
        let name = take_text(prop_type.1);
        lemma_take_text_local(prop_type.1, extra);
        if name.0 is Ok {
            let flags = SendPropFlags::take(name.1);
            lemma_take_unsigned_local(name.1, extra, 16, 32);
            if flags.0 is Ok {
                lemma_take_text_local(flags.1, extra);
                lemma_take_unsigned_local(flags.1, extra, 10, 32);
                lemma_take_unsigned_local(flags.1, extra, 32, 32);
                let low_value = take_unsigned(flags.1, 32, 32);
                if low_value.0 is Ok {
                    lemma_take_unsigned_local(low_value.1, extra, 32, 32);
                    let high_value = take_unsigned(low_value.1, 32, 32);
                    if high_value.0 is Ok {
                        lemma_take_unsigned_local(high_value.1, extra, 7, 32);
                    }
                }
            }
        }
    }
}

} // verus!

//! Where the fields of the numeric codecs lie in the stream.

use crate::bits::{bits_value, byte_at, lemma_bits_value_bound};
use crate::codec::{
    coord_mp_fraction_bits, coord_mp_whole_bits, take_bit_coord, take_bit_coord_mp,
    take_bit_normal, take_var_int_groups,
};
use crate::float::FloatValue;
use crate::stream::ReadError;
use vstd::arithmetic::power2::lemma2_to64;
use vstd::prelude::*;

verus! {

/// A field of `count` bits that begins `from` bits into a run: what is read
/// once `from` bits are passed over.
pub proof fn lemma_field(bits: Seq<bool>, from: int, count: int)
    requires
        0 <= from,
        0 <= count,
        from + count <= bits.len(),
    ensures
        bits.skip(from).take(count) == bits.subrange(from, from + count),
        bits.skip(from).skip(count) == bits.skip(from + count),
{
    assert(bits.skip(from).take(count) =~= bits.subrange(from, from + count));
    assert(bits.skip(from).skip(count) =~= bits.skip(from + count));
}

/// The number of bits of a world coordinate whose first two bits are these.
pub open spec fn bit_coord_width(has_whole: bool, has_fraction: bool) -> nat {
    if !has_whole && !has_fraction {
        2
    } else {
        3 + (if has_whole {
            14nat
        } else {
            0nat
        }) + (if has_fraction {
            5nat
        } else {
            0nat
        })
    }
}

/// The layout of a world coordinate. Its first two bits say what follows,
/// and so how long it is; it is read if, and only if, the stream holds that
/// many bits. The third bit is the sign, the whole part less one lies in the
/// 14 bits behind it, and the fraction in 32nds in the last 5 bits.
pub proof fn lemma_bit_coord_layout(bits: Seq<bool>)
    ensures
        bits.len() < 2 ==> take_bit_coord(bits).0 is Err,
        bits.len() >= 2 ==> (take_bit_coord(bits).0 is Ok <==> bits.len() >= bit_coord_width(
            bits[0],
            bits[1],
        )),
        bits.len() >= 2 && bits.len() >= bit_coord_width(bits[0], bits[1]) ==> take_bit_coord(bits)
            == (
            Ok::<FloatValue, ReadError>(
                FloatValue::Fixed {
                    negative: (bits[0] || bits[1]) && bits[2],
                    numerator: (32 * (if bits[0] {
                        bits_value(bits.subrange(3, 17)) + 1
                    } else {
                        0
                    }) + (if bits[1] {
                        bits_value(
                            bits.subrange(
                                bit_coord_width(bits[0], bits[1]) - 5,
                                bit_coord_width(bits[0], bits[1]) as int,
                            ),
                        )
                    } else {
                        0
                    })) as u32,
                    fraction_bits: 5,
                },
            ),
            bits.skip(bit_coord_width(bits[0], bits[1]) as int),
        ),
{
    if bits.len() >= 2 {
        let width = bit_coord_width(bits[0], bits[1]) as int;
        lemma_field(bits, 0, 1);
        lemma_field(bits, 1, 1);
        assert(bits.skip(1)[0] == bits[1]);
        if bits[0] || bits[1] {
            if bits.len() >= 3 {
                lemma_field(bits, 2, 1);
                assert(bits.skip(2)[0] == bits[2]);
                if bits[0] {
                    if bits.len() >= 17 {
                        lemma_field(bits, 3, 14);
                        if bits[1] && bits.len() >= 22 {
                            lemma_field(bits, 17, 5);
                        }
                    }
                } else if bits.len() >= 8 {
                    lemma_field(bits, 3, 5);
                }
            }
        }
    }
}

/// The layout of a component of a unit vector: a sign bit and a fraction in
/// 2048ths in 11 bits. It is read if, and only if, the stream holds 12 bits.
pub proof fn lemma_bit_normal_layout(bits: Seq<bool>)
    ensures
        take_bit_normal(bits).0 is Ok <==> bits.len() >= 12,
        bits.len() >= 12 ==> take_bit_normal(bits) == (
            Ok::<FloatValue, ReadError>(
                FloatValue::Fixed {
                    negative: bits[0],
                    numerator: bits_value(bits.subrange(1, 12)) as u32,
                    fraction_bits: 11,
                },
            ),
            bits.skip(12),
        ),
{
    if bits.len() >= 12 {
        lemma_field(bits, 1, 11);
    }
}

/// The number of bits of a multiplayer coordinate whose first two bits are
/// these.
pub open spec fn bit_coord_mp_width(
    in_bounds: bool,
    has_whole: bool,
    is_integral: bool,
    low_precision: bool,
) -> nat {
    let whole_bits = if has_whole {
        coord_mp_whole_bits(in_bounds)
    } else {
        0
    };
    if is_integral {
        if has_whole {
            3 + whole_bits
        } else {
            2
        }
    } else {
        3 + whole_bits + coord_mp_fraction_bits(low_precision)
    }
}

/// The layout of a multiplayer coordinate. Its first two bits say whether it
/// is within bounds and whether a whole part follows, and so how long it is;
/// it is read if, and only if, the stream holds that many bits, and what is
/// left is what follows them.
pub proof fn lemma_bit_coord_mp_layout(bits: Seq<bool>, is_integral: bool, low_precision: bool)
    ensures
        bits.len() < 2 ==> take_bit_coord_mp(bits, is_integral, low_precision).0 is Err,
        bits.len() >= 2 ==> (take_bit_coord_mp(bits, is_integral, low_precision).0 is Ok
            <==> bits.len() >= bit_coord_mp_width(bits[0], bits[1], is_integral, low_precision)),
        bits.len() >= 2 && take_bit_coord_mp(bits, is_integral, low_precision).0 is Ok
            ==> take_bit_coord_mp(bits, is_integral, low_precision).1 == bits.skip(
            bit_coord_mp_width(bits[0], bits[1], is_integral, low_precision) as int,
        ),
{
    if bits.len() >= 2 {
        let whole_bits = coord_mp_whole_bits(bits[0]) as int;
        let fraction_bits = coord_mp_fraction_bits(low_precision) as int;
        lemma_field(bits, 0, 1);
        lemma_field(bits, 1, 1);
        assert(bits.skip(1)[0] == bits[1]);
        if bits.len() >= 3 {
            lemma_field(bits, 2, 1);
            if bits[1] {
                if bits.len() >= 3 + whole_bits {
                    lemma_field(bits, 3, whole_bits);
                    if bits.len() >= 3 + whole_bits + fraction_bits {
                        lemma_field(bits, 3 + whole_bits, fraction_bits);
                    }
                }
            } else if bits.len() >= 3 + fraction_bits {
                lemma_field(bits, 3, fraction_bits);
            }
        }
    }
}

/// How many of the first whole bytes of `bits`, `limit` at most, announce
/// another byte: are 128 or above.
pub open spec fn continued_bytes(bits: Seq<bool>, limit: nat) -> nat
    decreases limit,
{
    if limit == 0 || bits.len() < 8 || byte_at(bits, 0) < 128 {
        0
    } else {
        1 + continued_bytes(bits.skip(8), (limit - 1) as nat)
    }
}

/// The number of bytes of a variable-length integer of at most `groups`
/// groups that begins with the bits `bits`: the bytes that announce another,
/// and the byte that they announce, if the groups are not used up by then.
pub open spec fn var_int_bytes(bits: Seq<bool>, groups: nat) -> nat {
    if continued_bytes(bits, groups) < groups {
        continued_bytes(bits, groups) + 1
    } else {
        groups
    }
}

/// A variable-length integer is read if, and only if, the stream holds all
/// of its bytes, and what is left is what follows them.
pub proof fn lemma_var_int_layout(bits: Seq<bool>, groups: nat)
    ensures
        take_var_int_groups(bits, groups).0 is Ok <==> 8 * var_int_bytes(bits, groups)
            <= bits.len(),
        take_var_int_groups(bits, groups).0 is Ok ==> take_var_int_groups(bits, groups).1
            == bits.skip(8 * var_int_bytes(bits, groups) as int),
    decreases groups,
{
    if groups == 0 {
        assert(bits.skip(0) =~= bits);
    } else if bits.len() >= 8 {
        lemma2_to64();
        lemma_bits_value_bound(bits.take(8));
        assert(bits.take(8) =~= bits.subrange(0, 8));
        if byte_at(bits, 0) >= 128 {
            let rest = bits.skip(8);
            let more = 8 * var_int_bytes(rest, (groups - 1) as nat) as int;
            lemma_var_int_layout(rest, (groups - 1) as nat);
            if more <= rest.len() {
                lemma_field(bits, 8, more);
            }
        }
    }
}

} // verus!

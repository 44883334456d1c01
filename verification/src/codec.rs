//! The numeric codecs of the wire format: the variable-length integer and the
//! quantised coordinates.

use crate::float::FloatValue;
use crate::stream::{after, take_bool, take_unsigned, ReadError, Stream, Taken};
use vstd::arithmetic::power2::{lemma2_to64, pow2};
use vstd::prelude::*;

verus! {

/// Takes the groups of a variable-length integer, at most `groups` of them.
/// A group is a byte: seven bits of payload, least significant group first,
/// and a top bit that says whether another group follows.
pub open spec fn take_var_int_groups(bits: Seq<bool>, groups: nat) -> Taken<nat>
    decreases groups,
{
    if groups == 0 {
        (Ok(0), bits)
    } else {
        match take_unsigned(bits, 8, 32) {
            (Err(error), rest) => (Err(error), rest),
            (Ok(byte), rest) => if byte < 128 {
                (Ok(byte), rest)
            } else {
                match take_var_int_groups(rest, (groups - 1) as nat) {
                    (Err(error), rest) => (Err(error), rest),
                    (Ok(high), rest) => (Ok((byte - 128 + 128 * high) as nat), rest),
                }
            },
        }
    }
}

/// The signed number that a zig-zag code stands for: the even codes are the
/// numbers from zero up, the odd ones those from minus one down.
pub open spec fn zigzag_decode(code: nat) -> int {
    if code % 2 == 0 {
        code as int / 2
    } else {
        -(code as int / 2) - 1
    }
}

/// The zig-zag code of a signed number.
pub open spec fn zigzag_encode(number: int) -> nat {
    if number >= 0 {
        (2 * number) as nat
    } else {
        (-2 * number - 1) as nat
    }
}

/// A 32-bit pattern read as a two's-complement number.
pub open spec fn as_signed_32(pattern: nat) -> int {
    if pattern < 0x8000_0000 {
        pattern as int
    } else {
        pattern - 0x1_0000_0000
    }
}

/// The number that the payload of a variable-length integer stands for. Only
/// the low 32 bits of the payload count.
pub open spec fn var_int_number(payload: nat, signed: bool) -> int {
    let pattern = payload % 0x1_0000_0000;
    if signed {
        zigzag_decode(pattern)
    } else {
        as_signed_32(pattern)
    }
}

/// Takes a variable-length integer of at most five groups.
pub open spec fn take_var_int(bits: Seq<bool>, signed: bool) -> Taken<int> {
    match take_var_int_groups(bits, 5) {
        (Err(error), rest) => (Err(error), rest),
        (Ok(payload), rest) => (Ok(var_int_number(payload, signed)), rest),
    }
}

/// The outcome of the groups read so far, `low` with weight one, and of those
/// still to come, with weight `weight`.
pub open spec fn var_int_joined(low: nat, weight: nat, high: Taken<nat>) -> Taken<nat> {
    match high {
        (Err(error), rest) => (Err(error), rest),
        (Ok(value), rest) => (Ok(low + weight * value), rest),
    }
}

/// The payload of `groups` groups is below `128^groups`.
pub proof fn lemma_var_int_groups_bound(bits: Seq<bool>, groups: nat)
    ensures
        take_var_int_groups(bits, groups).0 matches Ok(payload) ==> payload < pow2(7 * groups),
    decreases groups,
{
    if groups == 0 {
        lemma2_to64();
    } else {
        match take_unsigned(bits, 8, 32) {
            (Err(_), _) => {},
            (Ok(byte), rest) => {
                vstd::arithmetic::power2::lemma_pow2_adds(7, 7 * (groups - 1) as nat);
                lemma2_to64();
                vstd::arithmetic::power2::lemma_pow2_pos(7 * (groups - 1) as nat);
                if byte >= 128 {
                    lemma_var_int_groups_bound(rest, (groups - 1) as nat);
                    crate::bits::lemma_bits_value_bound(bits.take(8));
                    if let (Ok(high), _) = take_var_int_groups(rest, (groups - 1) as nat) {
                        let top = pow2(7 * (groups - 1) as nat);
                        assert(byte - 128 + 128 * high < 128 * top) by (nonlinear_arith)
                            requires
                                128 <= byte < 256,
                                high < top,
                        ;
                    }
                } else {
                    assert(byte < 128 * pow2(7 * (groups - 1) as nat)) by (nonlinear_arith)
                        requires
                            byte < 128,
                            pow2(7 * (groups - 1) as nat) >= 1,
                    ;
                }
            },
        }
    }
}

/// Reads a variable-length integer: up to five bytes of seven payload bits
/// each, least significant first, the top bit of a byte saying whether another
/// follows. Of the payload the low 32 bits count. With `signed` they are a
/// zig-zag code, else a two's-complement pattern.
pub fn read_var_int(stream: &mut Stream, signed: bool) -> (result: Result<i32, ReadError>)
    ensures
        (
            match result {
                Ok(number) => Ok(number as int),
                Err(error) => Err(error),
            },
            final(stream)@,
        ) == take_var_int(old(stream)@, signed),
{
    let mut payload: u64 = 0;
    let mut weight: u64 = 1;
    let mut group: u32 = 0;
    let mut more: bool = true;
    proof {
        lemma2_to64();
    }
    while more && group < 5
        invariant
            group <= 5,
            weight == pow2(7 * group as nat),
            payload < weight,
            !more ==> take_var_int_groups(old(stream)@, 5) == (
                Ok::<nat, ReadError>(payload as nat),
                stream@,
            ),
            more ==> take_var_int_groups(old(stream)@, 5) == var_int_joined(
                payload as nat,
                weight as nat,
                take_var_int_groups(stream@, (5 - group) as nat),
            ),
        decreases 5 - group,
    {
        let ghost before = stream@;
        let ghost low = payload as nat;
        let ghost unit = weight as nat;
        proof {
            lemma2_to64();
            vstd::arithmetic::power2::lemma_pow2_adds(7 * group as nat, 7);
            vstd::arithmetic::power2::lemma_pow2_strictly_increases(7 * group as nat, 35);
            crate::bits::lemma_bits_value_bound(before.take(8));
        }
        let byte = match stream.read_int(8) {
            Ok(byte) => byte,
            Err(error) => {
                return Err(error);
            },
        };
        let digit: u64 = if byte < 128 {
            byte as u64
        } else {
            (byte - 128) as u64
        };
        proof {
            assert(unit * digit <= unit * 127 && low + unit * digit < unit * 128)
                by (nonlinear_arith)
                requires
                    digit <= 127,
                    low < unit,
            ;
            let tail = take_var_int_groups(stream@, (5 - group - 1) as nat);
            if let (Ok(high), _) = tail {
                assert(low + unit * (digit + 128 * high) == low + unit * digit + unit * 128 * high)
                    by (nonlinear_arith);
            }
        }
        payload = payload + weight * digit;
        weight = weight * 128;
        group = group + 1;
        more = byte >= 128;
    }
    proof {
        lemma_var_int_groups_bound(old(stream)@, 5);
        if more {
            assert(take_var_int_groups(stream@, 0) == (Ok::<nat, ReadError>(0nat), stream@));
            assert(weight as nat * 0 == 0) by (nonlinear_arith);
        }
    }
    assert(take_var_int_groups(old(stream)@, 5) == (Ok::<nat, ReadError>(payload as nat), stream@));
    let pattern: u64 = payload % 0x1_0000_0000;
    if signed {
        let half: i64 = (pattern / 2) as i64;
        if pattern % 2 == 0 {
            Ok(half as i32)
        } else {
            Ok((-half - 1) as i32)
        }
    } else if pattern < 0x8000_0000 {
        Ok(pattern as i32)
    } else {
        Ok((pattern as i64 - 0x1_0000_0000) as i32)
    }
}

/// Takes `count` bits as an unsigned number if `present`, else nothing, with
/// zero as the number.
pub open spec fn take_optional(bits: Seq<bool>, present: bool, count: nat) -> Taken<nat> {
    if present {
        take_unsigned(bits, count, 32)
    } else {
        (Ok(0), bits)
    }
}

/// Takes a world coordinate: two bits that say whether a whole part and a
/// fraction follow; with neither, zero. Else a sign bit, the whole part less
/// one in 14 bits, and the fraction in 32nds in 5 bits, each only if it was
/// announced.
pub open spec fn take_bit_coord(bits: Seq<bool>) -> Taken<FloatValue> {
    let has_whole = take_bool(bits);
    let has_fraction = take_bool(has_whole.1);
    let negative = take_bool(has_fraction.1);
    let whole = take_optional(negative.1, has_whole.0.unwrap(), 14);
    let fraction = take_optional(whole.1, has_fraction.0.unwrap(), 5);
    after(
        has_whole,
        after(
            has_fraction,
            if !has_whole.0.unwrap() && !has_fraction.0.unwrap() {
                (Ok(FloatValue::Fixed { negative: false, numerator: 0, fraction_bits: 5 }), has_fraction.1)
            } else {
                after(
                    negative,
                    after(
                        whole,
                        after(
                            fraction,
                            (
                                Ok(
                                    FloatValue::Fixed {
                                        negative: negative.0.unwrap(),
                                        numerator: (32 * (if has_whole.0.unwrap() {
                                            whole.0.unwrap() + 1
                                        } else {
                                            0
                                        }) + fraction.0.unwrap()) as u32,
                                        fraction_bits: 5,
                                    },
                                ),
                                fraction.1,
                            ),
                        ),
                    ),
                )
            },
        ),
    )
}

/// Reads a world coordinate.
pub fn read_bit_coord(stream: &mut Stream) -> (result: Result<FloatValue, ReadError>)
    ensures
        (result, final(stream)@) == take_bit_coord(old(stream)@),
{
    let has_whole = stream.read_bool()?;
    let has_fraction = stream.read_bool()?;
    if has_whole || has_fraction {
        let negative = stream.read_bool()?;
        proof {
            lemma2_to64();
            crate::bits::lemma_bits_value_bound(stream@.take(14));
        }
        let whole: u32 = if has_whole {
            stream.read_int(14)? + 1
        } else {
            0
        };
        proof {
            crate::bits::lemma_bits_value_bound(stream@.take(5));
        }
        let fraction: u32 = if has_fraction {
            stream.read_int(5)?
        } else {
            0
        };
        Ok(FloatValue::Fixed { negative, numerator: 32 * whole + fraction, fraction_bits: 5 })
    } else {
        Ok(FloatValue::Fixed { negative: false, numerator: 0, fraction_bits: 5 })
    }
}

/// The number of bits of the whole part of a multiplayer coordinate: fewer
/// when the coordinate is within the usual bounds of a map.
pub open spec fn coord_mp_whole_bits(in_bounds: bool) -> nat {
    if in_bounds {
        11
    } else {
        14
    }
}

/// The number of bits of the fraction of a multiplayer coordinate.
pub open spec fn coord_mp_fraction_bits(low_precision: bool) -> nat {
    if low_precision {
        3
    } else {
        5
    }
}

/// Takes a multiplayer coordinate that is a whole number: a bit that says
/// whether it is within bounds, and one that says whether it is other than
/// zero; if it is, a sign bit and the number less one.
pub open spec fn take_bit_coord_mp_integral(bits: Seq<bool>) -> Taken<FloatValue> {
    let in_bounds = take_bool(bits);
    let has_whole = take_bool(in_bounds.1);
    let negative = take_bool(has_whole.1);
    let whole = take_unsigned(negative.1, coord_mp_whole_bits(in_bounds.0.unwrap()), 32);
    after(
        in_bounds,
        after(
            has_whole,
            if !has_whole.0.unwrap() {
                (Ok(FloatValue::Fixed { negative: false, numerator: 0, fraction_bits: 0 }), has_whole.1)
            } else {
                after(
                    negative,
                    after(
                        whole,
                        (
                            Ok(
                                FloatValue::Fixed {
                                    negative: negative.0.unwrap(),
                                    numerator: (whole.0.unwrap() + 1) as u32,
                                    fraction_bits: 0,
                                },
                            ),
                            whole.1,
                        ),
                    ),
                )
            },
        ),
    )
}

/// Takes a multiplayer coordinate with a fraction: a bit that says whether it
/// is within bounds, one that says whether a whole part follows, a sign bit,
/// the whole part less one if it was announced, and the fraction, in 8ths
/// with `low_precision` and in 32nds without.
pub open spec fn take_bit_coord_mp_fractional(bits: Seq<bool>, low_precision: bool) -> Taken<
    FloatValue,
> {
    let in_bounds = take_bool(bits);
    let has_whole = take_bool(in_bounds.1);
    let negative = take_bool(has_whole.1);
    let whole = take_optional(
        negative.1,
        has_whole.0.unwrap(),
        coord_mp_whole_bits(in_bounds.0.unwrap()),
    );
    let fraction = take_unsigned(whole.1, coord_mp_fraction_bits(low_precision), 32);
    after(
        in_bounds,
        after(
            has_whole,
            after(
                negative,
                after(
                    whole,
                    after(
                        fraction,
                        (
                            Ok(
                                FloatValue::Fixed {
                                    negative: negative.0.unwrap(),
                                    numerator: (pow2(coord_mp_fraction_bits(low_precision)) * (
                                    if has_whole.0.unwrap() {
                                        whole.0.unwrap() + 1
                                    } else {
                                        0
                                    }) + fraction.0.unwrap()) as u32,
                                    fraction_bits: coord_mp_fraction_bits(low_precision) as u8,
                                },
                            ),
                            fraction.1,
                        ),
                    ),
                ),
            ),
        ),
    )
}

/// Takes a multiplayer coordinate. With `is_integral` it is a whole number,
/// and `low_precision` says nothing.
pub open spec fn take_bit_coord_mp(bits: Seq<bool>, is_integral: bool, low_precision: bool) -> Taken<
    FloatValue,
> {
    if is_integral {
        take_bit_coord_mp_integral(bits)
    } else {
        take_bit_coord_mp_fractional(bits, low_precision)
    }
}

/// Reads a multiplayer coordinate.
pub fn read_bit_coord_mp(stream: &mut Stream, is_integral: bool, low_precision: bool) -> (result:
    Result<FloatValue, ReadError>)
    ensures
        (result, final(stream)@) == take_bit_coord_mp(old(stream)@, is_integral, low_precision),
{
    let in_bounds = stream.read_bool()?;
    let has_whole = stream.read_bool()?;
    let whole_bits: usize = if in_bounds {
        11
    } else {
        14
    };
    proof {
        lemma2_to64();
    }
    if is_integral {
        if has_whole {
            let negative = stream.read_bool()?;
            proof {
                crate::bits::lemma_bits_value_bound(stream@.take(whole_bits as int));
            }
            let whole = stream.read_int(whole_bits)? + 1;
            Ok(FloatValue::Fixed { negative, numerator: whole, fraction_bits: 0 })
        } else {
            Ok(FloatValue::Fixed { negative: false, numerator: 0, fraction_bits: 0 })
        }
    } else {
        let negative = stream.read_bool()?;
        proof {
            crate::bits::lemma_bits_value_bound(stream@.take(whole_bits as int));
        }
        let whole: u32 = if has_whole {
            stream.read_int(whole_bits)? + 1
        } else {
            0
        };
        let fraction_bits: u8 = if low_precision {
            3
        } else {
            5
        };
        proof {
            crate::bits::lemma_bits_value_bound(stream@.take(fraction_bits as int));
        }
        let fraction = stream.read_int(fraction_bits as usize)?;
        if low_precision {
            Ok(FloatValue::Fixed { negative, numerator: 8 * whole + fraction, fraction_bits })
        } else {
            Ok(FloatValue::Fixed { negative, numerator: 32 * whole + fraction, fraction_bits })
        }
    }
}

/// Takes a component of a unit vector: a sign bit and a fraction in 2048ths.
pub open spec fn take_bit_normal(bits: Seq<bool>) -> Taken<FloatValue> {
    let negative = take_bool(bits);
    let fraction = take_unsigned(negative.1, 11, 32);
    after(
        negative,
        after(
            fraction,
            (
                Ok(
                    FloatValue::Fixed {
                        negative: negative.0.unwrap(),
                        numerator: fraction.0.unwrap() as u32,
                        fraction_bits: 11,
                    },
                ),
                fraction.1,
            ),
        ),
    )
}

/// Reads a component of a unit vector.
pub fn read_bit_normal(stream: &mut Stream) -> (result: Result<FloatValue, ReadError>)
    ensures
        (result, final(stream)@) == take_bit_normal(old(stream)@),
{
    let negative = stream.read_bool()?;
    let fraction = stream.read_int(11)?;
    Ok(FloatValue::Fixed { negative, numerator: fraction, fraction_bits: 11 })
}

/// Encoding a 32-bit number in zig-zag and decoding it again gives the number
/// back.
pub proof fn lemma_zigzag_round_trip(number: int)
    requires
        -0x8000_0000 <= number < 0x8000_0000,
    ensures
        zigzag_encode(number) < 0x1_0000_0000,
        zigzag_decode(zigzag_encode(number)) == number,
        var_int_number(zigzag_encode(number), true) == number,
{
}

/// The zig-zag code of a number is the number shifted left by one, with
/// every bit flipped if the number is below zero; and a code is decoded by
/// shifting it right by one, and flipping every bit if its lowest was set.
pub proof fn lemma_zigzag_in_bits(number: i32, code: u32)
    ensures
        zigzag_encode(number as int) == (((number << 1) ^ (number >> 31)) as u32),
        zigzag_decode(code as nat) == (((code >> 1) ^ (if code & 1 == 1 {
            0xffff_ffffu32
        } else {
            0u32
        })) as i32),
{
    let encoded = ((number << 1) ^ (number >> 31)) as u32;
    assert(number >= 0 ==> encoded == 2 * number) by (bit_vector)
        requires
            encoded == ((number << 1) ^ (number >> 31)) as u32,
    ;
    assert(number < 0 ==> encoded == -2 * number - 1) by (bit_vector)
        requires
            encoded == ((number << 1) ^ (number >> 31)) as u32,
    ;
    let decoded = ((code >> 1) ^ (if code & 1 == 1 {
        0xffff_ffffu32
    } else {
        0u32
    })) as i32;
    assert(code % 2 == 0 ==> decoded == code / 2) by (bit_vector)
        requires
            decoded == ((code >> 1) ^ (if code & 1 == 1 {
                0xffff_ffffu32
            } else {
                0u32
            })) as i32,
    ;
    assert(code % 2 == 1 ==> decoded == -(code / 2) - 1) by (bit_vector)
        requires
            decoded == ((code >> 1) ^ (if code & 1 == 1 {
                0xffff_ffffu32
            } else {
                0u32
            })) as i32,
    ;
}

} // verus!

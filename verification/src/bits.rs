//! Bit sequences as numbers.
//!
//! A stream of bits is modelled as a `Seq<bool>` in reading order. A field of
//! the wire format is a run of consecutive bits, least significant first.

use vstd::arithmetic::power2::{lemma_pow2_pos, lemma_pow2_unfold, pow2};
use vstd::prelude::*;

verus! {

/// The number that a run of bits spells, first bit least significant.
pub open spec fn bits_value(bits: Seq<bool>) -> nat
    decreases bits.len(),
{
    if bits.len() == 0 {
        0
    } else {
        (if bits[0] { 1nat } else { 0nat }) + 2 * bits_value(bits.skip(1))
    }
}

/// The two's-complement number that a run of bits spells: the last bit is the
/// sign. The empty run spells zero.
pub open spec fn bits_signed_value(bits: Seq<bool>) -> int {
    if bits.len() > 0 && bits.last() {
        bits_value(bits) - pow2(bits.len())
    } else {
        bits_value(bits) as int
    }
}

/// The `index`-th whole byte of a run of bits.
pub open spec fn byte_at(bits: Seq<bool>, index: int) -> u8 {
    bits_value(bits.subrange(8 * index, 8 * index + 8)) as u8
}

/// The first `count` whole bytes of a run of bits.
pub open spec fn bytes_of(bits: Seq<bool>, count: nat) -> Seq<u8> {
    Seq::new(count, |index: int| byte_at(bits, index))
}

/// The bits of a byte string in reading order: byte by byte, each from its
/// least significant bit up.
pub open spec fn bits_of_bytes(bytes: Seq<u8>) -> Seq<bool> {
    Seq::new(8 * bytes.len(), |index: int| (bytes[index / 8] as nat / pow2((index % 8) as nat)) % 2 == 1)
}

/// A run of `n` bits spells a number below `2^n`.
pub proof fn lemma_bits_value_bound(bits: Seq<bool>)
    ensures
        bits_value(bits) < pow2(bits.len()),
    decreases bits.len(),
{
    if bits.len() == 0 {
        lemma_pow2_pos(0);
    } else {
        lemma_bits_value_bound(bits.skip(1));
        lemma_pow2_unfold(bits.len());
    }
}

/// The value of a run is the value of its front plus the value of its back,
/// shifted past the front.
pub proof fn lemma_bits_value_concat(front: Seq<bool>, back: Seq<bool>)
    ensures
        bits_value(front + back) == bits_value(front) + pow2(front.len()) * bits_value(back),
    decreases front.len(),
{
    if front.len() == 0 {
        assert(front + back =~= back);
        lemma_pow2_unfold(1);
        assert(pow2(0) == 1) by {
            vstd::arithmetic::power2::lemma2_to64();
        }
    } else {
        let whole = front + back;
        assert(whole.skip(1) =~= front.skip(1) + back);
        lemma_bits_value_concat(front.skip(1), back);
        lemma_pow2_unfold(front.len());
        assert(whole[0] == front[0]);
        assert(2 * (pow2((front.len() - 1) as nat) * bits_value(back)) == pow2(front.len())
            * bits_value(back)) by (nonlinear_arith)
            requires
                pow2(front.len()) == 2 * pow2((front.len() - 1) as nat),
        ;
    }
}

/// The last bit of a run weighs `2^(n-1)`: with it set the value is at least
/// that, without it the value is below.
pub proof fn lemma_bits_value_last(bits: Seq<bool>)
    requires
        bits.len() > 0,
    ensures
        bits.last() ==> pow2((bits.len() - 1) as nat) <= bits_value(bits),
        !bits.last() ==> bits_value(bits) < pow2((bits.len() - 1) as nat),
{
    let front = bits.drop_last();
    let back = seq![bits.last()];
    assert(bits =~= front + back);
    lemma_bits_value_concat(front, back);
    lemma_bits_value_bound(front);
    assert(back.skip(1).len() == 0);
    assert(bits_value(back.skip(1)) == 0);
    assert(bits_value(back) == if bits.last() { 1nat } else { 0nat });
    assert(pow2(front.len()) * 1 == pow2(front.len())) by (nonlinear_arith);
    assert(pow2(front.len()) * 0 == 0) by (nonlinear_arith);
}

/// A two's-complement run of `n >= 1` bits lies in `[-2^(n-1), 2^(n-1))`.
pub proof fn lemma_bits_signed_value_range(bits: Seq<bool>)
    requires
        bits.len() > 0,
    ensures
        -(pow2((bits.len() - 1) as nat) as int) <= bits_signed_value(bits),
        bits_signed_value(bits) < pow2((bits.len() - 1) as nat),
{
    lemma_bits_value_last(bits);
    lemma_bits_value_bound(bits);
    lemma_pow2_unfold(bits.len());
}

} // verus!

//! The key of a property: a hash of the names of its table and of itself.

use fnv::FnvHasher;
use std::hash::Hasher;
use vstd::prelude::*;
use vstd::string::StringSliceAdditionalSpecFns;

verus! {

/// The state that FNV-1a starts from, for 64 bits.
pub const FNV_OFFSET_BASIS: u64 = 0xcbf29ce484222325;

/// The factor of FNV-1a, for 64 bits.
pub const FNV_PRIME: u64 = 0x100000001b3;

/// The state of FNV-1a after one more byte: the byte is folded in with
/// exclusive or, and the state multiplied by the prime, modulo `2^64`.
pub open spec fn fnv1a_step(state: u64, byte: u8) -> u64 {
    (((state ^ (byte as u64)) as int * (FNV_PRIME as int)) % 0x1_0000_0000_0000_0000) as u64
}

/// The state of FNV-1a after `bytes`, taken in order.
pub open spec fn fnv1a(state: u64, bytes: Seq<u8>) -> u64
    decreases bytes.len(),
{
    if bytes.len() == 0 {
        state
    } else {
        fnv1a(fnv1a_step(state, bytes[0]), bytes.skip(1))
    }
}

/// Hashing two byte strings one after the other is hashing them joined.
pub proof fn lemma_fnv1a_concat(state: u64, front: Seq<u8>, back: Seq<u8>)
    ensures
        fnv1a(fnv1a(state, front), back) == fnv1a(state, front + back),
    decreases front.len(),
{
    if front.len() == 0 {
        assert(front + back =~= back);
    } else {
        assert((front + back).skip(1) =~= front.skip(1) + back);
        lemma_fnv1a_concat(fnv1a_step(state, front[0]), front.skip(1), back);
    }
}

/// `FnvHasher::with_key`, `write` and `finish`: the state of FNV-1a that
/// started from `state`, after `bytes`.
#[verifier::external_body]
fn fnv1a_write(state: u64, bytes: &[u8]) -> (hash: u64)
    ensures
        hash == fnv1a(state, bytes@),
{
    let mut hasher = FnvHasher::with_key(state);
    hasher.write(bytes);
    hasher.finish()
}

/// The key of a property.
#[derive(Debug, Clone, Copy, Ord, PartialOrd, Eq, PartialEq, Hash, Structural)]
pub struct SendPropIdentifier(pub u64);

impl SendPropIdentifier {
    /// The key that the names of a table and of a property give.
    pub open spec fn of_names(table: Seq<char>, prop: Seq<char>) -> u64 {
        fnv1a(FNV_OFFSET_BASIS, vstd::utf8::encode_utf8(table) + vstd::utf8::encode_utf8(prop))
    }

    /// The key of the property `prop` of the table `table`: the FNV-1a hash
    /// of the bytes of `table` followed by those of `prop`.
    pub fn new(table: &str, prop: &str) -> (identifier: SendPropIdentifier)
        ensures
            identifier.0 == Self::of_names(table@, prop@),
    {
        let after_table = fnv1a_write(FNV_OFFSET_BASIS, table.as_bytes());
        let hash = fnv1a_write(after_table, prop.as_bytes());
        proof {
            lemma_fnv1a_concat(FNV_OFFSET_BASIS, table.spec_bytes(), prop.spec_bytes());
        }
        SendPropIdentifier(hash)
    }
}

} // verus!

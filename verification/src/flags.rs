//! The kind of a property and the flags that change how it is sent.

use crate::stream::{after, take_unsigned, ReadError, Stream, Taken};
use vstd::arithmetic::power2::lemma2_to64;
use vstd::prelude::*;

verus! {

/// The kind of a property. On the wire it is a tag of five bits, the kinds
/// numbered from zero in the order given here.
#[derive(Copy, Clone, PartialEq, Eq, Debug, Structural)]
pub enum SendPropType {
    Int,
    Float,
    Vector,
    VectorXY,
    String,
    Array,
    DataTable,
    /// Reserved: no property that can be decoded is of this kind.
    NumSendPropTypes,
}

impl SendPropType {
    /// The kind that a tag names, if any.
    pub open spec fn of_tag(tag: nat) -> Option<SendPropType> {
        if tag == 0 {
            Some(SendPropType::Int)
        } else if tag == 1 {
            Some(SendPropType::Float)
        } else if tag == 2 {
            Some(SendPropType::Vector)
        } else if tag == 3 {
            Some(SendPropType::VectorXY)
        } else if tag == 4 {
            Some(SendPropType::String)
        } else if tag == 5 {
            Some(SendPropType::Array)
        } else if tag == 6 {
            Some(SendPropType::DataTable)
        } else if tag == 7 {
            Some(SendPropType::NumSendPropTypes)
        } else {
            None
        }
    }

    /// Takes the five bits of a tag. A tag that names no kind is an error, and
    /// is consumed all the same.
    pub open spec fn take(bits: Seq<bool>) -> Taken<SendPropType> {
        let tag = take_unsigned(bits, 5, 32);
        after(
            tag,
            match Self::of_tag(tag.0.unwrap()) {
                Some(kind) => (Ok(kind), tag.1),
                None => (
                    Err(ReadError::UnmatchedDiscriminant { discriminant: tag.0.unwrap() as usize }),
                    tag.1,
                ),
            },
        )
    }

    /// Reads the kind of a property.
    pub fn read(stream: &mut Stream) -> (result: Result<SendPropType, ReadError>)
        ensures
            (result, final(stream)@) == Self::take(old(stream)@),
    {
        let tag = stream.read_int(5)?;
        if tag == 0 {
            Ok(SendPropType::Int)
        } else if tag == 1 {
            Ok(SendPropType::Float)
        } else if tag == 2 {
            Ok(SendPropType::Vector)
        } else if tag == 3 {
            Ok(SendPropType::VectorXY)
        } else if tag == 4 {
            Ok(SendPropType::String)
        } else if tag == 5 {
            Ok(SendPropType::Array)
        } else if tag == 6 {
            Ok(SendPropType::DataTable)
        } else if tag == 7 {
            Ok(SendPropType::NumSendPropTypes)
        } else {
            Err(ReadError::UnmatchedDiscriminant { discriminant: tag as usize })
        }
    }
}

/// A flag of a property.
#[derive(Copy, Clone, PartialEq, Eq, Debug, Structural)]
pub enum SendPropFlag {
    /// The integer is unsigned.
    Unsigned,
    /// The number is a world coordinate; its bit count says nothing.
    Coord,
    /// The number is sent as it is, not scaled into a range.
    NoScale,
    /// The high end of the range is held one step below.
    RoundDown,
    /// The low end of the range is held one step above.
    RoundUp,
    /// An integer is sent in variable length; any other number as a component
    /// of a unit vector.
    NormalVarInt,
    /// The record names a property to leave out, and holds no value.
    Exclude,
    /// The vector is sent as XYZ and exponent.
    XYZE,
    /// The record is the element of the array that follows it.
    InsideArray,
    /// The table is sent to every client.
    ProxyAlwaysYes,
    /// The property changes often and comes early in the list.
    ChangesOften,
    /// The property is one component of a vector.
    IsVectorElement,
    /// The table lies at offset zero and can be folded into its owner.
    Collapsible,
    /// A coordinate of a multiplayer game.
    CoordMP,
    /// A multiplayer coordinate with a fraction of three bits.
    CoordMPLowPrecision,
    /// A multiplayer coordinate that is a whole number.
    CoordMPIntegral,
}

impl SendPropFlag {
    /// The flag's bit as a mask of the flag field.
    pub open spec fn mask_of(self) -> u16 {
        match self {
            SendPropFlag::Unsigned => 1,
            SendPropFlag::Coord => 2,
            SendPropFlag::NoScale => 4,
            SendPropFlag::RoundDown => 8,
            SendPropFlag::RoundUp => 16,
            SendPropFlag::NormalVarInt => 32,
            SendPropFlag::Exclude => 64,
            SendPropFlag::XYZE => 128,
            SendPropFlag::InsideArray => 256,
            SendPropFlag::ProxyAlwaysYes => 512,
            SendPropFlag::ChangesOften => 1024,
            SendPropFlag::IsVectorElement => 2048,
            SendPropFlag::Collapsible => 4096,
            SendPropFlag::CoordMP => 8192,
            SendPropFlag::CoordMPLowPrecision => 16384,
            SendPropFlag::CoordMPIntegral => 32768,
        }
    }

    /// The flag's bit as a mask of the flag field.
    pub fn mask(self) -> (mask: u16)
        ensures
            mask == self.mask_of(),
    {
        match self {
            SendPropFlag::Unsigned => 1,
            SendPropFlag::Coord => 2,
            SendPropFlag::NoScale => 4,
            SendPropFlag::RoundDown => 8,
            SendPropFlag::RoundUp => 16,
            SendPropFlag::NormalVarInt => 32,
            SendPropFlag::Exclude => 64,
            SendPropFlag::XYZE => 128,
            SendPropFlag::InsideArray => 256,
            SendPropFlag::ProxyAlwaysYes => 512,
            SendPropFlag::ChangesOften => 1024,
            SendPropFlag::IsVectorElement => 2048,
            SendPropFlag::Collapsible => 4096,
            SendPropFlag::CoordMP => 8192,
            SendPropFlag::CoordMPLowPrecision => 16384,
            SendPropFlag::CoordMPIntegral => 32768,
        }
    }
}

/// Whether the bit of `mask` is set in `bits`.
pub open spec fn mask_set(bits: u16, mask: u16) -> bool {
    bits & mask != 0
}

/// The flags of a property: a set of [`SendPropFlag`].
#[derive(Copy, Clone, PartialEq, Eq, Debug, Structural)]
pub struct SendPropFlags {
    bits: u16,
}

impl View for SendPropFlags {
    type V = Set<SendPropFlag>;

    /// The flags that are set.
    closed spec fn view(&self) -> Set<SendPropFlag> {
        Set::new(|flag: SendPropFlag| mask_set(self.bits, flag.mask_of()))
    }
}

impl SendPropFlags {
    /// The flags that a flag field holds.
    pub open spec fn of_field(field: u16) -> Set<SendPropFlag> {
        Set::new(|flag: SendPropFlag| mask_set(field, flag.mask_of()))
    }

    /// No flag.
    pub fn empty() -> (flags: SendPropFlags)
        ensures
            flags@ == Set::<SendPropFlag>::empty(),
    {
        let flags = SendPropFlags { bits: 0 };
        proof {
            assert forall|flag: SendPropFlag| !mask_set(0, #[trigger] flag.mask_of()) by {
                let mask = flag.mask_of();
                assert(0u16 & mask == 0) by (bit_vector);
            }
            assert(flags@ =~= Set::<SendPropFlag>::empty());
        }
        flags
    }

    /// The flags of a flag field. Each of its sixteen bits is a flag.
    pub fn from_bits(field: u16) -> (flags: SendPropFlags)
        ensures
            flags@ == Self::of_field(field),
    {
        SendPropFlags { bits: field }
    }

    /// These flags and `flag`.
    pub fn with(self, flag: SendPropFlag) -> (flags: SendPropFlags)
        ensures
            flags@ == self@.insert(flag),
    {
        let mask = flag.mask();
        let flags = SendPropFlags { bits: self.bits | mask };
        proof {
            let bits = self.bits;
            assert forall|other: SendPropFlag|
                mask_set(bits | mask, #[trigger] other.mask_of()) == (mask_set(
                    bits,
                    other.mask_of(),
                ) || other == flag) by {
                let m = other.mask_of();
                assert(other == flag <==> m == mask);
                assert(((bits | mask) & m != 0) == ((bits & m != 0) || (mask & m != 0)))
                    by (bit_vector);
                if m == mask {
                    assert(mask & mask != 0) by (bit_vector)
                        requires
                            mask != 0,
                    ;
                } else {
                    lemma_distinct_masks(flag, other);
                }
            }
            assert(flags@ =~= self@.insert(flag));
        }
        flags
    }

    /// Whether `flag` is set.
    pub fn contains(self, flag: SendPropFlag) -> (set: bool)
        ensures
            set == self@.contains(flag),
    {
        (self.bits & flag.mask()) != 0
    }

    /// Takes the sixteen bits of a flag field.
    pub open spec fn take(bits: Seq<bool>) -> Taken<Set<SendPropFlag>> {
        let field = take_unsigned(bits, 16, 32);
        after(field, (Ok(Self::of_field(field.0.unwrap() as u16)), field.1))
    }

    /// Reads the flags of a property.
    pub fn read(stream: &mut Stream) -> (result: Result<SendPropFlags, ReadError>)
        ensures
            (
                match result {
                    Ok(flags) => Ok(flags@),
                    Err(error) => Err(error),
                },
                final(stream)@,
            ) == Self::take(old(stream)@),
    {
        proof {
            lemma2_to64();
            crate::bits::lemma_bits_value_bound(stream@.take(16));
        }
        let field = stream.read_int(16)?;
        Ok(SendPropFlags::from_bits(field as u16))
    }
}

/// The masks of two flags share no bit.
pub proof fn lemma_distinct_masks(one: SendPropFlag, other: SendPropFlag)
    requires
        one != other,
    ensures
        one.mask_of() & other.mask_of() == 0,
{
    let a = one.mask_of();
    let b = other.mask_of();
    assert(a != b);
    assert(a & b == 0) by (bit_vector)
        requires
            a != b,
            a == 1 || a == 2 || a == 4 || a == 8 || a == 16 || a == 32 || a == 64 || a == 128 || a
                == 256 || a == 512 || a == 1024 || a == 2048 || a == 4096 || a == 8192 || a
                == 16384 || a == 32768,
            b == 1 || b == 2 || b == 4 || b == 8 || b == 16 || b == 32 || b == 64 || b == 128 || b
                == 256 || b == 512 || b == 1024 || b == 2048 || b == 4096 || b == 8192 || b
                == 16384 || b == 32768,
    ;
}

} // verus!

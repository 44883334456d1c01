//! From the record of a property to the recipe by which its values are
//! decoded.

use crate::definition::{RawDefinitionModel, RawSendPropDefinition};
use crate::flags::{SendPropFlag, SendPropFlags, SendPropType};
use crate::float::FloatBits;
use crate::identifier::SendPropIdentifier;
use vstd::arithmetic::logarithm::{lemma_log0, lemma_log_s, log};
use vstd::arithmetic::power2::{lemma2_to64, lemma_pow2_unfold, pow2};
use vstd::prelude::*;

verus! {

/// Why the record of a property gives no recipe.
#[derive(Clone, Copy, Debug, PartialEq, Eq, Structural)]
pub enum MalformedSendPropDefinitionError {
    /// A number that is scaled into a range, without its bit count or an end
    /// of the range.
    UnsizedFloat,
    /// An array without the number of its elements.
    UnsizedArray,
    /// An array without the record of its elements.
    UntypedArray,
    /// A record that holds no value: a table, a property to leave out, or the
    /// reserved kind.
    InvalidPropType,
}

/// How a number that is no integer is sent.
#[derive(Clone, Copy, Debug, PartialEq, Eq, Structural)]
pub enum FloatDefinition {
    Coord,
    CoordMP,
    CoordMPLowPrecision,
    CoordMPIntegral,
    FloatNoScale,
    NormalVarFloat,
    Scaled { bit_count: u8, high: FloatBits, low: FloatBits },
}

impl FloatDefinition {
    /// How a number with these flags is sent. The first of Coord, CoordMP,
    /// CoordMPLowPrecision, CoordMPIntegral, NoScale and NormalVarInt that is
    /// set decides, whatever the numbers. With none of them the number is
    /// scaled into the range from `low` to `high`, and all three numbers are
    /// needed. Of the bit count the low eight bits are kept.
    pub open spec fn of(
        flags: Set<SendPropFlag>,
        bit_count: Option<u32>,
        high: Option<FloatBits>,
        low: Option<FloatBits>,
    ) -> Result<FloatDefinition, MalformedSendPropDefinitionError> {
        if flags.contains(SendPropFlag::Coord) {
            Ok(FloatDefinition::Coord)
        } else if flags.contains(SendPropFlag::CoordMP) {
            Ok(FloatDefinition::CoordMP)
        } else if flags.contains(SendPropFlag::CoordMPLowPrecision) {
            Ok(FloatDefinition::CoordMPLowPrecision)
        } else if flags.contains(SendPropFlag::CoordMPIntegral) {
            Ok(FloatDefinition::CoordMPIntegral)
        } else if flags.contains(SendPropFlag::NoScale) {
            Ok(FloatDefinition::FloatNoScale)
        } else if flags.contains(SendPropFlag::NormalVarInt) {
            Ok(FloatDefinition::NormalVarFloat)
        } else if bit_count is Some && high is Some && low is Some {
            Ok(
                FloatDefinition::Scaled {
                    bit_count: (bit_count.unwrap() % 256) as u8,
                    high: high.unwrap(),
                    low: low.unwrap(),
                },
            )
        } else {
            Err(MalformedSendPropDefinitionError::UnsizedFloat)
        }
    }

    /// How a number with these flags, this bit count and this range is sent.
    pub fn new(
        flags: SendPropFlags,
        bit_count: Option<u32>,
        high: Option<FloatBits>,
        low: Option<FloatBits>,
    ) -> (result: Result<FloatDefinition, MalformedSendPropDefinitionError>)
        ensures
            result == Self::of(flags@, bit_count, high, low),
    {
        if flags.contains(SendPropFlag::Coord) {
            Ok(FloatDefinition::Coord)
        } else if flags.contains(SendPropFlag::CoordMP) {
            Ok(FloatDefinition::CoordMP)
        } else if flags.contains(SendPropFlag::CoordMPLowPrecision) {
            Ok(FloatDefinition::CoordMPLowPrecision)
        } else if flags.contains(SendPropFlag::CoordMPIntegral) {
            Ok(FloatDefinition::CoordMPIntegral)
        } else if flags.contains(SendPropFlag::NoScale) {
            Ok(FloatDefinition::FloatNoScale)
        } else if flags.contains(SendPropFlag::NormalVarInt) {
            Ok(FloatDefinition::NormalVarFloat)
        } else {
            match (bit_count, high, low) {
                (Some(bit_count), Some(high), Some(low)) => Ok(
                    FloatDefinition::Scaled { bit_count: (bit_count % 256) as u8, high, low },
                ),
                _ => Err(MalformedSendPropDefinitionError::UnsizedFloat),
            }
        }
    }
}

/// The recipe by which the values of a property are decoded.
#[derive(Debug, PartialEq, Eq)]
pub enum SendPropParseDefinition {
    NormalVarInt { changes_often: bool, unsigned: bool },
    UnsignedInt { changes_often: bool, bit_count: u8 },
    Int { changes_often: bool, bit_count: u8 },
    Float { changes_often: bool, definition: FloatDefinition },
    String { changes_often: bool },
    Vector { changes_often: bool, definition: FloatDefinition },
    VectorXY { changes_often: bool, definition: FloatDefinition },
    Array { changes_often: bool, inner_definition: Box<SendPropParseDefinition>, count_bit_count: u16 },
}

impl Clone for SendPropParseDefinition {
    fn clone(&self) -> (copy: SendPropParseDefinition)
        ensures
            copy == *self,
        decreases self,
    {
        match self {
            SendPropParseDefinition::NormalVarInt { changes_often, unsigned } => {
                SendPropParseDefinition::NormalVarInt {
                    changes_often: *changes_often,
                    unsigned: *unsigned,
                }
            },
            SendPropParseDefinition::UnsignedInt { changes_often, bit_count } => {
                SendPropParseDefinition::UnsignedInt {
                    changes_often: *changes_often,
                    bit_count: *bit_count,
                }
            },
            SendPropParseDefinition::Int { changes_often, bit_count } => {
                SendPropParseDefinition::Int { changes_often: *changes_often, bit_count: *bit_count }
            },
            SendPropParseDefinition::Float { changes_often, definition } => {
                SendPropParseDefinition::Float {
                    changes_often: *changes_often,
                    definition: *definition,
                }
            },
            SendPropParseDefinition::String { changes_often } => {
                SendPropParseDefinition::String { changes_often: *changes_often }
            },
            SendPropParseDefinition::Vector { changes_often, definition } => {
                SendPropParseDefinition::Vector {
                    changes_often: *changes_often,
                    definition: *definition,
                }
            },
            SendPropParseDefinition::VectorXY { changes_often, definition } => {
                SendPropParseDefinition::VectorXY {
                    changes_often: *changes_often,
                    definition: *definition,
                }
            },
            SendPropParseDefinition::Array { changes_often, inner_definition, count_bit_count } => {
                SendPropParseDefinition::Array {
                    changes_often: *changes_often,
                    inner_definition: Box::new((&**inner_definition).clone()),
                    count_bit_count: *count_bit_count,
                }
            },
        }
    }
}

/// The whole part of the logarithm to the base two, and zero for zero.
pub fn log_base2(number: u16) -> (exponent: u32)
    ensures
        exponent == log(2, number as int),
        exponent <= 15,
{
    let mut rest: u16 = number;
    let mut exponent: u32 = 0;
    proof {
        lemma2_to64();
        assert(rest as int * 1 == rest) by (nonlinear_arith);
    }
    while rest > 1
        invariant
            log(2, number as int) == exponent + log(2, rest as int),
            rest as int * pow2(exponent as nat) <= number,
            rest >= 1 || exponent == 0,
            exponent <= 15,
        decreases rest,
    {
        proof {
            let weight = pow2(exponent as nat) as int;
            lemma_log_s(2, rest as int);
            lemma_pow2_unfold((exponent + 1) as nat);
            assert((rest / 2) as int * (2 * weight) <= rest as int * weight) by (nonlinear_arith)
                requires
                    2 * (rest / 2) <= rest,
                    weight >= 0,
            ;
            lemma2_to64();
            if exponent >= 15 {
                assert((rest / 2) as int * (2 * weight) >= 2 * weight) by (nonlinear_arith)
                    requires
                        rest / 2 >= 1,
                        weight >= 0,
                ;
            }
        }
        rest = rest / 2;
        exponent = exponent + 1;
    }
    proof {
        lemma_log0(2, rest as int);
    }
    exponent
}

impl SendPropParseDefinition {
    /// Whether the property changes often.
    pub open spec fn spec_changes_often(&self) -> bool {
        match self {
            SendPropParseDefinition::NormalVarInt { changes_often, .. } => *changes_often,
            SendPropParseDefinition::UnsignedInt { changes_often, .. } => *changes_often,
            SendPropParseDefinition::Int { changes_often, .. } => *changes_often,
            SendPropParseDefinition::Float { changes_often, .. } => *changes_often,
            SendPropParseDefinition::String { changes_often, .. } => *changes_often,
            SendPropParseDefinition::Vector { changes_often, .. } => *changes_often,
            SendPropParseDefinition::VectorXY { changes_often, .. } => *changes_often,
            SendPropParseDefinition::Array { changes_often, .. } => *changes_often,
        }
    }

    /// Whether the property changes often.
    #[verifier::when_used_as_spec(spec_changes_often)]
    pub fn changes_often(&self) -> (often: bool)
        ensures
            often == self.spec_changes_often(),
    {
        match self {
            SendPropParseDefinition::NormalVarInt { changes_often, .. } => *changes_often,
            SendPropParseDefinition::UnsignedInt { changes_often, .. } => *changes_often,
            SendPropParseDefinition::Int { changes_often, .. } => *changes_often,
            SendPropParseDefinition::Float { changes_often, .. } => *changes_often,
            SendPropParseDefinition::String { changes_often, .. } => *changes_often,
            SendPropParseDefinition::Vector { changes_often, .. } => *changes_often,
            SendPropParseDefinition::VectorXY { changes_often, .. } => *changes_often,
            SendPropParseDefinition::Array { changes_often, .. } => *changes_often,
        }
    }

    /// The bit count of an integer: 32 where the record gives none, and of a
    /// larger one the low eight bits.
    pub open spec fn int_bit_count(bit_count: Option<u32>) -> u8 {
        match bit_count {
            Some(count) => (count % 256) as u8,
            None => 32,
        }
    }

    /// The number of bits in which the length of an array of at most
    /// `element_count` elements is sent.
    pub open spec fn count_bits(element_count: u16) -> u16 {
        (log(2, element_count as int) + 1) as u16
    }

    /// The recipe that a record gives, or why it gives none.
    ///
    /// A record that names a property to leave out, a table, and the reserved
    /// kind give none. An integer is sent in variable length with
    /// NormalVarInt, else in its bit count, unsigned with Unsigned. A number,
    /// and each component of a vector, is sent as [`FloatDefinition::of`]
    /// says. An array needs the number of its elements and the record of its
    /// elements, in this order, and that record has to give a recipe itself.
    pub open spec fn refine(raw: RawDefinitionModel) -> Result<
        SendPropParseDefinition,
        MalformedSendPropDefinitionError,
    >
        decreases raw,
    {
        let changes_often = raw.flags.contains(SendPropFlag::ChangesOften);
        let float = FloatDefinition::of(raw.flags, raw.bit_count, raw.high_value, raw.low_value);
        if raw.flags.contains(SendPropFlag::Exclude) {
            Err(MalformedSendPropDefinitionError::InvalidPropType)
        } else {
            match raw.prop_type {
                SendPropType::Int => if raw.flags.contains(SendPropFlag::NormalVarInt) {
                    Ok(
                        SendPropParseDefinition::NormalVarInt {
                            changes_often,
                            unsigned: raw.flags.contains(SendPropFlag::Unsigned),
                        },
                    )
                } else if raw.flags.contains(SendPropFlag::Unsigned) {
                    Ok(
                        SendPropParseDefinition::UnsignedInt {
                            changes_often,
                            bit_count: Self::int_bit_count(raw.bit_count),
                        },
                    )
                } else {
                    Ok(
                        SendPropParseDefinition::Int {
                            changes_often,
                            bit_count: Self::int_bit_count(raw.bit_count),
                        },
                    )
                },
                SendPropType::Float => match float {
                    Ok(definition) => Ok(SendPropParseDefinition::Float { changes_often, definition }),
                    Err(error) => Err(error),
                },
                SendPropType::String => Ok(SendPropParseDefinition::String { changes_often }),
                SendPropType::Vector => match float {
                    Ok(definition) => Ok(SendPropParseDefinition::Vector { changes_often, definition }),
                    Err(error) => Err(error),
                },
                SendPropType::VectorXY => match float {
                    Ok(definition) => Ok(
                        SendPropParseDefinition::VectorXY { changes_often, definition },
                    ),
                    Err(error) => Err(error),
                },
                SendPropType::Array => match (raw.element_count, raw.array_property) {
                    (None, _) => Err(MalformedSendPropDefinitionError::UnsizedArray),
                    (Some(_), None) => Err(MalformedSendPropDefinitionError::UntypedArray),
                    (Some(element_count), Some(inner)) => match Self::refine(*inner) {
                        Ok(inner_definition) => Ok(
                            SendPropParseDefinition::Array {
                                changes_often,
                                inner_definition: Box::new(inner_definition),
                                count_bit_count: Self::count_bits(element_count),
                            },
                        ),
                        Err(error) => Err(error),
                    },
                },
                SendPropType::DataTable => Err(MalformedSendPropDefinitionError::InvalidPropType),
                SendPropType::NumSendPropTypes => Err(
                    MalformedSendPropDefinitionError::InvalidPropType,
                ),
            }
        }
    }
}

impl TryFrom<&RawSendPropDefinition> for SendPropParseDefinition {
    type Error = MalformedSendPropDefinitionError;

    /// The recipe that a record gives, or why it gives none: see
    /// [`SendPropParseDefinition::refine`].
    fn try_from(definition: &RawSendPropDefinition) -> (result: Result<
        SendPropParseDefinition,
        MalformedSendPropDefinitionError,
    >)
        ensures
            result == Self::refine(definition@),
        decreases definition,
    {
        let changes_often = definition.flags.contains(SendPropFlag::ChangesOften);
        if definition.flags.contains(SendPropFlag::Exclude) {
            return Err(MalformedSendPropDefinitionError::InvalidPropType);
        }
        match definition.prop_type {
            SendPropType::Int => {
                let bit_count: u8 = match definition.bit_count {
                    Some(count) => (count % 256) as u8,
                    None => 32,
                };
                if definition.flags.contains(SendPropFlag::NormalVarInt) {
                    Ok(
                        SendPropParseDefinition::NormalVarInt {
                            changes_often,
                            unsigned: definition.flags.contains(SendPropFlag::Unsigned),
                        },
                    )
                } else if definition.flags.contains(SendPropFlag::Unsigned) {
                    Ok(SendPropParseDefinition::UnsignedInt { changes_often, bit_count })
                } else {
                    Ok(SendPropParseDefinition::Int { changes_often, bit_count })
                }
            },
            SendPropType::Float => {
                let float = FloatDefinition::new(
                    definition.flags,
                    definition.bit_count,
                    definition.high_value,
                    definition.low_value,
                )?;
                Ok(SendPropParseDefinition::Float { changes_often, definition: float })
            },
            SendPropType::String => Ok(SendPropParseDefinition::String { changes_often }),
            SendPropType::Vector => {
                let float = FloatDefinition::new(
                    definition.flags,
                    definition.bit_count,
                    definition.high_value,
                    definition.low_value,
                )?;
                Ok(SendPropParseDefinition::Vector { changes_often, definition: float })
            },
            SendPropType::VectorXY => {
                let float = FloatDefinition::new(
                    definition.flags,
                    definition.bit_count,
                    definition.high_value,
                    definition.low_value,
                )?;
                Ok(SendPropParseDefinition::VectorXY { changes_often, definition: float })
            },
            SendPropType::Array => {
                let element_count = match definition.element_count {
                    Some(element_count) => element_count,
                    None => {
                        return Err(MalformedSendPropDefinitionError::UnsizedArray);
                    },
                };
                let count_bit_count = (log_base2(element_count) + 1) as u16;
                let child_definition = match &definition.array_property {
                    Some(child) => &**child,
                    None => {
                        return Err(MalformedSendPropDefinitionError::UntypedArray);
                    },
                };
                let inner_definition = SendPropParseDefinition::try_from(child_definition)?;
                Ok(
                    SendPropParseDefinition::Array {
                        changes_often,
                        inner_definition: Box::new(inner_definition),
                        count_bit_count,
                    },
                )
            },
            _ => Err(MalformedSendPropDefinitionError::InvalidPropType),
        }
    }
}

impl vstd::std_specs::convert::TryFromSpecImpl<&RawSendPropDefinition> for SendPropParseDefinition {
    open spec fn obeys_try_from_spec() -> bool {
        true
    }

    open spec fn try_from_spec(definition: &RawSendPropDefinition) -> Result<
        SendPropParseDefinition,
        MalformedSendPropDefinitionError,
    > {
        Self::refine(definition@)
    }
}

/// A property that can be decoded: its key and its recipe.
#[derive(Debug, PartialEq, Eq)]
pub struct SendPropDefinition {
    pub identifier: SendPropIdentifier,
    pub parse_definition: SendPropParseDefinition,
}

impl Clone for SendPropDefinition {
    fn clone(&self) -> (copy: SendPropDefinition)
        ensures
            copy == *self,
    {
        SendPropDefinition {
            identifier: self.identifier,
            parse_definition: self.parse_definition.clone(),
        }
    }
}

impl SendPropDefinition {
    /// The key and the recipe that a record gives, or why it gives no recipe.
    pub open spec fn refine(definition: RawSendPropDefinition) -> Result<
        SendPropDefinition,
        MalformedSendPropDefinitionError,
    > {
        match SendPropParseDefinition::refine(definition@) {
            Ok(parse_definition) => Ok(
                SendPropDefinition {
                    identifier: SendPropIdentifier(
                        SendPropIdentifier::of_names(definition@.owner_table, definition@.name),
                    ),
                    parse_definition,
                },
            ),
            Err(error) => Err(error),
        }
    }
}

impl TryFrom<&RawSendPropDefinition> for SendPropDefinition {
    type Error = MalformedSendPropDefinitionError;

    /// The key and the recipe that a record gives, or why it gives no recipe:
    /// see [`SendPropDefinition::refine`].
    fn try_from(definition: &RawSendPropDefinition) -> (result: Result<
        SendPropDefinition,
        MalformedSendPropDefinitionError,
    >)
        ensures
            result == Self::refine(*definition),
    {
        let parse_definition = SendPropParseDefinition::try_from(definition)?;
        Ok(SendPropDefinition { parse_definition, identifier: definition.identifier() })
    }
}

impl vstd::std_specs::convert::TryFromSpecImpl<&RawSendPropDefinition> for SendPropDefinition {
    open spec fn obeys_try_from_spec() -> bool {
        true
    }

    open spec fn try_from_spec(definition: &RawSendPropDefinition) -> Result<
        SendPropDefinition,
        MalformedSendPropDefinitionError,
    > {
        Self::refine(*definition)
    }
}

} // verus!

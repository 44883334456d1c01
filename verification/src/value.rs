//! The values of properties, and their decoding.

use crate::codec::{
    read_bit_coord, read_bit_coord_mp, read_bit_normal, read_var_int, take_bit_coord,
    take_bit_coord_mp, take_bit_normal, take_var_int,
};
use crate::float::{FloatBits, FloatValue};
use crate::identifier::SendPropIdentifier;
use crate::refine::{FloatDefinition, MalformedSendPropDefinitionError, SendPropParseDefinition};
use crate::stream::{
    after, take_signed, take_sized_text, take_unsigned, ReadError, Stream, Taken,
};
use vstd::arithmetic::power2::lemma2_to64;
use vstd::prelude::*;

verus! {

/// Why a value could not be decoded.
#[derive(Clone, Copy, Debug, PartialEq, Eq, Structural)]
pub enum ParseError {
    /// The stream gave out, or a read was refused.
    ReadError(ReadError),
    /// The record of the property gives no recipe.
    MalformedSendPropDefinition(MalformedSendPropDefinitionError),
}

/// A vector of three numbers.
#[derive(Clone, Copy, Debug, PartialEq, Eq, Structural)]
pub struct Vector {
    pub x: FloatValue,
    pub y: FloatValue,
    pub z: FloatValue,
}

/// A vector of two numbers.
#[derive(Clone, Copy, Debug, PartialEq, Eq, Structural)]
pub struct VectorXY {
    pub x: FloatValue,
    pub y: FloatValue,
}

/// The value of a property.
///
/// `==` compares what two values hold, number by number as they were
/// decoded. The lenient comparison, which takes a number for equal to one
/// that is close to it, is [`SendPropValue::lenient_checks`].
#[derive(Debug, PartialEq, Eq)]
pub enum SendPropValue {
    Vector(Vector),
    VectorXY(VectorXY),
    Integer(i64),
    Float(FloatValue),
    String(String),
    Array(Vec<SendPropValue>),
}

/// What a [`SendPropValue`] holds.
#[verifier::ext_equal]
pub enum ValueModel {
    Vector(Vector),
    VectorXY(VectorXY),
    Integer(i64),
    Float(FloatValue),
    String(Seq<char>),
    Array(Seq<ValueModel>),
}

impl SendPropValue {
    /// What the value holds.
    pub open spec fn model(self) -> ValueModel
        decreases self,
    {
        match self {
            SendPropValue::Vector(vector) => ValueModel::Vector(vector),
            SendPropValue::VectorXY(vector) => ValueModel::VectorXY(vector),
            SendPropValue::Integer(number) => ValueModel::Integer(number),
            SendPropValue::Float(number) => ValueModel::Float(number),
            SendPropValue::String(text) => ValueModel::String(text@),
            SendPropValue::Array(items) => ValueModel::Array(
                Seq::new(
                    items@.len(),
                    |index: int|
                        if 0 <= index < items@.len() {
                            items@[index].model()
                        } else {
                            ValueModel::Integer(0)
                        },
                ),
            ),
        }
    }
}

impl View for SendPropValue {
    type V = ValueModel;

    open spec fn view(&self) -> ValueModel {
        self.model()
    }
}

impl Clone for SendPropValue {
    #[verifier::loop_isolation(false)]
    fn clone(&self) -> (copy: SendPropValue)
        ensures
            copy@ == self@,
        decreases self,
    {
        match self {
            SendPropValue::Vector(vector) => SendPropValue::Vector(*vector),
            SendPropValue::VectorXY(vector) => SendPropValue::VectorXY(*vector),
            SendPropValue::Integer(number) => SendPropValue::Integer(*number),
            SendPropValue::Float(number) => SendPropValue::Float(*number),
            SendPropValue::String(text) => SendPropValue::String(text.clone()),
            SendPropValue::Array(items) => {
                let mut copies: Vec<SendPropValue> = Vec::with_capacity(items.len());
                let mut index: usize = 0;
                while index < items.len()
                    invariant
                        index <= items@.len(),
                        copies@.len() == index,
                        forall|at: int| 0 <= at < index ==> copies@[at]@ == items@[at]@,
                    decreases items@.len() - index,
                {
                    copies.push(items[index].clone());
                    index = index + 1;
                }
                let copy = SendPropValue::Array(copies);
                assert(copy@->Array_0 =~= self@->Array_0);
                copy
            },
        }
    }
}

/// What each of a run of values holds.
pub open spec fn models(items: Seq<SendPropValue>) -> Seq<ValueModel> {
    Seq::new(items.len(), |index: int| items[index]@)
}

/// Takes a number that is sent as `definition` says.
pub open spec fn take_float(bits: Seq<bool>, definition: FloatDefinition) -> Taken<FloatValue> {
    match definition {
        FloatDefinition::Coord => take_bit_coord(bits),
        FloatDefinition::CoordMP => take_bit_coord_mp(bits, false, false),
        FloatDefinition::CoordMPLowPrecision => take_bit_coord_mp(bits, false, true),
        FloatDefinition::CoordMPIntegral => take_bit_coord_mp(bits, true, false),
        FloatDefinition::FloatNoScale => {
            let pattern = take_unsigned(bits, 32, 32);
            after(
                pattern,
                (Ok(FloatValue::Exact(FloatBits { bits: pattern.0.unwrap() as u32 })), pattern.1),
            )
        },
        FloatDefinition::NormalVarFloat => take_bit_normal(bits),
        FloatDefinition::Scaled { bit_count, high, low } => {
            let raw = take_unsigned(bits, bit_count as nat, 32);
            after(
                raw,
                (
                    Ok(FloatValue::Scaled { raw: raw.0.unwrap() as u32, bit_count, low, high }),
                    raw.1,
                ),
            )
        },
    }
}

/// Takes the value of a property whose recipe is `definition`.
pub open spec fn take_value(bits: Seq<bool>, definition: SendPropParseDefinition) -> Taken<
    ValueModel,
>
    decreases definition, 0nat,
{
    match definition {
        SendPropParseDefinition::NormalVarInt { unsigned, .. } => {
            let number = take_var_int(bits, !unsigned);
            after(number, (Ok(ValueModel::Integer(number.0.unwrap() as i64)), number.1))
        },
        SendPropParseDefinition::UnsignedInt { bit_count, .. } => {
            let number = take_unsigned(bits, bit_count as nat, 32);
            after(number, (Ok(ValueModel::Integer(number.0.unwrap() as i64)), number.1))
        },
        SendPropParseDefinition::Int { bit_count, .. } => {
            let number = take_signed(bits, bit_count as nat, 32);
            after(number, (Ok(ValueModel::Integer(number.0.unwrap() as i64)), number.1))
        },
        SendPropParseDefinition::Float { definition, .. } => {
            let number = take_float(bits, definition);
            after(number, (Ok(ValueModel::Float(number.0.unwrap())), number.1))
        },
        SendPropParseDefinition::String { .. } => {
            let length = take_unsigned(bits, 9, 32);
            let text = take_sized_text(length.1, length.0.unwrap());
            after(length, after(text, (Ok(ValueModel::String(text.0.unwrap())), text.1)))
        },
        SendPropParseDefinition::Vector { definition, .. } => {
            let x = take_float(bits, definition);
            let y = take_float(x.1, definition);
            let z = take_float(y.1, definition);
            after(
                x,
                after(
                    y,
                    after(
                        z,
                        (
                            Ok(
                                ValueModel::Vector(
                                    Vector { x: x.0.unwrap(), y: y.0.unwrap(), z: z.0.unwrap() },
                                ),
                            ),
                            z.1,
                        ),
                    ),
                ),
            )
        },
        SendPropParseDefinition::VectorXY { definition, .. } => {
            let x = take_float(bits, definition);
            let y = take_float(x.1, definition);
            after(
                x,
                after(y, (Ok(ValueModel::VectorXY(VectorXY { x: x.0.unwrap(), y: y.0.unwrap() })), y.1)),
            )
        },
        SendPropParseDefinition::Array { inner_definition, count_bit_count, .. } => {
            let count = take_unsigned(bits, count_bit_count as nat, usize::BITS as nat);
            let items = take_values(count.1, *inner_definition, count.0.unwrap());
            after(count, after(items, (Ok(ValueModel::Array(items.0.unwrap())), items.1)))
        },
    }
}

/// Takes `count` values one after the other, each with the recipe
/// `definition`.
pub open spec fn take_values(bits: Seq<bool>, definition: SendPropParseDefinition, count: nat) -> Taken<
    Seq<ValueModel>,
>
    decreases definition, count,
{
    if count == 0 {
        (Ok(Seq::empty()), bits)
    } else {
        let first = take_value(bits, definition);
        let others = take_values(first.1, definition, (count - 1) as nat);
        after(first, after(others, (Ok(seq![first.0.unwrap()] + others.0.unwrap()), others.1)))
    }
}

/// The values read so far, `front`, followed by those still to come.
pub open spec fn values_joined(front: Seq<ValueModel>, back: Taken<Seq<ValueModel>>) -> Taken<
    Seq<ValueModel>,
> {
    match back.0 {
        Ok(items) => (Ok(front + items), back.1),
        Err(error) => (Err(error), back.1),
    }
}

/// A value as it is decoded, with the error of the stream laid bare.
pub open spec fn parsed(result: Result<SendPropValue, ParseError>) -> Result<
    ValueModel,
    ReadError,
> {
    match result {
        Ok(value) => Ok(value@),
        Err(ParseError::ReadError(error)) => Err(error),
        Err(ParseError::MalformedSendPropDefinition(_)) => arbitrary(),
    }
}

impl SendPropValue {
    /// Reads a number that is sent as `definition` says.
    pub fn read_float(stream: &mut Stream, definition: &FloatDefinition) -> (result: Result<
        FloatValue,
        ReadError,
    >)
        ensures
            (result, final(stream)@) == take_float(old(stream)@, *definition),
    {
        match definition {
            FloatDefinition::Coord => read_bit_coord(stream),
            FloatDefinition::CoordMP => read_bit_coord_mp(stream, false, false),
            FloatDefinition::CoordMPLowPrecision => read_bit_coord_mp(stream, false, true),
            FloatDefinition::CoordMPIntegral => read_bit_coord_mp(stream, true, false),
            FloatDefinition::FloatNoScale => {
                let bits = stream.read_int(32)?;
                Ok(FloatValue::Exact(FloatBits { bits }))
            },
            FloatDefinition::NormalVarFloat => read_bit_normal(stream),
            FloatDefinition::Scaled { bit_count, low, high } => {
                let raw = stream.read_int(*bit_count as usize)?;
                Ok(FloatValue::Scaled { raw, bit_count: *bit_count, low: *low, high: *high })
            },
        }
    }

    /// Reads the value of a property whose recipe is `definition`.
    ///
    /// A failure is always one of the stream, and the cursor then stands
    /// where the read that failed left it.
    #[verifier::loop_isolation(false)]
    pub fn parse(stream: &mut Stream, definition: &SendPropParseDefinition) -> (result: Result<
        SendPropValue,
        ParseError,
    >)
        ensures
            result matches Err(error) ==> error is ReadError,
            (parsed(result), final(stream)@) == take_value(old(stream)@, *definition),
        decreases definition,
    {
        match definition {
            SendPropParseDefinition::NormalVarInt { unsigned, .. } => {
                match read_var_int(stream, !*unsigned) {
                    Ok(number) => Ok(SendPropValue::Integer(number as i64)),
                    Err(error) => Err(ParseError::ReadError(error)),
                }
            },
            SendPropParseDefinition::UnsignedInt { bit_count, .. } => {
                match stream.read_int(*bit_count as usize) {
                    Ok(number) => Ok(SendPropValue::Integer(number as i64)),
                    Err(error) => Err(ParseError::ReadError(error)),
                }
            },
            SendPropParseDefinition::Int { bit_count, .. } => {
                match stream.read_signed_int(*bit_count as usize) {
                    Ok(number) => Ok(SendPropValue::Integer(number as i64)),
                    Err(error) => Err(ParseError::ReadError(error)),
                }
            },
            SendPropParseDefinition::Float { definition: float_definition, .. } => {
                match Self::read_float(stream, float_definition) {
                    Ok(number) => Ok(SendPropValue::Float(number)),
                    Err(error) => Err(ParseError::ReadError(error)),
                }
            },
            SendPropParseDefinition::String { .. } => {
                proof {
                    lemma2_to64();
                    crate::bits::lemma_bits_value_bound(stream@.take(9));
                }
                let length = match stream.read_int(9) {
                    Ok(length) => length,
                    Err(error) => {
                        return Err(ParseError::ReadError(error));
                    },
                };
                match stream.read_sized_string(length as usize) {
                    Ok(text) => Ok(SendPropValue::String(text)),
                    Err(error) => Err(ParseError::ReadError(error)),
                }
            },
            SendPropParseDefinition::Vector { definition: float_definition, .. } => {
                let x = match Self::read_float(stream, float_definition) {
                    Ok(number) => number,
                    Err(error) => {
                        return Err(ParseError::ReadError(error));
                    },
                };
                let y = match Self::read_float(stream, float_definition) {
                    Ok(number) => number,
                    Err(error) => {
                        return Err(ParseError::ReadError(error));
                    },
                };
                let z = match Self::read_float(stream, float_definition) {
                    Ok(number) => number,
                    Err(error) => {
                        return Err(ParseError::ReadError(error));
                    },
                };
                Ok(SendPropValue::Vector(Vector { x, y, z }))
            },
            SendPropParseDefinition::VectorXY { definition: float_definition, .. } => {
                let x = match Self::read_float(stream, float_definition) {
                    Ok(number) => number,
                    Err(error) => {
                        return Err(ParseError::ReadError(error));
                    },
                };
                let y = match Self::read_float(stream, float_definition) {
                    Ok(number) => number,
                    Err(error) => {
                        return Err(ParseError::ReadError(error));
                    },
                };
                Ok(SendPropValue::VectorXY(VectorXY { x, y }))
            },
            SendPropParseDefinition::Array { count_bit_count, inner_definition, .. } => {
                let count = match stream.read_size(*count_bit_count as usize) {
                    Ok(count) => count,
                    Err(error) => {
                        return Err(ParseError::ReadError(error));
                    },
                };
                let ghost start = stream@;
                let capacity: usize = if count < 128 {
                    count
                } else {
                    128
                };
                let mut values: Vec<SendPropValue> = Vec::with_capacity(capacity);
                let mut index: usize = 0;
                proof {
                    assert(models(values@) =~= Seq::<ValueModel>::empty());
                    lemma_values_joined_empty(take_values(start, **inner_definition, count as nat));
                }
                while index < count
                    invariant
                        index <= count,
                        values@.len() == index,
                        take_values(start, **inner_definition, count as nat) == values_joined(
                            models(values@),
                            take_values(stream@, **inner_definition, (count - index) as nat),
                        ),
                    decreases count - index,
                {
                    let ghost front = models(values@);
                    let value = match Self::parse(stream, inner_definition) {
                        Ok(value) => value,
                        Err(error) => {
                            return Err(error);
                        },
                    };
                    proof {
                        let others = take_values(
                            stream@,
                            **inner_definition,
                            (count - index - 1) as nat,
                        );
                        assert(models(values@.push(value)) =~= front.push(value@));
                        if let Ok(items) = others.0 {
                            assert(front + (seq![value@] + items) =~= front.push(value@) + items);
                        }
                    }
                    values.push(value);
                    index = index + 1;
                }
                proof {
                    assert(models(values@) + Seq::<ValueModel>::empty() =~= models(values@));
                    let array = SendPropValue::Array(values);
                    assert(array@ == ValueModel::Array(models(values@))) by {
                        assert(array@->Array_0 =~= models(values@));
                    }
                }
                Ok(SendPropValue::Array(values))
            },
        }
    }
}

/// With nothing read so far, what is still to come is the whole.
pub proof fn lemma_values_joined_empty(back: Taken<Seq<ValueModel>>)
    ensures
        values_joined(Seq::empty(), back) == back,
{
    if let Ok(items) = back.0 {
        assert(Seq::<ValueModel>::empty() + items =~= items);
    }
}

/// A decoded property: its key and its value.
#[derive(Debug, PartialEq, Eq)]
pub struct SendProp {
    pub index: SendPropIdentifier,
    pub value: SendPropValue,
}

impl Clone for SendProp {
    fn clone(&self) -> (copy: SendProp)
        ensures
            copy.index == self.index,
            copy.value@ == self.value@,
    {
        SendProp { index: self.index, value: self.value.clone() }
    }
}

impl From<ReadError> for ParseError {
    fn from(error: ReadError) -> (wrapped: ParseError)
        ensures
            wrapped == ParseError::ReadError(error),
    {
        ParseError::ReadError(error)
    }
}

impl vstd::std_specs::convert::FromSpecImpl<ReadError> for ParseError {
    open spec fn obeys_from_spec() -> bool {
        true
    }

    open spec fn from_spec(error: ReadError) -> ParseError {
        ParseError::ReadError(error)
    }
}

impl From<MalformedSendPropDefinitionError> for ParseError {
    fn from(error: MalformedSendPropDefinitionError) -> (wrapped: ParseError)
        ensures
            wrapped == ParseError::MalformedSendPropDefinition(error),
    {
        ParseError::MalformedSendPropDefinition(error)
    }
}

impl vstd::std_specs::convert::FromSpecImpl<MalformedSendPropDefinitionError> for ParseError {
    open spec fn obeys_from_spec() -> bool {
        true
    }

    open spec fn from_spec(error: MalformedSendPropDefinitionError) -> ParseError {
        ParseError::MalformedSendPropDefinition(error)
    }
}

impl From<i32> for SendPropValue {
    fn from(value: i32) -> (wrapped: SendPropValue)
        ensures
            wrapped == SendPropValue::Integer(value as i64),
    {
        SendPropValue::Integer(value as i64)
    }
}

impl vstd::std_specs::convert::FromSpecImpl<i32> for SendPropValue {
    open spec fn obeys_from_spec() -> bool {
        true
    }

    open spec fn from_spec(value: i32) -> SendPropValue {
        SendPropValue::Integer(value as i64)
    }
}

impl From<i64> for SendPropValue {
    fn from(value: i64) -> (wrapped: SendPropValue)
        ensures
            wrapped == SendPropValue::Integer(value),
    {
        SendPropValue::Integer(value)
    }
}

impl vstd::std_specs::convert::FromSpecImpl<i64> for SendPropValue {
    open spec fn obeys_from_spec() -> bool {
        true
    }

    open spec fn from_spec(value: i64) -> SendPropValue {
        SendPropValue::Integer(value)
    }
}

impl From<Vector> for SendPropValue {
    fn from(value: Vector) -> (wrapped: SendPropValue)
        ensures
            wrapped == SendPropValue::Vector(value),
    {
        SendPropValue::Vector(value)
    }
}

impl vstd::std_specs::convert::FromSpecImpl<Vector> for SendPropValue {
    open spec fn obeys_from_spec() -> bool {
        true
    }

    open spec fn from_spec(value: Vector) -> SendPropValue {
        SendPropValue::Vector(value)
    }
}

impl From<VectorXY> for SendPropValue {
    fn from(value: VectorXY) -> (wrapped: SendPropValue)
        ensures
            wrapped == SendPropValue::VectorXY(value),
    {
        SendPropValue::VectorXY(value)
    }
}

impl vstd::std_specs::convert::FromSpecImpl<VectorXY> for SendPropValue {
    open spec fn obeys_from_spec() -> bool {
        true
    }

    open spec fn from_spec(value: VectorXY) -> SendPropValue {
        SendPropValue::VectorXY(value)
    }
}

impl From<FloatValue> for SendPropValue {
    fn from(value: FloatValue) -> (wrapped: SendPropValue)
        ensures
            wrapped == SendPropValue::Float(value),
    {
        SendPropValue::Float(value)
    }
}

impl vstd::std_specs::convert::FromSpecImpl<FloatValue> for SendPropValue {
    open spec fn obeys_from_spec() -> bool {
        true
    }

    open spec fn from_spec(value: FloatValue) -> SendPropValue {
        SendPropValue::Float(value)
    }
}

impl From<String> for SendPropValue {
    fn from(value: String) -> (wrapped: SendPropValue)
        ensures
            wrapped == SendPropValue::String(value),
    {
        SendPropValue::String(value)
    }
}

impl vstd::std_specs::convert::FromSpecImpl<String> for SendPropValue {
    open spec fn obeys_from_spec() -> bool {
        true
    }

    open spec fn from_spec(value: String) -> SendPropValue {
        SendPropValue::String(value)
    }
}

impl From<Vec<SendPropValue>> for SendPropValue {
    fn from(value: Vec<SendPropValue>) -> (wrapped: SendPropValue)
        ensures
            wrapped == SendPropValue::Array(value),
    {
        SendPropValue::Array(value)
    }
}

impl vstd::std_specs::convert::FromSpecImpl<Vec<SendPropValue>> for SendPropValue {
    open spec fn obeys_from_spec() -> bool {
        true
    }

    open spec fn from_spec(value: Vec<SendPropValue>) -> SendPropValue {
        SendPropValue::Array(value)
    }
}

impl TryFrom<&SendPropValue> for i64 {
    type Error = ();

    /// The integer that the value is, if it is one.
    fn try_from(value: &SendPropValue) -> (result: Result<i64, ()>)
        ensures
            result == match *value {
                SendPropValue::Integer(inner) => Ok::<i64, ()>(inner),
                _ => Err(()),
            },
    {
        match value {
            SendPropValue::Integer(inner) => Ok(*inner),
            _ => Err(()),
        }
    }
}

impl vstd::std_specs::convert::TryFromSpecImpl<&SendPropValue> for i64 {
    open spec fn obeys_try_from_spec() -> bool {
        true
    }

    open spec fn try_from_spec(value: &SendPropValue) -> Result<i64, ()> {
        match *value {
            SendPropValue::Integer(inner) => Ok(inner),
            _ => Err(()),
        }
    }
}

impl TryFrom<&SendPropValue> for Vector {
    type Error = ();

    /// The vector of three that the value is, if it is one.
    fn try_from(value: &SendPropValue) -> (result: Result<Vector, ()>)
        ensures
            result == match *value {
                SendPropValue::Vector(inner) => Ok::<Vector, ()>(inner),
                _ => Err(()),
            },
    {
        match value {
            SendPropValue::Vector(inner) => Ok(*inner),
            _ => Err(()),
        }
    }
}

impl vstd::std_specs::convert::TryFromSpecImpl<&SendPropValue> for Vector {
    open spec fn obeys_try_from_spec() -> bool {
        true
    }

    open spec fn try_from_spec(value: &SendPropValue) -> Result<Vector, ()> {
        match *value {
            SendPropValue::Vector(inner) => Ok(inner),
            _ => Err(()),
        }
    }
}

impl TryFrom<&SendPropValue> for VectorXY {
    type Error = ();

    /// The vector of two that the value is, if it is one.
    fn try_from(value: &SendPropValue) -> (result: Result<VectorXY, ()>)
        ensures
            result == match *value {
                SendPropValue::VectorXY(inner) => Ok::<VectorXY, ()>(inner),
                _ => Err(()),
            },
    {
        match value {
            SendPropValue::VectorXY(inner) => Ok(*inner),
            _ => Err(()),
        }
    }
}

impl vstd::std_specs::convert::TryFromSpecImpl<&SendPropValue> for VectorXY {
    open spec fn obeys_try_from_spec() -> bool {
        true
    }

    open spec fn try_from_spec(value: &SendPropValue) -> Result<VectorXY, ()> {
        match *value {
            SendPropValue::VectorXY(inner) => Ok(inner),
            _ => Err(()),
        }
    }
}

impl TryFrom<&SendPropValue> for FloatValue {
    type Error = ();

    /// The number that the value is, if it is one that is no integer.
    fn try_from(value: &SendPropValue) -> (result: Result<FloatValue, ()>)
        ensures
            result == match *value {
                SendPropValue::Float(inner) => Ok::<FloatValue, ()>(inner),
                _ => Err(()),
            },
    {
        match value {
            SendPropValue::Float(inner) => Ok(*inner),
            _ => Err(()),
        }
    }
}

impl vstd::std_specs::convert::TryFromSpecImpl<&SendPropValue> for FloatValue {
    open spec fn obeys_try_from_spec() -> bool {
        true
    }

    open spec fn try_from_spec(value: &SendPropValue) -> Result<FloatValue, ()> {
        match *value {
            SendPropValue::Float(inner) => Ok(inner),
            _ => Err(()),
        }
    }
}

impl SendPropValue {
    /// The text that the value is, if it is text.
    pub fn as_str(&self) -> (text: Option<&str>)
        ensures
            match text {
                Some(text) => self@ == ValueModel::String(text@),
                None => !(*self is String),
            },
    {
        match self {
            SendPropValue::String(text) => Some(text.as_str()),
            _ => None,
        }
    }

    /// The elements of the array that the value is, if it is one.
    pub fn as_slice(&self) -> (items: Option<&[SendPropValue]>)
        ensures
            match items {
                Some(items) => *self is Array && self->Array_0@ == items@,
                None => !(*self is Array),
            },
    {
        match self {
            SendPropValue::Array(items) => Some(items.as_slice()),
            _ => None,
        }
    }
}

impl<'a> TryFrom<&'a SendPropValue> for &'a str {
    type Error = ();

    /// The text that the value is, if it is text: see [`SendPropValue::as_str`].
    fn try_from(value: &'a SendPropValue) -> (result: Result<&'a str, ()>)
        ensures
            match result {
                Ok(text) => value@ == ValueModel::String(text@),
                Err(_) => !(*value is String),
            },
    {
        match value.as_str() {
            Some(text) => Ok(text),
            None => Err(()),
        }
    }
}

impl<'a> vstd::std_specs::convert::TryFromSpecImpl<&'a SendPropValue> for &'a str {
    open spec fn obeys_try_from_spec() -> bool {
        false
    }

    open spec fn try_from_spec(value: &'a SendPropValue) -> Result<&'a str, ()> {
        Err(())
    }
}

impl<'a> TryFrom<&'a SendPropValue> for &'a [SendPropValue] {
    type Error = ();

    /// The elements of the array that the value is, if it is one: see
    /// [`SendPropValue::as_slice`].
    fn try_from(value: &'a SendPropValue) -> (result: Result<&'a [SendPropValue], ()>)
        ensures
            match result {
                Ok(items) => *value is Array && value->Array_0@ == items@,
                Err(_) => !(*value is Array),
            },
    {
        match value.as_slice() {
            Some(items) => Ok(items),
            None => Err(()),
        }
    }
}

impl<'a> vstd::std_specs::convert::TryFromSpecImpl<&'a SendPropValue> for &'a [SendPropValue] {
    open spec fn obeys_try_from_spec() -> bool {
        false
    }

    open spec fn try_from_spec(value: &'a SendPropValue) -> Result<&'a [SendPropValue], ()> {
        Err(())
    }
}

} // verus!

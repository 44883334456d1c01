//! The record that a send table holds of each of its properties.

use crate::flags::{SendPropFlag, SendPropFlags, SendPropType};
use crate::float::FloatBits;
use crate::identifier::SendPropIdentifier;
use crate::stream::{after, take_text, take_unsigned, ReadError, Stream, Taken};
use std::rc::Rc;
use vstd::arithmetic::power2::lemma2_to64;
use vstd::prelude::*;

verus! {

/// The name of a property. Equal names may share their storage.
#[derive(PartialEq, Eq, Hash, Debug, Ord, PartialOrd)]
pub struct SendPropName(Rc<String>);

/// `Rc::clone`: another pointer to the same text.
#[verifier::external_body]
fn share(text: &Rc<String>) -> (shared: Rc<String>)
    ensures
        shared == *text,
{
    Rc::clone(text)
}

impl Clone for SendPropName {
    fn clone(&self) -> (name: SendPropName)
        ensures
            name == *self,
    {
        SendPropName(share(&self.0))
    }
}

impl View for SendPropName {
    type V = Seq<char>;

    closed spec fn view(&self) -> Seq<char> {
        self.0@
    }
}

impl SendPropName {
    /// The name as text.
    pub fn as_str(&self) -> (text: &str)
        ensures
            text@ == self@,
    {
        self.0.as_str()
    }
}

impl From<String> for SendPropName {
    fn from(value: String) -> (name: SendPropName)
        ensures
            name@ == value@,
    {
        SendPropName(Rc::new(value))
    }
}

impl vstd::std_specs::convert::FromSpecImpl<String> for SendPropName {
    open spec fn obeys_from_spec() -> bool {
        true
    }

    closed spec fn from_spec(value: String) -> SendPropName {
        SendPropName(Rc::new(value))
    }
}

/// The name of a send table.
#[derive(PartialEq, Eq, Hash, Debug, Ord, PartialOrd)]
pub struct SendTableName(String);

impl Clone for SendTableName {
    fn clone(&self) -> (name: SendTableName)
        ensures
            name == *self,
    {
        SendTableName(self.0.clone())
    }
}

impl View for SendTableName {
    type V = Seq<char>;

    closed spec fn view(&self) -> Seq<char> {
        self.0@
    }
}

impl SendTableName {
    /// The name as text.
    pub fn as_str(&self) -> (text: &str)
        ensures
            text@ == self@,
    {
        self.0.as_str()
    }
}

impl From<String> for SendTableName {
    fn from(value: String) -> (name: SendTableName)
        ensures
            name@ == value@,
    {
        SendTableName(value)
    }
}

impl vstd::std_specs::convert::FromSpecImpl<String> for SendTableName {
    open spec fn obeys_from_spec() -> bool {
        true
    }

    closed spec fn from_spec(value: String) -> SendTableName {
        SendTableName(value)
    }
}

/// The record of a property as a send table holds it.
#[derive(Debug)]
pub struct RawSendPropDefinition {
    pub prop_type: SendPropType,
    pub name: SendPropName,
    /// The table that the record belongs to.
    pub owner_table: SendTableName,
    pub flags: SendPropFlags,
    /// The table that the record points at, where it is a table or names a
    /// property to leave out.
    pub table_name: Option<SendTableName>,
    pub low_value: Option<FloatBits>,
    pub high_value: Option<FloatBits>,
    pub bit_count: Option<u32>,
    /// The greatest number of elements, where the record is an array.
    pub element_count: Option<u16>,
    /// The record of the elements, where the record is an array.
    pub array_property: Option<Box<RawSendPropDefinition>>,
}

/// What a [`RawSendPropDefinition`] holds.
pub struct RawDefinitionModel {
    pub prop_type: SendPropType,
    pub name: Seq<char>,
    pub owner_table: Seq<char>,
    pub flags: Set<SendPropFlag>,
    pub table_name: Option<Seq<char>>,
    pub low_value: Option<FloatBits>,
    pub high_value: Option<FloatBits>,
    pub bit_count: Option<u32>,
    pub element_count: Option<u16>,
    pub array_property: Option<Box<RawDefinitionModel>>,
}

impl RawDefinitionModel {
    /// Whether the record holds what a record of its kind and flags is read
    /// with. A table, and a property to leave out, names a table and has no
    /// range and no number of elements; an array has a number of elements and
    /// no range and no table; every other record has a range and a bit count
    /// and neither of the others. Where nothing is read for the bit count it
    /// is what the kind and the flags make of none.
    pub open spec fn well_formed(self) -> bool {
        if self.flags.contains(SendPropFlag::Exclude) || self.prop_type == SendPropType::DataTable {
            &&& self.table_name is Some
            &&& self.low_value is None
            &&& self.high_value is None
            &&& self.element_count is None
            &&& self.bit_count == RawSendPropDefinition::promoted_bit_count(
                self.prop_type,
                self.flags,
                None,
            )
        } else if self.prop_type == SendPropType::Array {
            &&& self.element_count is Some
            &&& self.table_name is None
            &&& self.low_value is None
            &&& self.high_value is None
            &&& self.bit_count is None
        } else {
            &&& self.low_value is Some
            &&& self.high_value is Some
            &&& self.bit_count is Some
            &&& self.table_name is None
            &&& self.element_count is None
        }
    }

    /// Whether the record, if it is an array, holds the record of its
    /// elements.
    pub open spec fn bound(self) -> bool {
        self.prop_type == SendPropType::Array ==> self.array_property is Some
    }

    /// The record as it stands in its table behind the record `previous`: an
    /// array takes the record before it as the record of its elements.
    pub open spec fn behind(self, previous: RawDefinitionModel) -> RawDefinitionModel {
        if self.prop_type == SendPropType::Array {
            RawDefinitionModel { array_property: Some(Box::new(previous)), ..self }
        } else {
            self
        }
    }
}

/// What each of a run of records holds.
pub open spec fn record_models(records: Seq<RawSendPropDefinition>) -> Seq<RawDefinitionModel> {
    Seq::new(records.len(), |index: int| records[index]@)
}

/// The records of a table, each array bound to the record before it. The
/// first record has none before it and stays as it is.
pub open spec fn bound_records(records: Seq<RawDefinitionModel>) -> Seq<RawDefinitionModel> {
    Seq::new(
        records.len(),
        |index: int|
            if 0 < index < records.len() {
                records[index].behind(records[index - 1])
            } else {
                records[index]
            },
    )
}

/// A name that may be missing, as text.
pub open spec fn table_name_text(name: Option<SendTableName>) -> Option<Seq<char>> {
    match name {
        Some(name) => Some(name@),
        None => None,
    }
}

impl RawSendPropDefinition {
    /// What the record holds.
    pub open spec fn model(self) -> RawDefinitionModel
        decreases self,
    {
        RawDefinitionModel {
            prop_type: self.prop_type,
            name: self.name@,
            owner_table: self.owner_table@,
            flags: self.flags@,
            table_name: table_name_text(self.table_name),
            low_value: self.low_value,
            high_value: self.high_value,
            bit_count: self.bit_count,
            element_count: self.element_count,
            array_property: match self.array_property {
                Some(inner) => Some(Box::new(inner.model())),
                None => None,
            },
        }
    }
}

impl View for RawSendPropDefinition {
    type V = RawDefinitionModel;

    open spec fn view(&self) -> RawDefinitionModel {
        self.model()
    }
}

impl Clone for RawSendPropDefinition {
    fn clone(&self) -> (copy: RawSendPropDefinition)
        ensures
            copy == *self,
        decreases self,
    {
        RawSendPropDefinition {
            prop_type: self.prop_type,
            name: self.name.clone(),
            owner_table: self.owner_table.clone(),
            flags: self.flags,
            table_name: match &self.table_name {
                Some(name) => Some(name.clone()),
                None => None,
            },
            low_value: self.low_value,
            high_value: self.high_value,
            bit_count: self.bit_count,
            element_count: self.element_count,
            array_property: match &self.array_property {
                Some(inner) => Some(Box::new((&**inner).clone())),
                None => None,
            },
        }
    }
}

impl PartialEq for RawSendPropDefinition {
    /// Whether two records are of the same property: whether their keys are
    /// equal.
    fn eq(&self, other: &RawSendPropDefinition) -> (equal: bool) {
        self.identifier() == other.identifier()
    }
}

impl vstd::std_specs::cmp::PartialEqSpecImpl for RawSendPropDefinition {
    open spec fn obeys_eq_spec() -> bool {
        true
    }

    open spec fn eq_spec(&self, other: &RawSendPropDefinition) -> bool {
        SendPropIdentifier::of_names(self@.owner_table, self@.name) == SendPropIdentifier::of_names(
            other@.owner_table,
            other@.name,
        )
    }
}

/// A send table: a name and the records of its properties.
#[derive(Debug)]
pub struct ParseSendTable {
    pub name: SendTableName,
    pub props: Vec<RawSendPropDefinition>,
    pub needs_decoder: bool,
}

/// A record as it is read, with its text as sequences of characters.
pub open spec fn raw_model_of(result: Result<RawSendPropDefinition, ReadError>) -> Result<
    RawDefinitionModel,
    ReadError,
> {
    match result {
        Ok(definition) => Ok(definition@),
        Err(error) => Err(error),
    }
}

impl RawSendPropDefinition {
    /// The bit count of a record once it is read: a number that is sent as it
    /// is has 32 bits, and a vector of such numbers 96, whatever the record
    /// says. NormalVarInt keeps a vector from this.
    pub open spec fn promoted_bit_count(
        prop_type: SendPropType,
        flags: Set<SendPropFlag>,
        bit_count: Option<u32>,
    ) -> Option<u32> {
        if flags.contains(SendPropFlag::NoScale) && prop_type == SendPropType::Float {
            Some(32)
        } else if flags.contains(SendPropFlag::NoScale) && prop_type == SendPropType::Vector
            && !flags.contains(SendPropFlag::NormalVarInt) {
            Some(96)
        } else {
            bit_count
        }
    }

    /// Takes the record of a property of the table `owner_table`: the kind in
    /// five bits, the name up to a zero byte, the flags in sixteen bits, and
    /// then what the kind and the flags ask for. For a table, and for a
    /// property to leave out, that is the name of a table. For an array it is
    /// the number of elements in ten bits. For all others it is the low and
    /// the high end of the range in 32 bits each, and the bit count in seven.
    pub open spec fn take(bits: Seq<bool>, owner_table: Seq<char>) -> Taken<RawDefinitionModel> {
        let prop_type = SendPropType::take(bits);
        let name = take_text(prop_type.1);
        let flags = SendPropFlags::take(name.1);
        let table_name = take_text(flags.1);
        let element_count = take_unsigned(flags.1, 10, 32);
        let low_value = take_unsigned(flags.1, 32, 32);
        let high_value = take_unsigned(low_value.1, 32, 32);
        let bit_count = take_unsigned(high_value.1, 7, 32);
        let common = RawDefinitionModel {
            prop_type: prop_type.0.unwrap(),
            name: name.0.unwrap(),
            owner_table,
            flags: flags.0.unwrap(),
            table_name: None,
            low_value: None,
            high_value: None,
            bit_count: Self::promoted_bit_count(prop_type.0.unwrap(), flags.0.unwrap(), None),
            element_count: None,
            array_property: None,
        };
        after(
            prop_type,
            after(
                name,
                after(
                    flags,
                    if flags.0.unwrap().contains(SendPropFlag::Exclude) || prop_type.0.unwrap()
                        == SendPropType::DataTable {
                        after(
                            table_name,
                            (
                                Ok(
                                    RawDefinitionModel {
                                        table_name: Some(table_name.0.unwrap()),
                                        ..common
                                    },
                                ),
                                table_name.1,
                            ),
                        )
                    } else if prop_type.0.unwrap() == SendPropType::Array {
                        after(
                            element_count,
                            (
                                Ok(
                                    RawDefinitionModel {
                                        element_count: Some(element_count.0.unwrap() as u16),
                                        ..common
                                    },
                                ),
                                element_count.1,
                            ),
                        )
                    } else {
                        after(
                            low_value,
                            after(
                                high_value,
                                after(
                                    bit_count,
                                    (
                                        Ok(
                                            RawDefinitionModel {
                                                low_value: Some(
                                                    FloatBits { bits: low_value.0.unwrap() as u32 },
                                                ),
                                                high_value: Some(
                                                    FloatBits { bits: high_value.0.unwrap() as u32 },
                                                ),
                                                bit_count: Self::promoted_bit_count(
                                                    prop_type.0.unwrap(),
                                                    flags.0.unwrap(),
                                                    Some(bit_count.0.unwrap() as u32),
                                                ),
                                                ..common
                                            },
                                        ),
                                        bit_count.1,
                                    ),
                                ),
                            ),
                        )
                    },
                ),
            ),
        )
    }

    /// Reads the record of a property of the table `owner_table`. The record
    /// of the elements of an array is not part of it: it is bound afterwards,
    /// with `with_array_property`.
    pub fn read(stream: &mut Stream, owner_table: SendTableName) -> (result: Result<
        RawSendPropDefinition,
        ReadError,
    >)
        ensures
            (raw_model_of(result), final(stream)@) == Self::take(old(stream)@, owner_table@),
            result matches Ok(definition) ==> definition@.well_formed()
                && definition@.array_property is None,
    {
        let prop_type = SendPropType::read(stream)?;
        let name = SendPropName::from(stream.read_string()?);
        let flags = SendPropFlags::read(stream)?;
        let mut table_name: Option<SendTableName> = None;
        let mut element_count: Option<u16> = None;
        let mut low_value: Option<FloatBits> = None;
        let mut high_value: Option<FloatBits> = None;
        let mut bit_count: Option<u32> = None;
        proof {
            lemma2_to64();
        }
        let is_table = match prop_type {
            SendPropType::DataTable => true,
            _ => false,
        };
        let is_array = match prop_type {
            SendPropType::Array => true,
            _ => false,
        };
        let is_float = match prop_type {
            SendPropType::Float => true,
            _ => false,
        };
        let is_vector = match prop_type {
            SendPropType::Vector => true,
            _ => false,
        };
        if flags.contains(SendPropFlag::Exclude) || is_table {
            table_name = Some(SendTableName::from(stream.read_string()?));
        } else if is_array {
            proof {
                crate::bits::lemma_bits_value_bound(stream@.take(10));
            }
            element_count = Some(stream.read_int(10)? as u16);
        } else {
            low_value = Some(FloatBits { bits: stream.read_int(32)? });
            high_value = Some(FloatBits { bits: stream.read_int(32)? });
            bit_count = Some(stream.read_int(7)?);
        }
        if flags.contains(SendPropFlag::NoScale) {
            if is_float {
                bit_count = Some(32);
            } else if is_vector && !flags.contains(SendPropFlag::NormalVarInt) {
                bit_count = Some(32 * 3);
            }
        }
        Ok(
            RawSendPropDefinition {
                prop_type,
                name,
                owner_table,
                flags,
                table_name,
                low_value,
                high_value,
                bit_count,
                element_count,
                array_property: None,
            },
        )
    }

    /// The key of the property.
    pub fn identifier(&self) -> (identifier: SendPropIdentifier)
        ensures
            identifier.0 == SendPropIdentifier::of_names(self.owner_table@, self.name@),
    {
        SendPropIdentifier::new(self.owner_table.as_str(), self.name.as_str())
    }

    /// The record with `array_property` as the record of its elements.
    pub fn with_array_property(self, array_property: RawSendPropDefinition) -> (bound:
        RawSendPropDefinition)
        ensures
            bound@ == (RawDefinitionModel {
                array_property: Some(Box::new(array_property@)),
                ..self@
            }),
            bound@.bound(),
            bound@.well_formed() == self@.well_formed(),
    {
        RawSendPropDefinition {
            prop_type: self.prop_type,
            owner_table: self.owner_table,
            name: self.name,
            flags: self.flags,
            table_name: self.table_name,
            low_value: self.low_value,
            high_value: self.high_value,
            bit_count: self.bit_count,
            element_count: self.element_count,
            array_property: Some(Box::new(array_property)),
        }
    }

    /// The records of a table as they were read, each array bound to the
    /// record before it: the record of its elements, which is sent first and
    /// stays in the table.
    pub fn bind_arrays(records: &[RawSendPropDefinition]) -> (bound: Vec<RawSendPropDefinition>)
        ensures
            record_models(bound@) == bound_records(record_models(records@)),
    {
        let mut bound: Vec<RawSendPropDefinition> = Vec::with_capacity(records.len());
        let mut index: usize = 0;
        while index < records.len()
            invariant
                index <= records@.len(),
                bound@.len() == index,
                forall|at: int|
                    0 <= at < index ==> (#[trigger] bound@[at])@ == bound_records(
                        record_models(records@),
                    )[at],
            decreases records@.len() - index,
        {
            let record = records[index].clone();
            let is_array = match record.prop_type {
                SendPropType::Array => true,
                _ => false,
            };
            if is_array && index > 0 {
                bound.push(record.with_array_property(records[index - 1].clone()));
            } else {
                bound.push(record);
            }
            index = index + 1;
        }
        assert(record_models(bound@) =~= bound_records(record_models(records@)));
        bound
    }

    /// Whether the record names a property to leave out.
    pub fn is_exclude(&self) -> (exclude: bool)
        ensures
            exclude == self@.flags.contains(SendPropFlag::Exclude),
    {
        self.flags.contains(SendPropFlag::Exclude)
    }

    /// The table of the property to leave out, where the record names one.
    pub fn get_exclude_table(&self) -> (table: Option<&SendTableName>)
        ensures
            match table {
                Some(name) => self@.flags.contains(SendPropFlag::Exclude) && self.table_name
                    == Some(*name),
                None => !self@.flags.contains(SendPropFlag::Exclude) || self.table_name is None,
            },
    {
        if self.is_exclude() {
            self.table_name.as_ref()
        } else {
            None
        }
    }

    /// The place in `tables` of the table that the record points at: the first
    /// of that name.
    pub open spec fn data_table_index(self, tables: Seq<ParseSendTable>) -> Option<int> {
        if self.prop_type == SendPropType::DataTable && self.table_name is Some {
            Seq::new(tables.len(), |index: int| tables[index].name@).index_of_first(
                self.table_name.unwrap()@,
            )
        } else {
            None
        }
    }

    /// The table that the record points at, where it is a table. This is not
    /// the table that the record belongs to.
    pub fn get_data_table<'a>(&self, tables: &'a [ParseSendTable]) -> (table: Option<
        &'a ParseSendTable,
    >)
        ensures
            match self.data_table_index(tables@) {
                Some(index) => 0 <= index < tables@.len() && table == Some(&tables@[index]),
                None => table is None,
            },
    {
        let ghost names = Seq::new(tables@.len(), |index: int| tables@[index].name@);
        if let SendPropType::DataTable = self.prop_type {
            match &self.table_name {
                Some(name) => {
                    let mut index: usize = 0;
                    while index < tables.len()
                        invariant
                            index <= tables@.len(),
                            self.prop_type == SendPropType::DataTable,
                            self.table_name == Some(*name),
                            names == Seq::new(tables@.len(), |index: int| tables@[index].name@),
                            forall|earlier: int| 0 <= earlier < index ==> names[earlier] != name@,
                        decreases tables@.len() - index,
                    {
                        if tables[index].name.0 == name.0 {
                            proof {
                                names.index_of_first_ensures(name@);
                                assert(names[index as int] == name@);
                            }
                            return Some(&tables[index]);
                        }
                        index = index + 1;
                    }
                    proof {
                        names.index_of_first_ensures(name@);
                    }
                    None
                },
                None => None,
            }
        } else {
            None
        }
    }
}

} // verus!

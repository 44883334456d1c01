use bitbuffer::{BitWriteStream, LittleEndian};
use sendprop::definition::{ParseSendTable, RawSendPropDefinition, SendPropName, SendTableName};
use sendprop::flags::{SendPropFlag, SendPropFlags, SendPropType};
use sendprop::float::FloatBits;
use sendprop::identifier::SendPropIdentifier;
use sendprop::refine::{
    log_base2, FloatDefinition, MalformedSendPropDefinitionError, SendPropDefinition,
    SendPropParseDefinition,
};
use sendprop::stream::{ReadError, Stream};

fn flags_of(flags: &[SendPropFlag]) -> SendPropFlags {
    let mut set = SendPropFlags::empty();
    for flag in flags {
        set = set.with(*flag);
    }
    set
}

fn pattern(number: f32) -> FloatBits {
    FloatBits { bits: number.to_bits() }
}

fn raw(prop_type: SendPropType, flags: &[SendPropFlag]) -> RawSendPropDefinition {
    RawSendPropDefinition {
        prop_type,
        name: SendPropName::from("prop".to_string()),
        owner_table: SendTableName::from("DT_Table".to_string()),
        flags: flags_of(flags),
        table_name: None,
        low_value: None,
        high_value: None,
        bit_count: None,
        element_count: None,
        array_property: None,
    }
}

fn record(
    prop_type: u32,
    name: &str,
    flags: u16,
    tail: &dyn Fn(&mut BitWriteStream<LittleEndian>),
) -> Vec<u8> {
    let mut bytes = Vec::new();
    {
        let mut writer = BitWriteStream::new(&mut bytes, LittleEndian);
        writer.write_int(prop_type, 5).unwrap();
        writer.write_string(name, None).unwrap();
        writer.write_int(flags, 16).unwrap();
        tail(&mut writer);
    }
    bytes
}

#[test]
fn send_prop_name_as_str() {
    let name = SendPropName::from("m_iHealth".to_string());
    assert_eq!(name.as_str(), "m_iHealth");
    assert_eq!(name.clone(), name);
}

#[test]
fn identifier_is_fnv1a_of_both_names() {
    // FNV-1a of "a" and of "foobar", from the reference vectors of the hash
    assert_eq!(SendPropIdentifier::new("a", ""), SendPropIdentifier(0xaf63dc4c8601ec8c));
    assert_eq!(SendPropIdentifier::new("", "a"), SendPropIdentifier(0xaf63dc4c8601ec8c));
    assert_eq!(SendPropIdentifier::new("foo", "bar"), SendPropIdentifier(0x85944171f73967e8));
    assert_eq!(SendPropIdentifier::new("f", "oobar"), SendPropIdentifier(0x85944171f73967e8));
    assert_eq!(SendPropIdentifier::new("", ""), SendPropIdentifier(0xcbf29ce484222325));
}

#[test]
fn identifier_depends_on_the_bytes_only() {
    let table = String::from("DT_Player");
    let prop = String::from("health");
    assert_eq!(
        SendPropIdentifier::new(&table, &prop),
        SendPropIdentifier::new("DT_Player", "health")
    );
    assert_ne!(
        SendPropIdentifier::new("DT_Player", "health"),
        SendPropIdentifier::new("DT_Player", "armor")
    );
}

#[test]
fn identifier_of_a_record() {
    let mut definition = raw(SendPropType::Int, &[]);
    definition.name = SendPropName::from("health".to_string());
    definition.owner_table = SendTableName::from("DT_Player".to_string());
    assert_eq!(definition.identifier(), SendPropIdentifier::new("DT_Player", "health"));
}

#[test]
fn flags_contain_what_was_set() {
    let flags = flags_of(&[SendPropFlag::Unsigned, SendPropFlag::ChangesOften]);
    assert!(flags.contains(SendPropFlag::Unsigned));
    assert!(flags.contains(SendPropFlag::ChangesOften));
    assert!(!flags.contains(SendPropFlag::Coord));
    assert_eq!(flags, SendPropFlags::from_bits(1025));
}

#[test]
fn flag_masks() {
    let all = [
        (SendPropFlag::Unsigned, 1u16),
        (SendPropFlag::Coord, 2),
        (SendPropFlag::NoScale, 4),
        (SendPropFlag::RoundDown, 8),
        (SendPropFlag::RoundUp, 16),
        (SendPropFlag::NormalVarInt, 32),
        (SendPropFlag::Exclude, 64),
        (SendPropFlag::XYZE, 128),
        (SendPropFlag::InsideArray, 256),
        (SendPropFlag::ProxyAlwaysYes, 512),
        (SendPropFlag::ChangesOften, 1024),
        (SendPropFlag::IsVectorElement, 2048),
        (SendPropFlag::Collapsible, 4096),
        (SendPropFlag::CoordMP, 8192),
        (SendPropFlag::CoordMPLowPrecision, 16384),
        (SendPropFlag::CoordMPIntegral, 32768),
    ];
    for (flag, mask) in all {
        assert_eq!(flag.mask(), mask);
        let only = SendPropFlags::from_bits(mask);
        for (other, _) in all {
            assert_eq!(only.contains(other), other == flag);
        }
        assert!(SendPropFlags::from_bits(0xffff).contains(flag));
        assert!(!SendPropFlags::empty().contains(flag));
    }
}

#[test]
fn prop_type_tags() {
    let kinds = [
        SendPropType::Int,
        SendPropType::Float,
        SendPropType::Vector,
        SendPropType::VectorXY,
        SendPropType::String,
        SendPropType::Array,
        SendPropType::DataTable,
        SendPropType::NumSendPropTypes,
    ];
    for (tag, kind) in kinds.iter().enumerate() {
        let bytes = [tag as u8];
        let mut stream = Stream::new(&bytes);
        assert_eq!(SendPropType::read(&mut stream), Ok(*kind));
        assert_eq!(stream.bits_left(), 3);
    }
    for tag in 8u8..32 {
        let bytes = [tag];
        let mut stream = Stream::new(&bytes);
        assert_eq!(
            SendPropType::read(&mut stream),
            Err(ReadError::UnmatchedDiscriminant { discriminant: tag as usize })
        );
        assert_eq!(stream.bits_left(), 3);
    }
}

#[test]
fn float_definition_precedence() {
    let bit_count = Some(8);
    let high = Some(pattern(1.0));
    let low = Some(pattern(-1.0));
    let order = [
        (SendPropFlag::Coord, FloatDefinition::Coord),
        (SendPropFlag::CoordMP, FloatDefinition::CoordMP),
        (SendPropFlag::CoordMPLowPrecision, FloatDefinition::CoordMPLowPrecision),
        (SendPropFlag::CoordMPIntegral, FloatDefinition::CoordMPIntegral),
        (SendPropFlag::NoScale, FloatDefinition::FloatNoScale),
        (SendPropFlag::NormalVarInt, FloatDefinition::NormalVarFloat),
    ];
    for first in 0..order.len() {
        let mut flags = SendPropFlags::empty();
        for (flag, _) in &order[first..] {
            flags = flags.with(*flag);
        }
        assert_eq!(FloatDefinition::new(flags, bit_count, high, low), Ok(order[first].1));
        assert_eq!(FloatDefinition::new(flags, None, None, None), Ok(order[first].1));
    }
}

#[test]
fn float_definition_scaled() {
    let flags = flags_of(&[SendPropFlag::RoundDown, SendPropFlag::ChangesOften]);
    assert_eq!(
        FloatDefinition::new(flags, Some(12), Some(pattern(100.0)), Some(pattern(0.0))),
        Ok(FloatDefinition::Scaled { bit_count: 12, high: pattern(100.0), low: pattern(0.0) })
    );
    assert_eq!(
        FloatDefinition::new(flags, Some(256 + 9), Some(pattern(1.0)), Some(pattern(0.0))),
        Ok(FloatDefinition::Scaled { bit_count: 9, high: pattern(1.0), low: pattern(0.0) })
    );
}

#[test]
fn float_definition_scaled_needs_all_three() {
    let flags = SendPropFlags::empty();
    let some = Some(pattern(1.0));
    for (bit_count, high, low) in [
        (None, None, None),
        (Some(8), None, None),
        (None, some, some),
        (Some(8), some, None),
        (Some(8), None, some),
    ] {
        assert_eq!(
            FloatDefinition::new(flags, bit_count, high, low),
            Err(MalformedSendPropDefinitionError::UnsizedFloat)
        );
    }
}

#[test]
fn refine_float_without_size_fails() {
    let definition = raw(SendPropType::Float, &[]);
    assert_eq!(
        SendPropParseDefinition::try_from(&definition),
        Err(MalformedSendPropDefinitionError::UnsizedFloat)
    );
}

#[test]
fn refine_integers() {
    let mut definition = raw(SendPropType::Int, &[SendPropFlag::ChangesOften]);
    definition.bit_count = Some(7);
    assert_eq!(
        SendPropParseDefinition::try_from(&definition),
        Ok(SendPropParseDefinition::Int { changes_often: true, bit_count: 7 })
    );
    definition.flags = flags_of(&[SendPropFlag::Unsigned]);
    assert_eq!(
        SendPropParseDefinition::try_from(&definition),
        Ok(SendPropParseDefinition::UnsignedInt { changes_often: false, bit_count: 7 })
    );
    definition.bit_count = None;
    assert_eq!(
        SendPropParseDefinition::try_from(&definition),
        Ok(SendPropParseDefinition::UnsignedInt { changes_often: false, bit_count: 32 })
    );
    definition.flags = flags_of(&[SendPropFlag::Unsigned, SendPropFlag::NormalVarInt]);
    assert_eq!(
        SendPropParseDefinition::try_from(&definition),
        Ok(SendPropParseDefinition::NormalVarInt { changes_often: false, unsigned: true })
    );
    definition.flags = flags_of(&[SendPropFlag::NormalVarInt]);
    assert_eq!(
        SendPropParseDefinition::try_from(&definition),
        Ok(SendPropParseDefinition::NormalVarInt { changes_often: false, unsigned: false })
    );
}

#[test]
fn refine_floats_and_vectors() {
    let mut definition = raw(SendPropType::Float, &[SendPropFlag::Coord]);
    assert_eq!(
        SendPropParseDefinition::try_from(&definition),
        Ok(SendPropParseDefinition::Float {
            changes_often: false,
            definition: FloatDefinition::Coord
        })
    );
    definition.prop_type = SendPropType::Vector;
    definition.flags = flags_of(&[SendPropFlag::NormalVarInt, SendPropFlag::ChangesOften]);
    assert_eq!(
        SendPropParseDefinition::try_from(&definition),
        Ok(SendPropParseDefinition::Vector {
            changes_often: true,
            definition: FloatDefinition::NormalVarFloat
        })
    );
    definition.prop_type = SendPropType::VectorXY;
    definition.flags = SendPropFlags::empty();
    definition.bit_count = Some(10);
    definition.low_value = Some(pattern(-5.0));
    definition.high_value = Some(pattern(5.0));
    assert_eq!(
        SendPropParseDefinition::try_from(&definition),
        Ok(SendPropParseDefinition::VectorXY {
            changes_often: false,
            definition: FloatDefinition::Scaled {
                bit_count: 10,
                high: pattern(5.0),
                low: pattern(-5.0)
            }
        })
    );
    definition.high_value = None;
    assert_eq!(
        SendPropParseDefinition::try_from(&definition),
        Err(MalformedSendPropDefinitionError::UnsizedFloat)
    );
}

#[test]
fn refine_string() {
    let definition = raw(SendPropType::String, &[SendPropFlag::ChangesOften]);
    let refined = SendPropParseDefinition::try_from(&definition).unwrap();
    assert_eq!(refined, SendPropParseDefinition::String { changes_often: true });
    assert!(refined.changes_often());
}

#[test]
fn refine_array() {
    let mut element = raw(SendPropType::Int, &[SendPropFlag::Unsigned, SendPropFlag::InsideArray]);
    element.bit_count = Some(8);
    let mut array = raw(SendPropType::Array, &[]);
    assert_eq!(
        SendPropParseDefinition::try_from(&array),
        Err(MalformedSendPropDefinitionError::UnsizedArray)
    );
    array.element_count = Some(3);
    assert_eq!(
        SendPropParseDefinition::try_from(&array),
        Err(MalformedSendPropDefinitionError::UntypedArray)
    );
    let array = array.with_array_property(element);
    assert_eq!(
        SendPropParseDefinition::try_from(&array),
        Ok(SendPropParseDefinition::Array {
            changes_often: false,
            count_bit_count: 2,
            inner_definition: Box::new(SendPropParseDefinition::UnsignedInt {
                changes_often: false,
                bit_count: 8
            }),
        })
    );
}

#[test]
fn refine_array_count_bits() {
    for (element_count, bits) in
        [(0u16, 1u16), (1, 1), (2, 2), (3, 2), (4, 3), (7, 3), (8, 4), (255, 8), (256, 9), (1023, 10), (65535, 16)]
    {
        let mut array = raw(SendPropType::Array, &[]);
        array.element_count = Some(element_count);
        let array = array.with_array_property(raw(SendPropType::String, &[]));
        match SendPropParseDefinition::try_from(&array) {
            Ok(SendPropParseDefinition::Array { count_bit_count, .. }) => {
                assert_eq!(count_bit_count, bits, "element count {}", element_count);
            }
            other => panic!("unexpected {:?}", other),
        }
    }
}

#[test]
fn log_base2_values() {
    assert_eq!(log_base2(0), 0);
    assert_eq!(log_base2(1), 0);
    assert_eq!(log_base2(2), 1);
    assert_eq!(log_base2(3), 1);
    assert_eq!(log_base2(1024), 10);
    assert_eq!(log_base2(65535), 15);
    for number in 1u16..=u16::MAX {
        let exponent = log_base2(number);
        assert!((1u32 << exponent) <= number as u32);
        assert!((number as u32) < (2u32 << exponent));
    }
}

#[test]
fn refine_array_with_malformed_element() {
    let mut array = raw(SendPropType::Array, &[]);
    array.element_count = Some(4);
    let array = array.with_array_property(raw(SendPropType::Float, &[]));
    assert_eq!(
        SendPropParseDefinition::try_from(&array),
        Err(MalformedSendPropDefinitionError::UnsizedFloat)
    );
}

#[test]
fn refine_records_without_a_value() {
    let mut table = raw(SendPropType::DataTable, &[]);
    table.table_name = Some(SendTableName::from("DT_Other".to_string()));
    assert_eq!(
        SendPropParseDefinition::try_from(&table),
        Err(MalformedSendPropDefinitionError::InvalidPropType)
    );
    assert_eq!(
        SendPropParseDefinition::try_from(&raw(SendPropType::NumSendPropTypes, &[])),
        Err(MalformedSendPropDefinitionError::InvalidPropType)
    );
    let mut exclude = raw(SendPropType::Int, &[SendPropFlag::Exclude]);
    exclude.table_name = Some(SendTableName::from("DT_Other".to_string()));
    assert_eq!(
        SendPropParseDefinition::try_from(&exclude),
        Err(MalformedSendPropDefinitionError::InvalidPropType)
    );
}

#[test]
fn send_prop_definition_holds_key_and_recipe() {
    let mut definition = raw(SendPropType::Int, &[SendPropFlag::Unsigned]);
    definition.bit_count = Some(7);
    let refined = SendPropDefinition::try_from(&definition).unwrap();
    assert_eq!(refined.identifier, SendPropIdentifier::new("DT_Table", "prop"));
    assert_eq!(
        refined.parse_definition,
        SendPropParseDefinition::UnsignedInt { changes_often: false, bit_count: 7 }
    );
    assert_eq!(
        SendPropDefinition::try_from(&raw(SendPropType::Float, &[])),
        Err(MalformedSendPropDefinitionError::UnsizedFloat)
    );
}

#[test]
fn changes_often_of_every_variant() {
    for often in [false, true] {
        let float = FloatDefinition::Coord;
        let recipes = [
            SendPropParseDefinition::NormalVarInt { changes_often: often, unsigned: false },
            SendPropParseDefinition::UnsignedInt { changes_often: often, bit_count: 1 },
            SendPropParseDefinition::Int { changes_often: often, bit_count: 1 },
            SendPropParseDefinition::Float { changes_often: often, definition: float },
            SendPropParseDefinition::String { changes_often: often },
            SendPropParseDefinition::Vector { changes_often: often, definition: float },
            SendPropParseDefinition::VectorXY { changes_often: often, definition: float },
            SendPropParseDefinition::Array {
                changes_often: often,
                count_bit_count: 1,
                inner_definition: Box::new(SendPropParseDefinition::String {
                    changes_often: !often,
                }),
            },
        ];
        for recipe in recipes {
            assert_eq!(recipe.changes_often(), often);
        }
    }
}

#[test]
fn read_integer_record() {
    let bytes = record(0, "health", 1, &|writer| {
        writer.write_int(0f32.to_bits(), 32).unwrap();
        writer.write_int(100f32.to_bits(), 32).unwrap();
        writer.write_int(7u32, 7).unwrap();
        writer.write_int(0u32, 4).unwrap();
    });
    let mut stream = Stream::new(&bytes);
    let owner = SendTableName::from("DT_Player".to_string());
    let definition = RawSendPropDefinition::read(&mut stream, owner).unwrap();
    assert_eq!(definition.prop_type, SendPropType::Int);
    assert_eq!(definition.name.as_str(), "health");
    assert_eq!(definition.owner_table.as_str(), "DT_Player");
    assert_eq!(definition.flags, SendPropFlags::from_bits(1));
    assert_eq!(definition.table_name, None);
    assert_eq!(definition.low_value, Some(pattern(0.0)));
    assert_eq!(definition.high_value, Some(pattern(100.0)));
    assert_eq!(definition.bit_count, Some(7));
    assert_eq!(definition.element_count, None);
    assert!(definition.array_property.is_none());
    assert_eq!(stream.bits_left(), bytes.len() * 8 - (5 + 7 * 8 + 16 + 32 + 32 + 7));
}

#[test]
fn read_table_record() {
    let bytes = record(6, "baseclass", 0, &|writer| {
        writer.write_string("DT_Base", None).unwrap();
    });
    let mut stream = Stream::new(&bytes);
    let owner = SendTableName::from("DT_Player".to_string());
    let definition = RawSendPropDefinition::read(&mut stream, owner).unwrap();
    assert_eq!(definition.prop_type, SendPropType::DataTable);
    assert_eq!(definition.table_name, Some(SendTableName::from("DT_Base".to_string())));
    assert_eq!(definition.low_value, None);
    assert_eq!(definition.high_value, None);
    assert_eq!(definition.bit_count, None);
    assert_eq!(definition.element_count, None);
    assert!(!definition.is_exclude());
    assert_eq!(definition.get_exclude_table(), None);
}

#[test]
fn read_exclude_record() {
    let bytes = record(0, "m_flOther", 64, &|writer| {
        writer.write_string("DT_Excluded", None).unwrap();
    });
    let mut stream = Stream::new(&bytes);
    let owner = SendTableName::from("DT_Player".to_string());
    let definition = RawSendPropDefinition::read(&mut stream, owner).unwrap();
    assert!(definition.is_exclude());
    assert_eq!(
        definition.get_exclude_table(),
        Some(&SendTableName::from("DT_Excluded".to_string()))
    );
    assert_eq!(definition.bit_count, None);
}

#[test]
fn read_array_record() {
    let bytes = record(5, "m_array", 0, &|writer| {
        writer.write_int(1000u32, 10).unwrap();
    });
    let mut stream = Stream::new(&bytes);
    let owner = SendTableName::from("DT_Player".to_string());
    let definition = RawSendPropDefinition::read(&mut stream, owner).unwrap();
    assert_eq!(definition.prop_type, SendPropType::Array);
    assert_eq!(definition.element_count, Some(1000));
    assert_eq!(definition.bit_count, None);
    assert!(definition.array_property.is_none());
}

#[test]
fn read_promotes_the_bit_count_of_unscaled_numbers() {
    let tail = |writer: &mut BitWriteStream<LittleEndian>| {
        writer.write_int(0u32, 32).unwrap();
        writer.write_int(0u32, 32).unwrap();
        writer.write_int(0u32, 7).unwrap();
    };
    let owner = || SendTableName::from("DT".to_string());
    let bytes = record(1, "f", 4, &tail);
    let definition = RawSendPropDefinition::read(&mut Stream::new(&bytes), owner()).unwrap();
    assert_eq!(definition.bit_count, Some(32));
    let bytes = record(2, "v", 4, &tail);
    let definition = RawSendPropDefinition::read(&mut Stream::new(&bytes), owner()).unwrap();
    assert_eq!(definition.bit_count, Some(96));
    let bytes = record(2, "v", 4 | 32, &tail);
    let definition = RawSendPropDefinition::read(&mut Stream::new(&bytes), owner()).unwrap();
    assert_eq!(definition.bit_count, Some(0));
    let bytes = record(3, "v", 4, &tail);
    let definition = RawSendPropDefinition::read(&mut Stream::new(&bytes), owner()).unwrap();
    assert_eq!(definition.bit_count, Some(0));
    let bytes = record(0, "i", 4, &tail);
    let definition = RawSendPropDefinition::read(&mut Stream::new(&bytes), owner()).unwrap();
    assert_eq!(definition.bit_count, Some(0));
}

#[test]
fn read_record_of_unknown_kind() {
    let bytes = record(9, "x", 0, &|_| {});
    let mut stream = Stream::new(&bytes);
    let owner = SendTableName::from("DT".to_string());
    match RawSendPropDefinition::read(&mut stream, owner) {
        Err(error) => assert_eq!(error, ReadError::UnmatchedDiscriminant { discriminant: 9 }),
        Ok(definition) => panic!("unexpected {:?}", definition),
    }
}

#[test]
fn read_record_cut_short() {
    let bytes = record(0, "health", 1, &|writer| {
        writer.write_int(0u32, 32).unwrap();
    });
    let mut stream = Stream::new(&bytes);
    let owner = SendTableName::from("DT".to_string());
    match RawSendPropDefinition::read(&mut stream, owner) {
        Err(error) => assert_eq!(error, ReadError::NotEnoughData { requested: 32, bits_left: 3 }),
        Ok(definition) => panic!("unexpected {:?}", definition),
    }
}

#[test]
fn with_array_property_binds_the_element() {
    let mut array = raw(SendPropType::Array, &[SendPropFlag::ChangesOften]);
    array.element_count = Some(5);
    let element = raw(SendPropType::Float, &[SendPropFlag::Coord, SendPropFlag::InsideArray]);
    let bound = array.clone().with_array_property(element.clone());
    assert_eq!(bound.prop_type, array.prop_type);
    assert_eq!(bound.name, array.name);
    assert_eq!(bound.owner_table, array.owner_table);
    assert_eq!(bound.flags, array.flags);
    assert_eq!(bound.element_count, Some(5));
    let inner = bound.array_property.as_ref().unwrap();
    assert_eq!(inner.prop_type, SendPropType::Float);
    assert_eq!(inner.flags, element.flags);
}

#[test]
fn get_data_table_finds_the_first_of_that_name() {
    let table = |name: &str, needs_decoder: bool| ParseSendTable {
        name: SendTableName::from(name.to_string()),
        props: vec![],
        needs_decoder,
    };
    let tables = vec![table("DT_A", false), table("DT_B", false), table("DT_B", true)];
    let mut definition = raw(SendPropType::DataTable, &[]);
    definition.table_name = Some(SendTableName::from("DT_B".to_string()));
    let found = definition.get_data_table(&tables).unwrap();
    assert_eq!(found.name.as_str(), "DT_B");
    assert!(!found.needs_decoder);
    assert!(std::ptr::eq(found, &tables[1]));

    definition.table_name = Some(SendTableName::from("DT_C".to_string()));
    assert!(definition.get_data_table(&tables).is_none());
    definition.table_name = None;
    assert!(definition.get_data_table(&tables).is_none());

    let mut other = raw(SendPropType::Int, &[SendPropFlag::Exclude]);
    other.table_name = Some(SendTableName::from("DT_A".to_string()));
    assert!(other.get_data_table(&tables).is_none());
    assert!(definition.get_data_table(&[]).is_none());
}

#[test]
fn records_are_equal_by_their_key() {
    let mut first = raw(SendPropType::Int, &[SendPropFlag::Unsigned]);
    first.bit_count = Some(7);
    let second = raw(SendPropType::String, &[]);
    assert!(first == second);
    let mut third = raw(SendPropType::Int, &[SendPropFlag::Unsigned]);
    third.bit_count = Some(7);
    third.name = SendPropName::from("other".to_string());
    assert!(first != third);
}

#[test]
fn try_into_gives_the_recipe() {
    let mut definition = raw(SendPropType::Int, &[]);
    definition.bit_count = Some(300);
    let recipe: Result<SendPropParseDefinition, _> = (&definition).try_into();
    assert_eq!(recipe, Ok(SendPropParseDefinition::Int { changes_often: false, bit_count: 44 }));
}

#[test]
fn bind_arrays_takes_the_record_before() {
    let mut element = raw(SendPropType::Int, &[SendPropFlag::InsideArray, SendPropFlag::Unsigned]);
    element.name = SendPropName::from("element".to_string());
    element.bit_count = Some(8);
    let mut array = raw(SendPropType::Array, &[]);
    array.name = SendPropName::from("array".to_string());
    array.element_count = Some(3);
    let mut plain = raw(SendPropType::String, &[]);
    plain.name = SendPropName::from("plain".to_string());
    let records = vec![array.clone(), plain.clone(), element.clone(), array.clone(), plain.clone()];
    let bound = RawSendPropDefinition::bind_arrays(&records);
    assert_eq!(bound.len(), 5);
    for (index, record) in bound.iter().enumerate() {
        assert_eq!(record.name, records[index].name);
        assert_eq!(record.prop_type, records[index].prop_type);
        assert_eq!(record.element_count, records[index].element_count);
    }
    // a first record has no record before it
    assert!(bound[0].array_property.is_none());
    assert!(bound[1].array_property.is_none());
    assert!(bound[2].array_property.is_none());
    assert!(bound[4].array_property.is_none());
    let inner = bound[3].array_property.as_ref().unwrap();
    assert_eq!(inner.name.as_str(), "element");
    assert_eq!(inner.bit_count, Some(8));
    assert_eq!(
        SendPropParseDefinition::try_from(&bound[3]),
        Ok(SendPropParseDefinition::Array {
            changes_often: false,
            count_bit_count: 2,
            inner_definition: Box::new(SendPropParseDefinition::UnsignedInt {
                changes_often: false,
                bit_count: 8
            }),
        })
    );
    assert!(RawSendPropDefinition::bind_arrays(&[]).is_empty());
}

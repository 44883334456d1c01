use sendprop::definition::{RawSendPropDefinition, SendPropName, SendTableName};
use sendprop::flags::{SendPropFlag, SendPropFlags, SendPropType};
use sendprop::float::{FloatBits, FloatValue};
use sendprop::identifier::SendPropIdentifier;
use sendprop::text::{append_decimal, append_signed_decimal, plain_text, Fragment};
use sendprop::value::{SendProp, SendPropValue, Vector, VectorXY};

fn number_text(value: &FloatValue) -> String {
    let number = match *value {
        FloatValue::Exact(pattern) => f32::from_bits(pattern.bits),
        FloatValue::Fixed { negative, numerator, fraction_bits } => {
            let magnitude = numerator as f32 / (1u32 << fraction_bits) as f32;
            if negative {
                -magnitude
            } else {
                magnitude
            }
        }
        FloatValue::Scaled { raw, bit_count, low, high } => {
            let low = f32::from_bits(low.bits);
            let high = f32::from_bits(high.bits);
            low + (high - low) * (raw as f32 / (2f32.powi(bit_count as i32) - 1.0))
        }
    };
    format!("{}", number)
}

fn joined(fragments: &[Fragment]) -> String {
    let mut text = String::new();
    for fragment in fragments {
        match fragment {
            Fragment::Text(piece) => text.push_str(piece),
            Fragment::Number(number) => text.push_str(&number_text(number)),
        }
    }
    text
}

fn definition(
    prop_type: SendPropType,
    table: &str,
    name: &str,
    flags: &[SendPropFlag],
) -> RawSendPropDefinition {
    let mut set = SendPropFlags::empty();
    for flag in flags {
        set = set.with(*flag);
    }
    RawSendPropDefinition {
        prop_type,
        name: SendPropName::from(name.to_string()),
        owner_table: SendTableName::from(table.to_string()),
        flags: set,
        table_name: None,
        low_value: None,
        high_value: None,
        bit_count: None,
        element_count: None,
        array_property: None,
    }
}

fn single(number: f32) -> FloatValue {
    FloatValue::Exact(FloatBits { bits: number.to_bits() })
}

#[test]
fn decimal_digits() {
    for number in [0u64, 1, 9, 10, 11, 99, 100, 101, 12345, 4294967295, u64::MAX] {
        let mut text = String::from("n=");
        append_decimal(&mut text, number);
        assert_eq!(text, format!("n={}", number));
    }
}

#[test]
fn signed_decimal_digits() {
    for number in [0i64, 1, -1, 10, -10, 75, -2147483648, i64::MAX, i64::MIN, i64::MIN + 1] {
        let mut text = String::new();
        append_signed_decimal(&mut text, number);
        assert_eq!(text, format!("{}", number));
    }
}

#[test]
fn flags_as_text() {
    assert_eq!(SendPropFlags::empty().to_string(), "[]");
    assert_eq!(SendPropFlags::from_bits(1).to_string(), "[Unsigned]");
    assert_eq!(
        SendPropFlags::empty().with(SendPropFlag::ChangesOften).with(SendPropFlag::Coord).to_string(),
        "[Coord | ChangesOften]"
    );
    assert_eq!(
        SendPropFlags::from_bits(0xffff).to_string(),
        "[Unsigned | Coord | NoScale | RoundDown | RoundUp | NormalVarInt | Exclude | XYZE | \
         InsideArray | ProxyAlwaysYes | ChangesOften | IsVectorElement | Collapsible | CoordMP | \
         CoordMPLowPrecision | CoordMPIntegral]"
    );
}

#[test]
fn flag_and_kind_names() {
    assert_eq!(SendPropFlag::XYZE.name(), "XYZE");
    assert_eq!(SendPropFlag::NormalVarInt.name(), "NormalVarInt");
    assert_eq!(SendPropType::VectorXY.name(), "VectorXY");
    assert_eq!(SendPropType::NumSendPropTypes.name(), "NumSendPropTypes");
    for index in 0..16u8 {
        assert_eq!(SendPropFlag::from_index(index).mask(), 1 << index);
    }
}

#[test]
fn display_unsigned_integer_record() {
    let mut health = definition(SendPropType::Int, "DT_Player", "health", &[SendPropFlag::Unsigned]);
    health.bit_count = Some(7);
    let fragments = health.display();
    assert_eq!(
        plain_text(&fragments),
        Some("DT_Player::health(Int)(flags: [Unsigned], bits: 7)".to_string())
    );
}

#[test]
fn display_integer_record_without_bit_count() {
    let record = definition(SendPropType::Int, "DT_A", "m_n", &[]);
    assert_eq!(joined(&record.display()), "DT_A::m_n(Int)(flags: [], bits: 32)");
}

#[test]
fn display_float_record() {
    let mut record = definition(SendPropType::Float, "DT_A", "m_fl", &[SendPropFlag::RoundDown]);
    record.low_value = Some(FloatBits { bits: (-1.5f32).to_bits() });
    record.high_value = Some(FloatBits { bits: 102.25f32.to_bits() });
    record.bit_count = Some(12);
    let fragments = record.display();
    assert_eq!(plain_text(&fragments), None);
    assert_eq!(
        joined(&fragments),
        "DT_A::m_fl(Float)(flags: [RoundDown], low: -1.5, high: 102.25, bits: 12)"
    );
    assert_eq!(
        fragments
            .iter()
            .filter_map(|fragment| match fragment {
                Fragment::Number(number) => Some(*number),
                Fragment::Text(_) => None,
            })
            .collect::<Vec<_>>(),
        vec![single(-1.5), single(102.25)]
    );
}

#[test]
fn display_float_record_without_range() {
    let record = definition(SendPropType::Float, "DT_A", "m_fl", &[SendPropFlag::Coord]);
    assert_eq!(
        joined(&record.display()),
        "DT_A::m_fl(Float)(flags: [Coord], low: 0, high: 0, bits: 32)"
    );
}

#[test]
fn display_vector_record_shows_the_bits_of_one_component() {
    let mut record = definition(SendPropType::Vector, "DT_A", "m_vec", &[]);
    record.low_value = Some(FloatBits { bits: 0f32.to_bits() });
    record.high_value = Some(FloatBits { bits: 1f32.to_bits() });
    record.bit_count = Some(30);
    assert_eq!(
        joined(&record.display()),
        "DT_A::m_vec(Vector)(flags: [], low: 0, high: 1, bits: 10)"
    );
    record.bit_count = None;
    record.prop_type = SendPropType::VectorXY;
    assert_eq!(
        joined(&record.display()),
        "DT_A::m_vec(VectorXY)(flags: [], low: 0, high: 1, bits: 32)"
    );
}

#[test]
fn display_string_record() {
    let record = definition(SendPropType::String, "DT_A", "m_sz", &[SendPropFlag::ChangesOften]);
    assert_eq!(plain_text(&record.display()), Some("DT_A::m_sz(String)".to_string()));
}

#[test]
fn display_array_record() {
    let mut array = definition(SendPropType::Array, "DT_A", "m_arr", &[]);
    array.element_count = Some(24);
    assert_eq!(plain_text(&array.display()), Some("m_arr(Malformed array)".to_string()));
    let element = definition(
        SendPropType::Int,
        "DT_A",
        "m_elem",
        &[SendPropFlag::InsideArray, SendPropFlag::Unsigned],
    );
    let array = array.with_array_property(element);
    assert_eq!(
        plain_text(&array.display()),
        Some("DT_A::m_arr([Int([Unsigned | InsideArray])] * 24)".to_string())
    );
}

#[test]
fn display_table_record() {
    let mut table = definition(SendPropType::DataTable, "DT_A", "baseclass", &[]);
    assert_eq!(plain_text(&table.display()), Some("baseclass(Malformed DataTable)".to_string()));
    table.table_name = Some(SendTableName::from("DT_Base".to_string()));
    assert_eq!(
        plain_text(&table.display()),
        Some("DT_A::baseclass(DataTable = DT_Base)".to_string())
    );
}

#[test]
fn display_reserved_record() {
    let record = definition(SendPropType::NumSendPropTypes, "DT_A", "x", &[]);
    assert_eq!(plain_text(&record.display()), Some("DT_A::x(NumSendPropTypes)".to_string()));
}

#[test]
fn display_values() {
    assert_eq!(joined(&SendPropValue::Integer(-75).display()), "-75");
    assert_eq!(joined(&SendPropValue::String("hello".to_string()).display()), "hello");
    assert_eq!(joined(&SendPropValue::Float(single(0.25)).display()), "0.25");
    assert_eq!(
        joined(
            &SendPropValue::Vector(Vector { x: single(1.0), y: single(-2.5), z: single(0.0) })
                .display()
        ),
        "(1, -2.5, 0)"
    );
    assert_eq!(
        joined(&SendPropValue::VectorXY(VectorXY { x: single(1.0), y: single(2.0) }).display()),
        "(1, 2)"
    );
    assert_eq!(
        joined(
            &SendPropValue::Array(vec![
                SendPropValue::Integer(1),
                SendPropValue::Integer(2),
                SendPropValue::Array(vec![SendPropValue::String("x".to_string())]),
                SendPropValue::Array(vec![]),
            ])
            .display()
        ),
        "[12[x][]]"
    );
}

#[test]
fn display_send_prop() {
    let prop = SendProp {
        index: SendPropIdentifier(1234567890123),
        value: SendPropValue::Integer(5),
    };
    assert_eq!(plain_text(&prop.display()), Some("1234567890123 = 5".to_string()));
    assert_eq!(SendPropIdentifier(0).to_string(), "0");
    assert_eq!(SendPropIdentifier(u64::MAX).to_string(), u64::MAX.to_string());
}

#[test]
fn plain_text_of_nothing() {
    assert_eq!(plain_text(&Vec::new()), Some(String::new()));
}

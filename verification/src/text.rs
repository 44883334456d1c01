//! Records and values as text.
//!
//! A rendering is a run of characters and of numbers that are no integers.
//! Such a number is handed out as it was decoded, for the caller to print: the
//! library does no arithmetic on it.

use crate::definition::{RawDefinitionModel, RawSendPropDefinition};
use crate::flags::{SendPropFlag, SendPropFlags, SendPropType};
use crate::float::{FloatBits, FloatValue};
use crate::identifier::SendPropIdentifier;
use crate::value::{SendProp, SendPropValue, ValueModel};
use vstd::arithmetic::power2::{lemma2_to64, pow2};
use vstd::prelude::*;
use vstd::string::StringExecFns;

verus! {

/// One place of a rendering.
pub enum Token {
    Char(char),
    Number(FloatValue),
}

/// A character as a place of a rendering.
pub open spec fn char_token(character: char) -> Token {
    Token::Char(character)
}

/// Text as a rendering.
pub open spec fn text_tokens(text: Seq<char>) -> Seq<Token>
    decreases text.len(),
{
    if text.len() == 0 {
        Seq::empty()
    } else {
        text_tokens(text.drop_last()).push(char_token(text.last()))
    }
}

/// The rendering of text that is joined is the renderings of its parts,
/// joined.
pub proof fn lemma_text_tokens_concat(front: Seq<char>, back: Seq<char>)
    ensures
        text_tokens(front + back) == text_tokens(front) + text_tokens(back),
    decreases back.len(),
{
    if back.len() == 0 {
        assert(front + back =~= front);
        assert(text_tokens(front) + text_tokens(back) =~= text_tokens(front));
    } else {
        let whole = front + back;
        assert(whole.drop_last() =~= front + back.drop_last());
        assert(whole.last() == back.last());
        lemma_text_tokens_concat(front, back.drop_last());
        assert(text_tokens(whole) =~= text_tokens(front) + text_tokens(back));
    }
}

/// A number as a rendering.
pub open spec fn number_tokens(number: FloatValue) -> Seq<Token> {
    seq![Token::Number(number)]
}

/// A piece of a rendering: text, or a number.
#[derive(Debug, PartialEq, Eq)]
pub enum Fragment {
    Text(String),
    Number(FloatValue),
}

impl Fragment {
    /// The piece as a rendering.
    pub open spec fn tokens(self) -> Seq<Token> {
        match self {
            Fragment::Text(text) => text_tokens(text@),
            Fragment::Number(number) => number_tokens(number),
        }
    }
}

/// Pieces, one after the other, as a rendering.
pub open spec fn tokens_of(fragments: Seq<Fragment>) -> Seq<Token>
    decreases fragments.len(),
{
    if fragments.len() == 0 {
        Seq::empty()
    } else {
        tokens_of(fragments.drop_last()) + fragments.last().tokens()
    }
}

/// The digit `digit` as text.
pub open spec fn digit_text(digit: nat) -> Seq<char> {
    if digit == 0 {
        "0"@
    } else if digit == 1 {
        "1"@
    } else if digit == 2 {
        "2"@
    } else if digit == 3 {
        "3"@
    } else if digit == 4 {
        "4"@
    } else if digit == 5 {
        "5"@
    } else if digit == 6 {
        "6"@
    } else if digit == 7 {
        "7"@
    } else if digit == 8 {
        "8"@
    } else {
        "9"@
    }
}

/// A number in decimal digits, the most significant first.
pub open spec fn decimal(number: nat) -> Seq<char>
    decreases number,
{
    if number < 10 {
        digit_text(number)
    } else {
        decimal(number / 10) + digit_text(number % 10)
    }
}

/// A number in decimal digits, with a minus sign where it is below zero.
pub open spec fn signed_decimal(number: int) -> Seq<char> {
    if number < 0 {
        "-"@ + decimal((-number) as nat)
    } else {
        decimal(number as nat)
    }
}

/// The digit `digit` as text.
fn digit_str(digit: u64) -> (text: &'static str)
    requires
        digit < 10,
    ensures
        text@ == digit_text(digit as nat),
{
    if digit == 0 {
        "0"
    } else if digit == 1 {
        "1"
    } else if digit == 2 {
        "2"
    } else if digit == 3 {
        "3"
    } else if digit == 4 {
        "4"
    } else if digit == 5 {
        "5"
    } else if digit == 6 {
        "6"
    } else if digit == 7 {
        "7"
    } else if digit == 8 {
        "8"
    } else {
        "9"
    }
}

/// Writes `number` in decimal digits behind `text`.
pub fn append_decimal(text: &mut String, number: u64)
    ensures
        final(text)@ == old(text)@ + decimal(number as nat),
    decreases number,
{
    if number >= 10 {
        append_decimal(text, number / 10);
    }
    text.append(digit_str(number % 10));
    proof {
        assert(old(text)@ + decimal((number / 10) as nat) + digit_text((number % 10) as nat)
            =~= old(text)@ + (decimal((number / 10) as nat) + digit_text((number % 10) as nat)));
    }
}

/// Writes `number` in decimal digits behind `text`, with its sign where it is
/// below zero.
pub fn append_signed_decimal(text: &mut String, number: i64)
    ensures
        final(text)@ == old(text)@ + signed_decimal(number as int),
{
    if number < 0 {
        text.append("-");
        let magnitude: u64 = if number == i64::MIN {
            0x8000_0000_0000_0000
        } else {
            (-number) as u64
        };
        append_decimal(text, magnitude);
        proof {
            assert(old(text)@ + "-"@ + decimal((-number) as nat) =~= old(text)@ + ("-"@ + decimal(
                (-number) as nat,
            )));
        }
    } else {
        append_decimal(text, number as u64);
    }
}

impl SendPropType {
    /// The name of the kind.
    pub open spec fn name_text(self) -> Seq<char> {
        match self {
            SendPropType::Int => "Int"@,
            SendPropType::Float => "Float"@,
            SendPropType::Vector => "Vector"@,
            SendPropType::VectorXY => "VectorXY"@,
            SendPropType::String => "String"@,
            SendPropType::Array => "Array"@,
            SendPropType::DataTable => "DataTable"@,
            SendPropType::NumSendPropTypes => "NumSendPropTypes"@,
        }
    }

    /// The name of the kind.
    pub fn name(self) -> (name: &'static str)
        ensures
            name@ == self.name_text(),
    {
        match self {
            SendPropType::Int => "Int",
            SendPropType::Float => "Float",
            SendPropType::Vector => "Vector",
            SendPropType::VectorXY => "VectorXY",
            SendPropType::String => "String",
            SendPropType::Array => "Array",
            SendPropType::DataTable => "DataTable",
            SendPropType::NumSendPropTypes => "NumSendPropTypes",
        }
    }
}

impl SendPropFlag {
    /// The flag whose bit is at `index` in the flag field.
    pub open spec fn at(index: nat) -> SendPropFlag {
        if index == 0 {
            SendPropFlag::Unsigned
        } else if index == 1 {
            SendPropFlag::Coord
        } else if index == 2 {
            SendPropFlag::NoScale
        } else if index == 3 {
            SendPropFlag::RoundDown
        } else if index == 4 {
            SendPropFlag::RoundUp
        } else if index == 5 {
            SendPropFlag::NormalVarInt
        } else if index == 6 {
            SendPropFlag::Exclude
        } else if index == 7 {
            SendPropFlag::XYZE
        } else if index == 8 {
            SendPropFlag::InsideArray
        } else if index == 9 {
            SendPropFlag::ProxyAlwaysYes
        } else if index == 10 {
            SendPropFlag::ChangesOften
        } else if index == 11 {
            SendPropFlag::IsVectorElement
        } else if index == 12 {
            SendPropFlag::Collapsible
        } else if index == 13 {
            SendPropFlag::CoordMP
        } else if index == 14 {
            SendPropFlag::CoordMPLowPrecision
        } else {
            SendPropFlag::CoordMPIntegral
        }
    }

    /// The flag whose bit is at `index` in the flag field.
    pub fn from_index(index: u8) -> (flag: SendPropFlag)
        ensures
            flag == Self::at(index as nat),
            index < 16 ==> flag.mask_of() == pow2(index as nat),
    {
        proof {
            lemma2_to64();
        }
        if index == 0 {
            SendPropFlag::Unsigned
        } else if index == 1 {
            SendPropFlag::Coord
        } else if index == 2 {
            SendPropFlag::NoScale
        } else if index == 3 {
            SendPropFlag::RoundDown
        } else if index == 4 {
            SendPropFlag::RoundUp
        } else if index == 5 {
            SendPropFlag::NormalVarInt
        } else if index == 6 {
            SendPropFlag::Exclude
        } else if index == 7 {
            SendPropFlag::XYZE
        } else if index == 8 {
            SendPropFlag::InsideArray
        } else if index == 9 {
            SendPropFlag::ProxyAlwaysYes
        } else if index == 10 {
            SendPropFlag::ChangesOften
        } else if index == 11 {
            SendPropFlag::IsVectorElement
        } else if index == 12 {
            SendPropFlag::Collapsible
        } else if index == 13 {
            SendPropFlag::CoordMP
        } else if index == 14 {
            SendPropFlag::CoordMPLowPrecision
        } else {
            SendPropFlag::CoordMPIntegral
        }
    }

    /// The name of the flag.
    pub open spec fn name_text(self) -> Seq<char> {
        match self {
            SendPropFlag::Unsigned => "Unsigned"@,
            SendPropFlag::Coord => "Coord"@,
            SendPropFlag::NoScale => "NoScale"@,
            SendPropFlag::RoundDown => "RoundDown"@,
            SendPropFlag::RoundUp => "RoundUp"@,
            SendPropFlag::NormalVarInt => "NormalVarInt"@,
            SendPropFlag::Exclude => "Exclude"@,
            SendPropFlag::XYZE => "XYZE"@,
            SendPropFlag::InsideArray => "InsideArray"@,
            SendPropFlag::ProxyAlwaysYes => "ProxyAlwaysYes"@,
            SendPropFlag::ChangesOften => "ChangesOften"@,
            SendPropFlag::IsVectorElement => "IsVectorElement"@,
            SendPropFlag::Collapsible => "Collapsible"@,
            SendPropFlag::CoordMP => "CoordMP"@,
            SendPropFlag::CoordMPLowPrecision => "CoordMPLowPrecision"@,
            SendPropFlag::CoordMPIntegral => "CoordMPIntegral"@,
        }
    }

    /// The name of the flag.
    pub fn name(self) -> (name: &'static str)
        ensures
            name@ == self.name_text(),
    {
        match self {
            SendPropFlag::Unsigned => "Unsigned",
            SendPropFlag::Coord => "Coord",
            SendPropFlag::NoScale => "NoScale",
            SendPropFlag::RoundDown => "RoundDown",
            SendPropFlag::RoundUp => "RoundUp",
            SendPropFlag::NormalVarInt => "NormalVarInt",
            SendPropFlag::Exclude => "Exclude",
            SendPropFlag::XYZE => "XYZE",
            SendPropFlag::InsideArray => "InsideArray",
            SendPropFlag::ProxyAlwaysYes => "ProxyAlwaysYes",
            SendPropFlag::ChangesOften => "ChangesOften",
            SendPropFlag::IsVectorElement => "IsVectorElement",
            SendPropFlag::Collapsible => "Collapsible",
            SendPropFlag::CoordMP => "CoordMP",
            SendPropFlag::CoordMPLowPrecision => "CoordMPLowPrecision",
            SendPropFlag::CoordMPIntegral => "CoordMPIntegral",
        }
    }
}

/// The names of those of the first `upto` flags that are set, in the order of
/// their bits, with ` | ` between them.
pub open spec fn flag_names(flags: Set<SendPropFlag>, upto: nat) -> Seq<char>
    decreases upto,
{
    if upto == 0 {
        Seq::empty()
    } else {
        let flag = SendPropFlag::at((upto - 1) as nat);
        let before = flag_names(flags, (upto - 1) as nat);
        if !flags.contains(flag) {
            before
        } else if before.len() == 0 {
            flag.name_text()
        } else {
            before + " | "@ + flag.name_text()
        }
    }
}

/// Flags as text: their names in square brackets, in the order of their bits,
/// with ` | ` between them.
pub open spec fn flags_text(flags: Set<SendPropFlag>) -> Seq<char> {
    "["@ + flag_names(flags, 16) + "]"@
}

impl SendPropFlags {
    /// The flags as text.
    pub fn to_string(&self) -> (text: String)
        ensures
            text@ == flags_text(self@),
    {
        let mut names = String::from_str("");
        let mut any = false;
        let mut index: u8 = 0;
        proof {
            reveal_strlit("");
            assert(names@ =~= flag_names(self@, 0));
        }
        while index < 16
            invariant
                index <= 16,
                names@ == flag_names(self@, index as nat),
                any == (names@.len() > 0),
            decreases 16 - index,
        {
            let flag = SendPropFlag::from_index(index);
            if self.contains(flag) {
                if any {
                    names.append(" | ");
                }
                names.append(flag.name());
                proof {
                    lemma_flag_name_not_empty(flag);
                }
                any = true;
            }
            index = index + 1;
        }
        let mut text = String::from_str("[");
        text.append(names.as_str());
        text.append("]");
        text
    }
}

/// No flag has the empty name.
pub proof fn lemma_flag_name_not_empty(flag: SendPropFlag)
    ensures
        flag.name_text().len() > 0,
{
    reveal_strlit("Unsigned");
    reveal_strlit("Coord");
    reveal_strlit("NoScale");
    reveal_strlit("RoundDown");
    reveal_strlit("RoundUp");
    reveal_strlit("NormalVarInt");
    reveal_strlit("Exclude");
    reveal_strlit("XYZE");
    reveal_strlit("InsideArray");
    reveal_strlit("ProxyAlwaysYes");
    reveal_strlit("ChangesOften");
    reveal_strlit("IsVectorElement");
    reveal_strlit("Collapsible");
    reveal_strlit("CoordMP");
    reveal_strlit("CoordMPLowPrecision");
    reveal_strlit("CoordMPIntegral");
}

/// Writes text behind a rendering.
pub fn push_text(fragments: &mut Vec<Fragment>, text: String)
    ensures
        tokens_of(final(fragments)@) == tokens_of(old(fragments)@) + text_tokens(text@),
{
    let ghost before = fragments@;
    fragments.push(Fragment::Text(text));
    assert(fragments@.drop_last() =~= before);
}

/// Writes a number behind a rendering.
pub fn push_number(fragments: &mut Vec<Fragment>, number: FloatValue)
    ensures
        tokens_of(final(fragments)@) == tokens_of(old(fragments)@) + number_tokens(number),
{
    let ghost before = fragments@;
    fragments.push(Fragment::Number(number));
    assert(fragments@.drop_last() =~= before);
}

/// The number that stands for an end of a range that the record does not
/// give: zero.
pub open spec fn range_end(end: Option<FloatBits>) -> FloatValue {
    match end {
        Some(pattern) => FloatValue::Exact(pattern),
        None => FloatValue::Exact(FloatBits { bits: 0 }),
    }
}

/// A bit count, or `default` where the record gives none.
pub open spec fn bit_count_or(bit_count: Option<u32>, default: u32) -> u32 {
    match bit_count {
        Some(count) => count,
        None => default,
    }
}

impl RawSendPropDefinition {
    /// The table, two colons, and the name of the property.
    pub open spec fn path_text(raw: RawDefinitionModel) -> Seq<char> {
        raw.owner_table + "::"@ + raw.name
    }

    /// The head of the rendering of a number: the path, the kind, the flags,
    /// and the word that announces the low end of the range.
    pub open spec fn range_head_text(raw: RawDefinitionModel) -> Seq<char> {
        Self::path_text(raw) + "("@ + raw.prop_type.name_text() + ")(flags: "@ + flags_text(
            raw.flags,
        ) + ", low: "@
    }

    /// A record as text.
    ///
    /// A number, and a vector, is rendered as
    /// `Table::name(Kind)(flags: [..], low: L, high: H, bits: B)`; of a vector
    /// `B` is the bit count of one component, a third of the whole, which is
    /// 96 where the record gives none. An integer is rendered without the
    /// range, text with the kind alone. An array is rendered as
    /// `Table::name([Kind([..])] * N)` with the kind and the flags of its
    /// elements, and a table as `Table::name(DataTable = Other)`.
    pub open spec fn rendering(raw: RawDefinitionModel) -> Seq<Token> {
        match raw.prop_type {
            SendPropType::Vector | SendPropType::VectorXY => text_tokens(Self::range_head_text(raw))
                + number_tokens(range_end(raw.low_value)) + text_tokens(", high: "@)
                + number_tokens(range_end(raw.high_value)) + text_tokens(
                ", bits: "@ + decimal((bit_count_or(raw.bit_count, 96) / 3) as nat) + ")"@,
            ),
            SendPropType::Float => text_tokens(Self::range_head_text(raw)) + number_tokens(
                range_end(raw.low_value),
            ) + text_tokens(", high: "@) + number_tokens(range_end(raw.high_value)) + text_tokens(
                ", bits: "@ + decimal(bit_count_or(raw.bit_count, 32) as nat) + ")"@,
            ),
            SendPropType::Int => text_tokens(
                Self::path_text(raw) + "("@ + raw.prop_type.name_text() + ")(flags: "@ + flags_text(
                    raw.flags,
                ) + ", bits: "@ + decimal(bit_count_or(raw.bit_count, 32) as nat) + ")"@,
            ),
            SendPropType::String => text_tokens(
                Self::path_text(raw) + "("@ + raw.prop_type.name_text() + ")"@,
            ),
            SendPropType::Array => match raw.array_property {
                Some(inner) => text_tokens(
                    Self::path_text(raw) + "(["@ + inner.prop_type.name_text() + "("@ + flags_text(
                        inner.flags,
                    ) + ")] * "@ + decimal(
                        match raw.element_count {
                            Some(count) => count as nat,
                            None => 0,
                        },
                    ) + ")"@,
                ),
                None => text_tokens(raw.name + "(Malformed array)"@),
            },
            SendPropType::DataTable => match raw.table_name {
                Some(table) => text_tokens(Self::path_text(raw) + "(DataTable = "@ + table + ")"@),
                None => text_tokens(raw.name + "(Malformed DataTable)"@),
            },
            SendPropType::NumSendPropTypes => text_tokens(
                Self::path_text(raw) + "(NumSendPropTypes)"@,
            ),
        }
    }

    /// The table, two colons, and the name of the property.
    fn path(&self) -> (text: String)
        ensures
            text@ == Self::path_text(self@),
    {
        let mut text = String::from_str(self.owner_table.as_str());
        text.append("::");
        text.append(self.name.as_str());
        text
    }

    /// Writes the rendering of a number, or of a vector, whose bit count is
    /// rendered as `bits`.
    fn push_range(&self, fragments: &mut Vec<Fragment>, bits: u32)
        ensures
            tokens_of(final(fragments)@) == tokens_of(old(fragments)@) + text_tokens(
                Self::range_head_text(self@),
            ) + number_tokens(range_end(self@.low_value)) + text_tokens(", high: "@)
                + number_tokens(range_end(self@.high_value)) + text_tokens(
                ", bits: "@ + decimal(bits as nat) + ")"@,
            ),
    {
        let mut head = self.path();
        head.append("(");
        head.append(self.prop_type.name());
        head.append(")(flags: ");
        head.append(self.flags.to_string().as_str());
        head.append(", low: ");
        push_text(fragments, head);
        let low = match self.low_value {
            Some(pattern) => FloatValue::Exact(pattern),
            None => FloatValue::Exact(FloatBits { bits: 0 }),
        };
        push_number(fragments, low);
        push_text(fragments, String::from_str(", high: "));
        let high = match self.high_value {
            Some(pattern) => FloatValue::Exact(pattern),
            None => FloatValue::Exact(FloatBits { bits: 0 }),
        };
        push_number(fragments, high);
        let mut tail = String::from_str(", bits: ");
        append_decimal(&mut tail, bits as u64);
        tail.append(")");
        push_text(fragments, tail);
    }

    /// The record as text. The ends of a range are numbers that are left for
    /// the caller to print.
    pub fn display(&self) -> (fragments: Vec<Fragment>)
        ensures
            tokens_of(fragments@) == Self::rendering(self@),
    {
        let mut fragments: Vec<Fragment> = Vec::new();
        assert(tokens_of(fragments@) =~= Seq::<Token>::empty());
        match self.prop_type {
            SendPropType::Vector | SendPropType::VectorXY => {
                let bits = match self.bit_count {
                    Some(count) => count,
                    None => 96,
                };
                self.push_range(&mut fragments, bits / 3);
            },
            SendPropType::Float => {
                let bits = match self.bit_count {
                    Some(count) => count,
                    None => 32,
                };
                self.push_range(&mut fragments, bits);
            },
            SendPropType::Int => {
                let bits = match self.bit_count {
                    Some(count) => count,
                    None => 32,
                };
                let mut text = self.path();
                text.append("(");
                text.append(self.prop_type.name());
                text.append(")(flags: ");
                text.append(self.flags.to_string().as_str());
                text.append(", bits: ");
                append_decimal(&mut text, bits as u64);
                text.append(")");
                push_text(&mut fragments, text);
            },
            SendPropType::String => {
                let mut text = self.path();
                text.append("(");
                text.append(self.prop_type.name());
                text.append(")");
                push_text(&mut fragments, text);
            },
            SendPropType::Array => match &self.array_property {
                Some(inner) => {
                    let count = match self.element_count {
                        Some(count) => count,
                        None => 0,
                    };
                    let mut text = self.path();
                    text.append("([");
                    text.append(inner.prop_type.name());
                    text.append("(");
                    text.append(inner.flags.to_string().as_str());
                    text.append(")] * ");
                    append_decimal(&mut text, count as u64);
                    text.append(")");
                    push_text(&mut fragments, text);
                    assert(inner@.prop_type == inner.prop_type && inner@.flags == inner.flags@);
                },
                None => {
                    let mut text = String::from_str(self.name.as_str());
                    text.append("(Malformed array)");
                    push_text(&mut fragments, text);
                },
            },
            SendPropType::DataTable => match &self.table_name {
                Some(table) => {
                    let mut text = self.path();
                    text.append("(DataTable = ");
                    text.append(table.as_str());
                    text.append(")");
                    push_text(&mut fragments, text);
                },
                None => {
                    let mut text = String::from_str(self.name.as_str());
                    text.append("(Malformed DataTable)");
                    push_text(&mut fragments, text);
                },
            },
            SendPropType::NumSendPropTypes => {
                let mut text = self.path();
                text.append("(NumSendPropTypes)");
                push_text(&mut fragments, text);
            },
        }
        assert(tokens_of(fragments@) =~= Self::rendering(self@));
        fragments
    }
}

/// The rendering of a value.
///
/// A vector is rendered as its components in round brackets, with a comma and
/// a space between them, an integer in decimal digits, text as it is, and an
/// array as its elements in square brackets with nothing between them.
pub open spec fn value_rendering(value: ValueModel) -> Seq<Token>
    decreases value, 0nat,
{
    match value {
        ValueModel::Vector(vector) => text_tokens("("@) + number_tokens(vector.x) + text_tokens(
            ", "@,
        ) + number_tokens(vector.y) + text_tokens(", "@) + number_tokens(vector.z) + text_tokens(
            ")"@,
        ),
        ValueModel::VectorXY(vector) => text_tokens("("@) + number_tokens(vector.x) + text_tokens(
            ", "@,
        ) + number_tokens(vector.y) + text_tokens(")"@),
        ValueModel::Integer(number) => text_tokens(signed_decimal(number as int)),
        ValueModel::Float(number) => number_tokens(number),
        ValueModel::String(text) => text_tokens(text),
        ValueModel::Array(items) => text_tokens("["@) + values_rendering(items, items.len())
            + text_tokens("]"@),
    }
}

/// The renderings of the first `upto` of `items`, one after the other.
pub open spec fn values_rendering(items: Seq<ValueModel>, upto: nat) -> Seq<Token>
    decreases items, upto,
{
    if upto == 0 || upto > items.len() {
        Seq::empty()
    } else {
        values_rendering(items, (upto - 1) as nat) + value_rendering(items[upto - 1])
    }
}

impl SendPropValue {
    /// Writes the rendering of the value behind `fragments`.
    pub fn push_display(&self, fragments: &mut Vec<Fragment>)
        ensures
            tokens_of(final(fragments)@) == tokens_of(old(fragments)@) + value_rendering(self@),
        decreases self,
    {
        let ghost before = tokens_of(fragments@);
        match self {
            SendPropValue::Vector(vector) => {
                push_text(fragments, String::from_str("("));
                push_number(fragments, vector.x);
                push_text(fragments, String::from_str(", "));
                push_number(fragments, vector.y);
                push_text(fragments, String::from_str(", "));
                push_number(fragments, vector.z);
                push_text(fragments, String::from_str(")"));
            },
            SendPropValue::VectorXY(vector) => {
                push_text(fragments, String::from_str("("));
                push_number(fragments, vector.x);
                push_text(fragments, String::from_str(", "));
                push_number(fragments, vector.y);
                push_text(fragments, String::from_str(")"));
            },
            SendPropValue::Integer(number) => {
                let mut text = String::from_str("");
                proof {
                    reveal_strlit("");
                }
                append_signed_decimal(&mut text, *number);
                assert(text@ =~= signed_decimal(*number as int));
                push_text(fragments, text);
            },
            SendPropValue::Float(number) => {
                push_number(fragments, *number);
            },
            SendPropValue::String(text) => {
                push_text(fragments, text.clone());
            },
            SendPropValue::Array(items) => {
                push_text(fragments, String::from_str("["));
                let ghost models = self@->Array_0;
                let mut index: usize = 0;
                while index < items.len()
                    invariant
                        index <= items@.len(),
                        models.len() == items@.len(),
                        forall|at: int| 0 <= at < items@.len() ==> models[at] == items@[at]@,
                        forall|at: int|
                            0 <= at < items@.len() ==> decreases_to!(self => #[trigger] items@[at]),
                        tokens_of(fragments@) == before + text_tokens("["@) + values_rendering(
                            models,
                            index as nat,
                        ),
                    decreases items@.len() - index,
                {
                    let ghost so_far = tokens_of(fragments@);
                    items[index].push_display(fragments);
                    proof {
                        assert(so_far + value_rendering(models[index as int]) =~= before
                            + text_tokens("["@) + (values_rendering(models, index as nat)
                            + value_rendering(models[index as int])));
                    }
                    index = index + 1;
                }
                push_text(fragments, String::from_str("]"));
            },
        }
        assert(tokens_of(fragments@) =~= before + value_rendering(self@));
    }

    /// The value as text. Numbers that are no integers are left for the
    /// caller to print.
    pub fn display(&self) -> (fragments: Vec<Fragment>)
        ensures
            tokens_of(fragments@) == value_rendering(self@),
    {
        let mut fragments: Vec<Fragment> = Vec::new();
        self.push_display(&mut fragments);
        assert(tokens_of(fragments@) =~= value_rendering(self@));
        fragments
    }
}

impl SendProp {
    /// The property as text: its key, an equals sign, and its value.
    pub fn display(&self) -> (fragments: Vec<Fragment>)
        ensures
            tokens_of(fragments@) == text_tokens(decimal(self.index.0 as nat) + " = "@)
                + value_rendering(self.value@),
    {
        let mut fragments: Vec<Fragment> = Vec::new();
        let mut head = self.index.to_string();
        head.append(" = ");
        push_text(&mut fragments, head);
        self.value.push_display(&mut fragments);
        assert(tokens_of(fragments@) =~= text_tokens(decimal(self.index.0 as nat) + " = "@)
            + value_rendering(self.value@));
        fragments
    }
}

/// The text of a rendering that holds no number.
pub fn plain_text(fragments: &Vec<Fragment>) -> (text: Option<String>)
    ensures
        match text {
            Some(text) => tokens_of(fragments@) == text_tokens(text@),
            None => exists|index: int|
                0 <= index < fragments@.len() && fragments@[index] is Number,
        },
{
    let mut text = String::from_str("");
    let mut index: usize = 0;
    proof {
        reveal_strlit("");
        assert(tokens_of(fragments@.take(0)) =~= text_tokens(text@));
    }
    while index < fragments.len()
        invariant
            index <= fragments@.len(),
            tokens_of(fragments@.take(index as int)) == text_tokens(text@),
        decreases fragments@.len() - index,
    {
        let ghost before = text@;
        match &fragments[index] {
            Fragment::Text(piece) => {
                text.append(piece.as_str());
                proof {
                    let front = fragments@.take(index + 1);
                    assert(front.drop_last() =~= fragments@.take(index as int));
                    assert(front.last() == fragments@[index as int]);
                    lemma_text_tokens_concat(before, piece@);
                }
            },
            Fragment::Number(_) => {
                return None;
            },
        }
        index = index + 1;
    }
    assert(fragments@.take(index as int) =~= fragments@);
    Some(text)
}

impl SendPropIdentifier {
    /// The key in decimal digits.
    pub fn to_string(&self) -> (text: String)
        ensures
            text@ == decimal(self.0 as nat),
    {
        let mut text = String::from_str("");
        proof {
            reveal_strlit("");
        }
        append_decimal(&mut text, self.0);
        assert(text@ =~= decimal(self.0 as nat));
        text
    }
}

} // verus!

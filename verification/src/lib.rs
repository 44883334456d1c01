//! Decoding of entity properties from a bit stream, as laid down by the send
//! tables that come with a demo.
//!
//! A send table holds a record of each of its properties
//! ([`RawSendPropDefinition`]). A record is refined into a recipe
//! ([`SendPropParseDefinition`]), and the recipe decodes the values of the
//! property from the stream of an entity ([`SendPropValue::parse`]).
//!
//! Contracts are stated over the bits of the stream that are still unread, a
//! `Seq<bool>` in reading order: each read is a function from these bits to
//! what was read and what is left.

pub mod bits;
pub mod codec;
pub mod compare;
pub mod definition;
pub mod flags;
pub mod float;
pub mod identifier;
pub mod laws;
pub mod refine;
pub mod stream;
pub mod text;
pub mod value;

pub use crate::codec::{read_bit_coord, read_bit_coord_mp, read_bit_normal, read_var_int};
pub use crate::compare::FloatCheck;
pub use crate::definition::{ParseSendTable, RawSendPropDefinition, SendPropName, SendTableName};
pub use crate::flags::{SendPropFlag, SendPropFlags, SendPropType};
pub use crate::float::{FloatBits, FloatValue};
pub use crate::identifier::SendPropIdentifier;
pub use crate::refine::{
    log_base2, FloatDefinition, MalformedSendPropDefinitionError, SendPropDefinition,
    SendPropParseDefinition,
};
pub use crate::stream::{ReadError, Stream};
pub use crate::text::Fragment;
pub use crate::value::{ParseError, SendProp, SendPropValue, Vector, VectorXY};

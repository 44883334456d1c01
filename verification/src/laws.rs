//! What holds of decoding whatever the stream holds.

pub mod comparison;
pub mod cursor;
pub mod layout;
pub mod locality;
pub mod ranges;
pub mod records;

//! Conversions between the texts of a flat key/value store and typed values:
//! booleans, numbers, and delimited lists of them.

pub mod decimal;
pub mod integers;
pub mod list;
pub mod round_trip;
pub mod scalar;
pub mod strings;
pub mod tokens;

//! Conversion of ASCII numerals to fixed-width integers.
//!
//! A buffer of bytes is read as an optionally signed numeral in a radix
//! between 2 and 36. Every routine reports the value it accumulated, how many
//! bytes belong to the numeral, and whether the magnitude left the range of
//! the target type. Nothing allocates and nothing panics.

pub mod api;
pub mod atoi;
pub mod digit;
pub mod error;
pub mod integer;
pub mod laws;
pub mod notation;
pub mod numeral;
pub mod signed_ints;
pub mod unsigned_ints;

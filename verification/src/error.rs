//! The result of a checked conversion, and how a scan is classified.

use vstd::prelude::*;

verus! {

/// How a conversion ended.
#[derive(Clone, Copy, Debug, PartialEq, Eq, Structural)]
pub enum ErrorCode {
    /// The whole buffer was a numeral that fits the target type.
    Success,
    /// The magnitude left the range of the target type.
    Overflow,
    /// A byte that cannot extend the numeral came before the buffer ended.
    InvalidDigit,
    /// The buffer was empty.
    Empty,
}

/// An error code and the position in the buffer that it refers to.
#[derive(Clone, Copy, Debug, PartialEq, Eq, Structural)]
pub struct ParseError {
    pub code: ErrorCode,
    pub index: usize,
}

/// The value of a conversion, complete or partial, and how the conversion ended.
#[derive(Clone, Copy, Debug, PartialEq, Eq)]
pub struct Parsed<T> {
    pub value: T,
    pub error: ParseError,
}

/// The code that classifies a scan which processed `processed` bytes of a
/// buffer of `len` bytes and was truncated or not.
///
/// An empty buffer is `Empty`. Otherwise truncation is `Overflow`, whatever
/// was processed; otherwise an unprocessed rest is `InvalidDigit`; otherwise
/// the scan is a `Success`.
pub open spec fn error_code(processed: int, truncated: bool, len: int) -> ErrorCode {
    if len == 0 {
        ErrorCode::Empty
    } else if truncated {
        ErrorCode::Overflow
    } else if processed < len {
        ErrorCode::InvalidDigit
    } else {
        ErrorCode::Success
    }
}

/// The position that goes with `error_code`: the first unprocessed byte for
/// `InvalidDigit`, and zero for every other code.
pub open spec fn error_index(processed: int, truncated: bool, len: int) -> int {
    if error_code(processed, truncated, len) == ErrorCode::InvalidDigit {
        processed
    } else {
        0
    }
}

/// A successful conversion to `value`.
pub fn success<T>(value: T) -> (r: Parsed<T>)
    ensures
        r == (Parsed { value, error: ParseError { code: ErrorCode::Success, index: 0 } }),
{
    Parsed { value, error: ParseError { code: ErrorCode::Success, index: 0 } }
}

/// A conversion that overflowed and left `value`.
pub fn overflow_error<T>(value: T) -> (r: Parsed<T>)
    ensures
        r == (Parsed { value, error: ParseError { code: ErrorCode::Overflow, index: 0 } }),
{
    Parsed { value, error: ParseError { code: ErrorCode::Overflow, index: 0 } }
}

/// A conversion that stopped at the byte at `index` with `value` accumulated.
pub fn invalid_digit_error<T>(value: T, index: usize) -> (r: Parsed<T>)
    ensures
        r == (Parsed { value, error: ParseError { code: ErrorCode::InvalidDigit, index } }),
{
    Parsed { value, error: ParseError { code: ErrorCode::InvalidDigit, index } }
}

/// A conversion of an empty buffer, with `value` as its value.
pub fn empty_error<T>(value: T) -> (r: Parsed<T>)
    ensures
        r == (Parsed { value, error: ParseError { code: ErrorCode::Empty, index: 0 } }),
{
    Parsed { value, error: ParseError { code: ErrorCode::Empty, index: 0 } }
}

/// Classifies a scan of a buffer of `len` bytes that left `value`, processed
/// `processed` bytes and was truncated or not. Overflow outranks an invalid
/// digit.
pub fn classify<T>(value: T, processed: usize, truncated: bool, len: usize) -> (r: Parsed<T>)
    ensures
        r.value == value,
        r.error.code == error_code(processed as int, truncated, len as int),
        r.error.index == error_index(processed as int, truncated, len as int),
{
    if len == 0 {
        empty_error(value)
    } else if truncated {
        overflow_error(value)
    } else if processed < len {
        invalid_digit_error(value, processed)
    } else {
        success(value)
    }
}

} // verus!

//! The conversions for each integer width: lossy ones that give the wrapped
//! value alone, and checked ones that classify how the scan ended.

use crate::atoi::{signed, unsigned};
use crate::error::{classify, error_code, error_index, ErrorCode, Parsed};
use crate::integer::Integer;
use crate::notation::{is_truncated, numeral_len, numeral_value, unsigned_len};
use crate::numeral::Policy;
use vstd::prelude::*;

verus! {

/// The code of a checked conversion of `s` to an unsigned `T`.
pub open spec fn unsigned_code<T: Integer>(s: Seq<u8>, radix: int) -> ErrorCode {
    error_code(unsigned_len(s, radix) as int, is_truncated::<T>(s, radix), s.len() as int)
}

/// The position that a checked conversion of `s` to an unsigned `T` reports.
pub open spec fn unsigned_index<T: Integer>(s: Seq<u8>, radix: int) -> int {
    error_index(unsigned_len(s, radix) as int, is_truncated::<T>(s, radix), s.len() as int)
}

/// The code of a checked conversion of `s` to a signed `T`.
pub open spec fn signed_code<T: Integer>(s: Seq<u8>, radix: int) -> ErrorCode {
    error_code(numeral_len(s, radix) as int, is_truncated::<T>(s, radix), s.len() as int)
}

/// The position that a checked conversion of `s` to a signed `T` reports.
pub open spec fn signed_index<T: Integer>(s: Seq<u8>, radix: int) -> int {
    error_index(numeral_len(s, radix) as int, is_truncated::<T>(s, radix), s.len() as int)
}

/// Parses an 8-bit unsigned integer in `radix`, wrapping on overflow: the value, the
/// processed length and whether the magnitude overflowed.
pub fn atou8_impl(radix: u8, bytes: &[u8]) -> (r: (u8, usize, bool))
    requires
        2 <= radix <= 36,
    ensures
        r.0 == numeral_value::<u8>(Policy::Wrapping, bytes@, radix as int),
        r.1 <= bytes.len(),
        r.1 == unsigned_len(bytes@, radix as int),
        r.2 == is_truncated::<u8>(bytes@, radix as int),
{
    unsigned::<u8>(radix as u32, bytes, Policy::Wrapping)
}

/// The wrapped value of the decimal numeral at the front of `bytes`.
pub fn atou8_slice(bytes: &[u8]) -> (r: u8)
    ensures
        r == numeral_value::<u8>(Policy::Wrapping, bytes@, 10),
{
    atou8_impl(10, bytes).0
}

/// The wrapped value of the numeral in `radix` at the front of `bytes`.
pub fn atou8_radix_slice(radix: u8, bytes: &[u8]) -> (r: u8)
    requires
        2 <= radix <= 36,
    ensures
        r == numeral_value::<u8>(Policy::Wrapping, bytes@, radix as int),
{
    atou8_impl(radix, bytes).0
}

/// Converts a decimal numeral that must fill `bytes` and fit `u8`.
pub fn try_atou8_slice(bytes: &[u8]) -> (r: Parsed<u8>)
    ensures
        r.value == numeral_value::<u8>(Policy::Wrapping, bytes@, 10),
        r.error.code == unsigned_code::<u8>(bytes@, 10),
        r.error.index == unsigned_index::<u8>(bytes@, 10),
{
    let (value, processed, truncated) = atou8_impl(10, bytes);
    classify(value, processed, truncated, bytes.len())
}

/// Converts a numeral in `radix` that must fill `bytes` and fit `u8`.
pub fn try_atou8_radix_slice(radix: u8, bytes: &[u8]) -> (r: Parsed<u8>)
    requires
        2 <= radix <= 36,
    ensures
        r.value == numeral_value::<u8>(Policy::Wrapping, bytes@, radix as int),
        r.error.code == unsigned_code::<u8>(bytes@, radix as int),
        r.error.index == unsigned_index::<u8>(bytes@, radix as int),
{
    let (value, processed, truncated) = atou8_impl(radix, bytes);
    classify(value, processed, truncated, bytes.len())
}

/// Parses a 16-bit unsigned integer in `radix`, wrapping on overflow: the value, the
/// processed length and whether the magnitude overflowed.
pub fn atou16_impl(radix: u8, bytes: &[u8]) -> (r: (u16, usize, bool))
    requires
        2 <= radix <= 36,
    ensures
        r.0 == numeral_value::<u16>(Policy::Wrapping, bytes@, radix as int),
        r.1 <= bytes.len(),
        r.1 == unsigned_len(bytes@, radix as int),
        r.2 == is_truncated::<u16>(bytes@, radix as int),
{
    unsigned::<u16>(radix as u32, bytes, Policy::Wrapping)
}

/// The wrapped value of the decimal numeral at the front of `bytes`.
pub fn atou16_slice(bytes: &[u8]) -> (r: u16)
    ensures
        r == numeral_value::<u16>(Policy::Wrapping, bytes@, 10),
{
    atou16_impl(10, bytes).0
}

/// The wrapped value of the numeral in `radix` at the front of `bytes`.
pub fn atou16_radix_slice(radix: u8, bytes: &[u8]) -> (r: u16)
    requires
        2 <= radix <= 36,
    ensures
        r == numeral_value::<u16>(Policy::Wrapping, bytes@, radix as int),
{
    atou16_impl(radix, bytes).0
}

/// Converts a decimal numeral that must fill `bytes` and fit `u16`.
pub fn try_atou16_slice(bytes: &[u8]) -> (r: Parsed<u16>)
    ensures
        r.value == numeral_value::<u16>(Policy::Wrapping, bytes@, 10),
        r.error.code == unsigned_code::<u16>(bytes@, 10),
        r.error.index == unsigned_index::<u16>(bytes@, 10),
{
    let (value, processed, truncated) = atou16_impl(10, bytes);
    classify(value, processed, truncated, bytes.len())
}

/// Converts a numeral in `radix` that must fill `bytes` and fit `u16`.
pub fn try_atou16_radix_slice(radix: u8, bytes: &[u8]) -> (r: Parsed<u16>)
    requires
        2 <= radix <= 36,
    ensures
        r.value == numeral_value::<u16>(Policy::Wrapping, bytes@, radix as int),
        r.error.code == unsigned_code::<u16>(bytes@, radix as int),
        r.error.index == unsigned_index::<u16>(bytes@, radix as int),
{
    let (value, processed, truncated) = atou16_impl(radix, bytes);
    classify(value, processed, truncated, bytes.len())
}

/// Parses a 32-bit unsigned integer in `radix`, wrapping on overflow: the value, the
/// processed length and whether the magnitude overflowed.
pub fn atou32_impl(radix: u8, bytes: &[u8]) -> (r: (u32, usize, bool))
    requires
        2 <= radix <= 36,
    ensures
        r.0 == numeral_value::<u32>(Policy::Wrapping, bytes@, radix as int),
        r.1 <= bytes.len(),
        r.1 == unsigned_len(bytes@, radix as int),
        r.2 == is_truncated::<u32>(bytes@, radix as int),
{
    unsigned::<u32>(radix as u32, bytes, Policy::Wrapping)
}

/// The wrapped value of the decimal numeral at the front of `bytes`.
pub fn atou32_slice(bytes: &[u8]) -> (r: u32)
    ensures
        r == numeral_value::<u32>(Policy::Wrapping, bytes@, 10),
{
    atou32_impl(10, bytes).0
}

/// The wrapped value of the numeral in `radix` at the front of `bytes`.
pub fn atou32_radix_slice(radix: u8, bytes: &[u8]) -> (r: u32)
    requires
        2 <= radix <= 36,
    ensures
        r == numeral_value::<u32>(Policy::Wrapping, bytes@, radix as int),
{
    atou32_impl(radix, bytes).0
}

/// Converts a decimal numeral that must fill `bytes` and fit `u32`.
pub fn try_atou32_slice(bytes: &[u8]) -> (r: Parsed<u32>)
    ensures
        r.value == numeral_value::<u32>(Policy::Wrapping, bytes@, 10),
        r.error.code == unsigned_code::<u32>(bytes@, 10),
        r.error.index == unsigned_index::<u32>(bytes@, 10),
{
    let (value, processed, truncated) = atou32_impl(10, bytes);
    classify(value, processed, truncated, bytes.len())
}

/// Converts a numeral in `radix` that must fill `bytes` and fit `u32`.
pub fn try_atou32_radix_slice(radix: u8, bytes: &[u8]) -> (r: Parsed<u32>)
    requires
        2 <= radix <= 36,
    ensures
        r.value == numeral_value::<u32>(Policy::Wrapping, bytes@, radix as int),
        r.error.code == unsigned_code::<u32>(bytes@, radix as int),
        r.error.index == unsigned_index::<u32>(bytes@, radix as int),
{
    let (value, processed, truncated) = atou32_impl(radix, bytes);
    classify(value, processed, truncated, bytes.len())
}

/// Parses a 64-bit unsigned integer in `radix`, wrapping on overflow: the value, the
/// processed length and whether the magnitude overflowed.
pub fn atou64_impl(radix: u8, bytes: &[u8]) -> (r: (u64, usize, bool))
    requires
        2 <= radix <= 36,
    ensures
        r.0 == numeral_value::<u64>(Policy::Wrapping, bytes@, radix as int),
        r.1 <= bytes.len(),
        r.1 == unsigned_len(bytes@, radix as int),
        r.2 == is_truncated::<u64>(bytes@, radix as int),
{
    unsigned::<u64>(radix as u32, bytes, Policy::Wrapping)
}

/// The wrapped value of the decimal numeral at the front of `bytes`.
pub fn atou64_slice(bytes: &[u8]) -> (r: u64)
    ensures
        r == numeral_value::<u64>(Policy::Wrapping, bytes@, 10),
{
    atou64_impl(10, bytes).0
}

/// The wrapped value of the numeral in `radix` at the front of `bytes`.
pub fn atou64_radix_slice(radix: u8, bytes: &[u8]) -> (r: u64)
    requires
        2 <= radix <= 36,
    ensures
        r == numeral_value::<u64>(Policy::Wrapping, bytes@, radix as int),
{
    atou64_impl(radix, bytes).0
}

/// Converts a decimal numeral that must fill `bytes` and fit `u64`.
pub fn try_atou64_slice(bytes: &[u8]) -> (r: Parsed<u64>)
    ensures
        r.value == numeral_value::<u64>(Policy::Wrapping, bytes@, 10),
        r.error.code == unsigned_code::<u64>(bytes@, 10),
        r.error.index == unsigned_index::<u64>(bytes@, 10),
{
    let (value, processed, truncated) = atou64_impl(10, bytes);
    classify(value, processed, truncated, bytes.len())
}

/// Converts a numeral in `radix` that must fill `bytes` and fit `u64`.
pub fn try_atou64_radix_slice(radix: u8, bytes: &[u8]) -> (r: Parsed<u64>)
    requires
        2 <= radix <= 36,
    ensures
        r.value == numeral_value::<u64>(Policy::Wrapping, bytes@, radix as int),
        r.error.code == unsigned_code::<u64>(bytes@, radix as int),
        r.error.index == unsigned_index::<u64>(bytes@, radix as int),
{
    let (value, processed, truncated) = atou64_impl(radix, bytes);
    classify(value, processed, truncated, bytes.len())
}

/// Parses a 128-bit unsigned integer in `radix`, wrapping on overflow: the value, the
/// processed length and whether the magnitude overflowed.
pub fn atou128_impl(radix: u8, bytes: &[u8]) -> (r: (u128, usize, bool))
    requires
        2 <= radix <= 36,
    ensures
        r.0 == numeral_value::<u128>(Policy::Wrapping, bytes@, radix as int),
        r.1 <= bytes.len(),
        r.1 == unsigned_len(bytes@, radix as int),
        r.2 == is_truncated::<u128>(bytes@, radix as int),
{
    unsigned::<u128>(radix as u32, bytes, Policy::Wrapping)
}

/// The wrapped value of the decimal numeral at the front of `bytes`.
pub fn atou128_slice(bytes: &[u8]) -> (r: u128)
    ensures
        r == numeral_value::<u128>(Policy::Wrapping, bytes@, 10),
{
    atou128_impl(10, bytes).0
}

/// The wrapped value of the numeral in `radix` at the front of `bytes`.
pub fn atou128_radix_slice(radix: u8, bytes: &[u8]) -> (r: u128)
    requires
        2 <= radix <= 36,
    ensures
        r == numeral_value::<u128>(Policy::Wrapping, bytes@, radix as int),
{
    atou128_impl(radix, bytes).0
}

/// Converts a decimal numeral that must fill `bytes` and fit `u128`.
pub fn try_atou128_slice(bytes: &[u8]) -> (r: Parsed<u128>)
    ensures
        r.value == numeral_value::<u128>(Policy::Wrapping, bytes@, 10),
        r.error.code == unsigned_code::<u128>(bytes@, 10),
        r.error.index == unsigned_index::<u128>(bytes@, 10),
{
    let (value, processed, truncated) = atou128_impl(10, bytes);
    classify(value, processed, truncated, bytes.len())
}

/// Converts a numeral in `radix` that must fill `bytes` and fit `u128`.
pub fn try_atou128_radix_slice(radix: u8, bytes: &[u8]) -> (r: Parsed<u128>)
    requires
        2 <= radix <= 36,
    ensures
        r.value == numeral_value::<u128>(Policy::Wrapping, bytes@, radix as int),
        r.error.code == unsigned_code::<u128>(bytes@, radix as int),
        r.error.index == unsigned_index::<u128>(bytes@, radix as int),
{
    let (value, processed, truncated) = atou128_impl(radix, bytes);
    classify(value, processed, truncated, bytes.len())
}

/// Parses a pointer-sized unsigned integer in `radix`, wrapping on overflow: the value, the
/// processed length and whether the magnitude overflowed.
pub fn atousize_impl(radix: u8, bytes: &[u8]) -> (r: (usize, usize, bool))
    requires
        2 <= radix <= 36,
    ensures
        r.0 == numeral_value::<usize>(Policy::Wrapping, bytes@, radix as int),
        r.1 <= bytes.len(),
        r.1 == unsigned_len(bytes@, radix as int),
        r.2 == is_truncated::<usize>(bytes@, radix as int),
{
    unsigned::<usize>(radix as u32, bytes, Policy::Wrapping)
}

/// The wrapped value of the decimal numeral at the front of `bytes`.
pub fn atousize_slice(bytes: &[u8]) -> (r: usize)
    ensures
        r == numeral_value::<usize>(Policy::Wrapping, bytes@, 10),
{
    atousize_impl(10, bytes).0
}

/// The wrapped value of the numeral in `radix` at the front of `bytes`.
pub fn atousize_radix_slice(radix: u8, bytes: &[u8]) -> (r: usize)
    requires
        2 <= radix <= 36,
    ensures
        r == numeral_value::<usize>(Policy::Wrapping, bytes@, radix as int),
{
    atousize_impl(radix, bytes).0
}

/// Converts a decimal numeral that must fill `bytes` and fit `usize`.
pub fn try_atousize_slice(bytes: &[u8]) -> (r: Parsed<usize>)
    ensures
        r.value == numeral_value::<usize>(Policy::Wrapping, bytes@, 10),
        r.error.code == unsigned_code::<usize>(bytes@, 10),
        r.error.index == unsigned_index::<usize>(bytes@, 10),
{
    let (value, processed, truncated) = atousize_impl(10, bytes);
    classify(value, processed, truncated, bytes.len())
}

/// Converts a numeral in `radix` that must fill `bytes` and fit `usize`.
pub fn try_atousize_radix_slice(radix: u8, bytes: &[u8]) -> (r: Parsed<usize>)
    requires
        2 <= radix <= 36,
    ensures
        r.value == numeral_value::<usize>(Policy::Wrapping, bytes@, radix as int),
        r.error.code == unsigned_code::<usize>(bytes@, radix as int),
        r.error.index == unsigned_index::<usize>(bytes@, radix as int),
{
    let (value, processed, truncated) = atousize_impl(radix, bytes);
    classify(value, processed, truncated, bytes.len())
}

/// Parses an 8-bit signed integer in `radix`, wrapping on overflow: the value, the
/// processed length and whether the magnitude overflowed.
pub fn atoi8_impl(radix: u8, bytes: &[u8]) -> (r: (i8, usize, bool))
    requires
        2 <= radix <= 36,
    ensures
        r.0 == numeral_value::<i8>(Policy::Wrapping, bytes@, radix as int),
        r.1 <= bytes.len(),
        r.1 == numeral_len(bytes@, radix as int),
        r.2 == is_truncated::<i8>(bytes@, radix as int),
{
    signed::<i8>(radix as u32, bytes, Policy::Wrapping)
}

/// The wrapped value of the decimal numeral at the front of `bytes`.
pub fn atoi8_slice(bytes: &[u8]) -> (r: i8)
    ensures
        r == numeral_value::<i8>(Policy::Wrapping, bytes@, 10),
{
    atoi8_impl(10, bytes).0
}

/// The wrapped value of the numeral in `radix` at the front of `bytes`.
pub fn atoi8_radix_slice(radix: u8, bytes: &[u8]) -> (r: i8)
    requires
        2 <= radix <= 36,
    ensures
        r == numeral_value::<i8>(Policy::Wrapping, bytes@, radix as int),
{
    atoi8_impl(radix, bytes).0
}

/// Converts a decimal numeral that must fill `bytes` and fit `i8`.
pub fn try_atoi8_slice(bytes: &[u8]) -> (r: Parsed<i8>)
    ensures
        r.value == numeral_value::<i8>(Policy::Wrapping, bytes@, 10),
        r.error.code == signed_code::<i8>(bytes@, 10),
        r.error.index == signed_index::<i8>(bytes@, 10),
{
    let (value, processed, truncated) = atoi8_impl(10, bytes);
    classify(value, processed, truncated, bytes.len())
}

/// Converts a numeral in `radix` that must fill `bytes` and fit `i8`.
pub fn try_atoi8_radix_slice(radix: u8, bytes: &[u8]) -> (r: Parsed<i8>)
    requires
        2 <= radix <= 36,
    ensures
        r.value == numeral_value::<i8>(Policy::Wrapping, bytes@, radix as int),
        r.error.code == signed_code::<i8>(bytes@, radix as int),
        r.error.index == signed_index::<i8>(bytes@, radix as int),
{
    let (value, processed, truncated) = atoi8_impl(radix, bytes);
    classify(value, processed, truncated, bytes.len())
}

/// Parses a 16-bit signed integer in `radix`, wrapping on overflow: the value, the
/// processed length and whether the magnitude overflowed.
pub fn atoi16_impl(radix: u8, bytes: &[u8]) -> (r: (i16, usize, bool))
    requires
        2 <= radix <= 36,
    ensures
        r.0 == numeral_value::<i16>(Policy::Wrapping, bytes@, radix as int),
        r.1 <= bytes.len(),
        r.1 == numeral_len(bytes@, radix as int),
        r.2 == is_truncated::<i16>(bytes@, radix as int),
{
    signed::<i16>(radix as u32, bytes, Policy::Wrapping)
}

/// The wrapped value of the decimal numeral at the front of `bytes`.
pub fn atoi16_slice(bytes: &[u8]) -> (r: i16)
    ensures
        r == numeral_value::<i16>(Policy::Wrapping, bytes@, 10),
{
    atoi16_impl(10, bytes).0
}

/// The wrapped value of the numeral in `radix` at the front of `bytes`.
pub fn atoi16_radix_slice(radix: u8, bytes: &[u8]) -> (r: i16)
    requires
        2 <= radix <= 36,
    ensures
        r == numeral_value::<i16>(Policy::Wrapping, bytes@, radix as int),
{
    atoi16_impl(radix, bytes).0
}

/// Converts a decimal numeral that must fill `bytes` and fit `i16`.
pub fn try_atoi16_slice(bytes: &[u8]) -> (r: Parsed<i16>)
    ensures
        r.value == numeral_value::<i16>(Policy::Wrapping, bytes@, 10),
        r.error.code == signed_code::<i16>(bytes@, 10),
        r.error.index == signed_index::<i16>(bytes@, 10),
{
    let (value, processed, truncated) = atoi16_impl(10, bytes);
    classify(value, processed, truncated, bytes.len())
}

/// Converts a numeral in `radix` that must fill `bytes` and fit `i16`.
pub fn try_atoi16_radix_slice(radix: u8, bytes: &[u8]) -> (r: Parsed<i16>)
    requires
        2 <= radix <= 36,
    ensures
        r.value == numeral_value::<i16>(Policy::Wrapping, bytes@, radix as int),
        r.error.code == signed_code::<i16>(bytes@, radix as int),
        r.error.index == signed_index::<i16>(bytes@, radix as int),
{
    let (value, processed, truncated) = atoi16_impl(radix, bytes);
    classify(value, processed, truncated, bytes.len())
}

/// Parses a 32-bit signed integer in `radix`, wrapping on overflow: the value, the
/// processed length and whether the magnitude overflowed.
pub fn atoi32_impl(radix: u8, bytes: &[u8]) -> (r: (i32, usize, bool))
    requires
        2 <= radix <= 36,
    ensures
        r.0 == numeral_value::<i32>(Policy::Wrapping, bytes@, radix as int),
        r.1 <= bytes.len(),
        r.1 == numeral_len(bytes@, radix as int),
        r.2 == is_truncated::<i32>(bytes@, radix as int),
{
    signed::<i32>(radix as u32, bytes, Policy::Wrapping)
}

/// The wrapped value of the decimal numeral at the front of `bytes`.
pub fn atoi32_slice(bytes: &[u8]) -> (r: i32)
    ensures
        r == numeral_value::<i32>(Policy::Wrapping, bytes@, 10),
{
    atoi32_impl(10, bytes).0
}

/// The wrapped value of the numeral in `radix` at the front of `bytes`.
pub fn atoi32_radix_slice(radix: u8, bytes: &[u8]) -> (r: i32)
    requires
        2 <= radix <= 36,
    ensures
        r == numeral_value::<i32>(Policy::Wrapping, bytes@, radix as int),
{
    atoi32_impl(radix, bytes).0
}

/// Converts a decimal numeral that must fill `bytes` and fit `i32`.
pub fn try_atoi32_slice(bytes: &[u8]) -> (r: Parsed<i32>)
    ensures
        r.value == numeral_value::<i32>(Policy::Wrapping, bytes@, 10),
        r.error.code == signed_code::<i32>(bytes@, 10),
        r.error.index == signed_index::<i32>(bytes@, 10),
{
    let (value, processed, truncated) = atoi32_impl(10, bytes);
    classify(value, processed, truncated, bytes.len())
}

/// Converts a numeral in `radix` that must fill `bytes` and fit `i32`.
pub fn try_atoi32_radix_slice(radix: u8, bytes: &[u8]) -> (r: Parsed<i32>)
    requires
        2 <= radix <= 36,
    ensures
        r.value == numeral_value::<i32>(Policy::Wrapping, bytes@, radix as int),
        r.error.code == signed_code::<i32>(bytes@, radix as int),
        r.error.index == signed_index::<i32>(bytes@, radix as int),
{
    let (value, processed, truncated) = atoi32_impl(radix, bytes);
    classify(value, processed, truncated, bytes.len())
}

/// Parses a 64-bit signed integer in `radix`, wrapping on overflow: the value, the
/// processed length and whether the magnitude overflowed.
pub fn atoi64_impl(radix: u8, bytes: &[u8]) -> (r: (i64, usize, bool))
    requires
        2 <= radix <= 36,
    ensures
        r.0 == numeral_value::<i64>(Policy::Wrapping, bytes@, radix as int),
        r.1 <= bytes.len(),
        r.1 == numeral_len(bytes@, radix as int),
        r.2 == is_truncated::<i64>(bytes@, radix as int),
{
    signed::<i64>(radix as u32, bytes, Policy::Wrapping)
}

/// The wrapped value of the decimal numeral at the front of `bytes`.
pub fn atoi64_slice(bytes: &[u8]) -> (r: i64)
    ensures
        r == numeral_value::<i64>(Policy::Wrapping, bytes@, 10),
{
    atoi64_impl(10, bytes).0
}

/// The wrapped value of the numeral in `radix` at the front of `bytes`.
pub fn atoi64_radix_slice(radix: u8, bytes: &[u8]) -> (r: i64)
    requires
        2 <= radix <= 36,
    ensures
        r == numeral_value::<i64>(Policy::Wrapping, bytes@, radix as int),
{
    atoi64_impl(radix, bytes).0
}

/// Converts a decimal numeral that must fill `bytes` and fit `i64`.
pub fn try_atoi64_slice(bytes: &[u8]) -> (r: Parsed<i64>)
    ensures
        r.value == numeral_value::<i64>(Policy::Wrapping, bytes@, 10),
        r.error.code == signed_code::<i64>(bytes@, 10),
        r.error.index == signed_index::<i64>(bytes@, 10),
{
    let (value, processed, truncated) = atoi64_impl(10, bytes);
    classify(value, processed, truncated, bytes.len())
}

/// Converts a numeral in `radix` that must fill `bytes` and fit `i64`.
pub fn try_atoi64_radix_slice(radix: u8, bytes: &[u8]) -> (r: Parsed<i64>)
    requires
        2 <= radix <= 36,
    ensures
        r.value == numeral_value::<i64>(Policy::Wrapping, bytes@, radix as int),
        r.error.code == signed_code::<i64>(bytes@, radix as int),
        r.error.index == signed_index::<i64>(bytes@, radix as int),
{
    let (value, processed, truncated) = atoi64_impl(radix, bytes);
    classify(value, processed, truncated, bytes.len())
}

/// Parses a 128-bit signed integer in `radix`, wrapping on overflow: the value, the
/// processed length and whether the magnitude overflowed.
pub fn atoi128_impl(radix: u8, bytes: &[u8]) -> (r: (i128, usize, bool))
    requires
        2 <= radix <= 36,
    ensures
        r.0 == numeral_value::<i128>(Policy::Wrapping, bytes@, radix as int),
        r.1 <= bytes.len(),
        r.1 == numeral_len(bytes@, radix as int),
        r.2 == is_truncated::<i128>(bytes@, radix as int),
{
    signed::<i128>(radix as u32, bytes, Policy::Wrapping)
}

/// The wrapped value of the decimal numeral at the front of `bytes`.
pub fn atoi128_slice(bytes: &[u8]) -> (r: i128)
    ensures
        r == numeral_value::<i128>(Policy::Wrapping, bytes@, 10),
{
    atoi128_impl(10, bytes).0
}

/// The wrapped value of the numeral in `radix` at the front of `bytes`.
pub fn atoi128_radix_slice(radix: u8, bytes: &[u8]) -> (r: i128)
    requires
        2 <= radix <= 36,
    ensures
        r == numeral_value::<i128>(Policy::Wrapping, bytes@, radix as int),
{
    atoi128_impl(radix, bytes).0
}

/// Converts a decimal numeral that must fill `bytes` and fit `i128`.
pub fn try_atoi128_slice(bytes: &[u8]) -> (r: Parsed<i128>)
    ensures
        r.value == numeral_value::<i128>(Policy::Wrapping, bytes@, 10),
        r.error.code == signed_code::<i128>(bytes@, 10),
        r.error.index == signed_index::<i128>(bytes@, 10),
{
    let (value, processed, truncated) = atoi128_impl(10, bytes);
    classify(value, processed, truncated, bytes.len())
}

/// Converts a numeral in `radix` that must fill `bytes` and fit `i128`.
pub fn try_atoi128_radix_slice(radix: u8, bytes: &[u8]) -> (r: Parsed<i128>)
    requires
        2 <= radix <= 36,
    ensures
        r.value == numeral_value::<i128>(Policy::Wrapping, bytes@, radix as int),
        r.error.code == signed_code::<i128>(bytes@, radix as int),
        r.error.index == signed_index::<i128>(bytes@, radix as int),
{
    let (value, processed, truncated) = atoi128_impl(radix, bytes);
    classify(value, processed, truncated, bytes.len())
}

/// Parses a pointer-sized signed integer in `radix`, wrapping on overflow: the value, the
/// processed length and whether the magnitude overflowed.
pub fn atoisize_impl(radix: u8, bytes: &[u8]) -> (r: (isize, usize, bool))
    requires
        2 <= radix <= 36,
    ensures
        r.0 == numeral_value::<isize>(Policy::Wrapping, bytes@, radix as int),
        r.1 <= bytes.len(),
        r.1 == numeral_len(bytes@, radix as int),
        r.2 == is_truncated::<isize>(bytes@, radix as int),
{
    signed::<isize>(radix as u32, bytes, Policy::Wrapping)
}

/// The wrapped value of the decimal numeral at the front of `bytes`.
pub fn atoisize_slice(bytes: &[u8]) -> (r: isize)
    ensures
        r == numeral_value::<isize>(Policy::Wrapping, bytes@, 10),
{
    atoisize_impl(10, bytes).0
}

/// The wrapped value of the numeral in `radix` at the front of `bytes`.
pub fn atoisize_radix_slice(radix: u8, bytes: &[u8]) -> (r: isize)
    requires
        2 <= radix <= 36,
    ensures
        r == numeral_value::<isize>(Policy::Wrapping, bytes@, radix as int),
{
    atoisize_impl(radix, bytes).0
}

/// Converts a decimal numeral that must fill `bytes` and fit `isize`.
pub fn try_atoisize_slice(bytes: &[u8]) -> (r: Parsed<isize>)
    ensures
        r.value == numeral_value::<isize>(Policy::Wrapping, bytes@, 10),
        r.error.code == signed_code::<isize>(bytes@, 10),
        r.error.index == signed_index::<isize>(bytes@, 10),
{
    let (value, processed, truncated) = atoisize_impl(10, bytes);
    classify(value, processed, truncated, bytes.len())
}

/// Converts a numeral in `radix` that must fill `bytes` and fit `isize`.
pub fn try_atoisize_radix_slice(radix: u8, bytes: &[u8]) -> (r: Parsed<isize>)
    requires
        2 <= radix <= 36,
    ensures
        r.value == numeral_value::<isize>(Policy::Wrapping, bytes@, radix as int),
        r.error.code == signed_code::<isize>(bytes@, radix as int),
        r.error.index == signed_index::<isize>(bytes@, radix as int),
{
    let (value, processed, truncated) = atoisize_impl(radix, bytes);
    classify(value, processed, truncated, bytes.len())
}

} // verus!

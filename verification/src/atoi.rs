//! The accumulation loops, and the parsers that handle zeros and signs
//! around them.

use crate::digit::{
    char_to_digit,
    digit_in,
    digit_run,
    equal_to,
    lemma_run_length,
    lemma_run_length_bounds,
    ltrim_char_slice,
    ASCII_0,
};
use crate::integer::{lemma_wrap_in_range, Integer, SignedInteger, UnsignedInteger};
use crate::notation::{
    is_truncated,
    magnitude,
    magnitude_len,
    magnitude_overflow,
    numeral_len,
    numeral_magnitude,
    numeral_overflow,
    numeral_value,
    sign_of,
    unsigned_len,
    Sign,
    ASCII_MINUS,
    ASCII_PLUS,
};
use crate::numeral::{
    extend,
    first_overflow,
    frozen,
    lemma_extend_push,
    lemma_wrap_step,
    position,
    wrapped,
    Policy,
};
use vstd::prelude::*;

verus! {

/// Accumulates the digits at the front of `bytes` into `value`, wrapping on
/// overflow.
///
/// Returns the number of digits read and the position of the first digit at
/// which the accumulation overflowed. Reading goes on after an overflow, up to
/// the first byte that is no digit in `radix`.
pub fn unchecked<T: Integer>(value: &mut T, radix: T, bytes: &[u8]) -> (r: (usize, Option<usize>))
    ensures
        r.0 <= bytes.len(),
        r.0 == digit_run(bytes@, radix.as_int()),
        r.1.is_some() ==> r.1.unwrap() < r.0,
        position(r.1) == first_overflow::<T>(
            old(value).as_int(),
            bytes@.take(r.0 as int),
            radix.as_int(),
        ),
        final(value).as_int() == wrapped::<T>(
            old(value).as_int(),
            bytes@.take(r.0 as int),
            radix.as_int(),
        ),
{
    let ghost start = value.as_int();
    let ghost base = radix.as_int();
    let mut truncated: Option<usize> = None;
    let mut i: usize = 0;
    proof {
        T::lemma_bounded(*value);
        lemma_wrap_in_range::<T>(start);
    }
    while i < bytes.len()
        invariant
            i <= bytes.len(),
            start == old(value).as_int(),
            base == radix.as_int(),
            forall|j: int| 0 <= j < i ==> digit_in(base)(#[trigger] bytes@[j]),
            position(truncated) == first_overflow::<T>(start, bytes@.take(i as int), base),
            value.as_int() == wrapped::<T>(start, bytes@.take(i as int), base),
            truncated.is_none() ==> value.as_int() == extend(start, bytes@.take(i as int), base),
            truncated.is_some() ==> truncated.unwrap() < i,
        decreases bytes.len() - i,
    {
        let digit = T::from_small(char_to_digit(bytes[i]));
        if digit.less_than(radix) {
            let ghost before = extend(start, bytes@.take(i as int), base);
            let (v, o1) = value.overflowing_mul(radix);
            let (v, o2) = v.overflowing_add(digit);
            proof {
                lemma_extend_push(start, bytes@, base, i as int);
                lemma_wrap_step::<T>(before, base, digit.as_int());
                if truncated.is_none() && !o1 {
                    lemma_wrap_in_range::<T>(before * base);
                }
                if truncated.is_none() && !o1 && !o2 {
                    lemma_wrap_in_range::<T>(before * base + digit.as_int());
                }
            }
            *value = v;
            if truncated.is_none() && (o1 || o2) {
                truncated = Some(i);
            }
        } else {
            proof {
                lemma_run_length(bytes@, digit_in(base), i as int);
            }
            return (i, truncated);
        }
        i += 1;
    }
    proof {
        lemma_run_length(bytes@, digit_in(base), i as int);
    }
    (bytes.len(), truncated)
}

/// Accumulates the digits at the front of `bytes` into `value`, and stops
/// changing `value` at the first digit that would overflow it.
///
/// Returns the number of digits read and the position of the first digit at
/// which the accumulation overflowed. Reading goes on after an overflow, up to
/// the first byte that is no digit in `radix`.
pub fn checked<T: Integer>(value: &mut T, radix: T, bytes: &[u8]) -> (r: (usize, Option<usize>))
    ensures
        r.0 <= bytes.len(),
        r.0 == digit_run(bytes@, radix.as_int()),
        r.1.is_some() ==> r.1.unwrap() < r.0,
        position(r.1) == first_overflow::<T>(
            old(value).as_int(),
            bytes@.take(r.0 as int),
            radix.as_int(),
        ),
        final(value).as_int() == frozen::<T>(
            old(value).as_int(),
            bytes@.take(r.0 as int),
            radix.as_int(),
        ),
{
    let ghost start = value.as_int();
    let ghost base = radix.as_int();
    let mut truncated: Option<usize> = None;
    let mut i: usize = 0;
    while i < bytes.len()
        invariant
            i <= bytes.len(),
            start == old(value).as_int(),
            base == radix.as_int(),
            forall|j: int| 0 <= j < i ==> digit_in(base)(#[trigger] bytes@[j]),
            position(truncated) == first_overflow::<T>(start, bytes@.take(i as int), base),
            value.as_int() == frozen::<T>(start, bytes@.take(i as int), base),
            truncated.is_some() ==> truncated.unwrap() < i,
        decreases bytes.len() - i,
    {
        let digit = T::from_small(char_to_digit(bytes[i]));
        if digit.less_than(radix) {
            proof {
                lemma_extend_push(start, bytes@, base, i as int);
            }
            if truncated.is_none() {
                let sum = match value.checked_mul(radix) {
                    Some(product) => product.checked_add(digit),
                    None => None,
                };
                match sum {
                    Some(v) => *value = v,
                    None => truncated = Some(i),
                }
            } else {
                proof {
                    let k = truncated.unwrap() as int;
                    assert(bytes@.take(i + 1).take(k) =~= bytes@.take(i as int).take(k));
                }
            }
        } else {
            proof {
                lemma_run_length(bytes@, digit_in(base), i as int);
            }
            return (i, truncated);
        }
        i += 1;
    }
    proof {
        lemma_run_length(bytes@, digit_in(base), i as int);
    }
    (bytes.len(), truncated)
}

/// Parses an unsigned numeral: skips its leading zeros and accumulates the
/// digits behind them under `policy`.
///
/// Returns the value, the number of bytes read and the position of the first
/// digit at which the accumulation overflowed.
pub fn value<T: Integer>(radix: u32, bytes: &[u8], policy: Policy) -> (r: (T, usize, Option<usize>))
    requires
        2 <= radix <= 36,
    ensures
        r.0.as_int() == magnitude::<T>(policy, bytes@, radix as int),
        r.1 <= bytes.len(),
        r.1 == magnitude_len(bytes@, radix as int),
        r.2.is_some() ==> r.2.unwrap() < r.1,
        position(r.2) == magnitude_overflow::<T>(bytes@, radix as int),
{
    let (rest, count) = ltrim_char_slice(bytes, ASCII_0);
    let mut value: T = T::zero();
    let base = T::from_small(radix as u8);
    let (len, truncated) = match policy {
        Policy::Wrapping => unchecked(&mut value, base, rest),
        Policy::Checked => checked(&mut value, base, rest),
    };
    proof {
        lemma_run_length_bounds(bytes@, equal_to(ASCII_0));
        assert(base.as_int() == radix);
        assert(len <= rest@.len() == bytes.len() - count);
    }
    let marker = match truncated {
        Some(k) => Some(k + count),
        None => None,
    };
    (value, len + count, marker)
}

/// Reads an optional sign and parses what follows it as an unsigned numeral.
///
/// Returns the accumulated magnitude, the sign, the number of bytes read with
/// the sign included, and the position of the first digit at which the
/// accumulation overflowed. Where nothing follows the sign, the magnitude and
/// the number of bytes read are zero.
pub fn filter_sign<T: Integer>(radix: u32, bytes: &[u8], policy: Policy) -> (r: (
    T,
    Sign,
    usize,
    Option<usize>,
))
    requires
        2 <= radix <= 36,
    ensures
        r.0.as_int() == numeral_magnitude::<T>(policy, bytes@, radix as int),
        r.1 == sign_of(bytes@),
        r.2 <= bytes.len(),
        r.2 == numeral_len(bytes@, radix as int),
        r.3.is_some() ==> r.3.unwrap() < r.2,
        position(r.3) == numeral_overflow::<T>(bytes@, radix as int),
{
    let (sign_bytes, sign): (usize, Sign) = if bytes.len() > 0 && bytes[0] == ASCII_PLUS {
        (1, Sign::Positive)
    } else if bytes.len() > 0 && bytes[0] == ASCII_MINUS {
        (1, Sign::Negative)
    } else {
        (0, Sign::Positive)
    };
    if bytes.len() > sign_bytes {
        let rest = vstd::slice::slice_subrange(bytes, sign_bytes, bytes.len());
        let (magnitude, len, truncated) = value::<T>(radix, rest, policy);
        let marker = match truncated {
            Some(k) => Some(sign_bytes + k),
            None => None,
        };
        (magnitude, sign, sign_bytes + len, marker)
    } else {
        (T::zero(), sign, 0, None)
    }
}

/// Parses a numeral for an unsigned target.
///
/// A negative numeral gives the two's-complement negation of its magnitude
/// and a processed length of zero. Returns the value, the processed length
/// and whether the magnitude overflowed `T`.
pub fn unsigned<T: UnsignedInteger>(radix: u32, bytes: &[u8], policy: Policy) -> (r: (
    T,
    usize,
    bool,
))
    requires
        2 <= radix <= 36,
    ensures
        r.0.as_int() == numeral_value::<T>(policy, bytes@, radix as int),
        r.1 <= bytes.len(),
        r.1 == unsigned_len(bytes@, radix as int),
        r.2 == is_truncated::<T>(bytes@, radix as int),
{
    let (magnitude, sign, processed, truncated) = filter_sign::<T>(radix, bytes, policy);
    match sign {
        Sign::Negative => (magnitude.wrapping_neg(), 0, truncated.is_some()),
        Sign::Positive => (magnitude, processed, truncated.is_some()),
    }
}

/// Parses a numeral for a signed target.
///
/// A negative numeral gives the two's-complement negation of its magnitude.
/// Returns the value, the number of bytes read with the sign included, and
/// whether the magnitude overflowed `T`.
pub fn signed<T: SignedInteger>(radix: u32, bytes: &[u8], policy: Policy) -> (r: (T, usize, bool))
    requires
        2 <= radix <= 36,
    ensures
        r.0.as_int() == numeral_value::<T>(policy, bytes@, radix as int),
        r.1 <= bytes.len(),
        r.1 == numeral_len(bytes@, radix as int),
        r.2 == is_truncated::<T>(bytes@, radix as int),
{
    let (magnitude, sign, processed, truncated) = filter_sign::<T>(radix, bytes, policy);
    match sign {
        Sign::Negative => (magnitude.wrapping_neg(), processed, truncated.is_some()),
        Sign::Positive => (magnitude, processed, truncated.is_some()),
    }
}

} // verus!

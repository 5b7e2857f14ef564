//! How a buffer is read as a numeral: an optional sign, leading zeros, and
//! the digits that carry the value.

use crate::digit::{digit_run, leading, ASCII_0};
use crate::integer::{wrap, Integer};
use crate::numeral::{accumulated, extend, first_overflow, Policy};
use vstd::prelude::*;

verus! {

/// ASCII `+`.
pub const ASCII_PLUS: u8 = 0x2b;

/// ASCII `-`.
pub const ASCII_MINUS: u8 = 0x2d;

/// The sign of a numeral.
#[derive(Clone, Copy, Debug, PartialEq, Eq, Structural)]
pub enum Sign {
    Negative,
    Positive,
}

/// A marker moved right by `offset` bytes.
pub open spec fn shifted(marker: Option<int>, offset: int) -> Option<int> {
    match marker {
        Some(k) => Some(k + offset),
        None => None,
    }
}

/// The digits of the unsigned numeral at the front of `s` that follow its
/// leading zeros.
pub open spec fn significant(s: Seq<u8>, radix: int) -> Seq<u8> {
    let body = s.skip(leading(s, ASCII_0) as int);
    body.take(digit_run(body, radix) as int)
}

/// The number of bytes of the unsigned numeral at the front of `s`: its
/// leading zeros and the digits that follow them.
pub open spec fn magnitude_len(s: Seq<u8>, radix: int) -> nat {
    leading(s, ASCII_0) + digit_run(s.skip(leading(s, ASCII_0) as int), radix)
}

/// The value accumulated from the unsigned numeral at the front of `s`.
pub open spec fn magnitude<T: Integer>(policy: Policy, s: Seq<u8>, radix: int) -> int {
    accumulated::<T>(policy, 0, significant(s, radix), radix)
}

/// The position in `s` of the first digit at which the unsigned numeral at
/// the front of `s` overflows `T`.
pub open spec fn magnitude_overflow<T: Integer>(s: Seq<u8>, radix: int) -> Option<int> {
    shifted(first_overflow::<T>(0, significant(s, radix), radix), leading(s, ASCII_0) as int)
}

/// The number of sign bytes at the front of `s`: one for a `+` or a `-`.
pub open spec fn sign_len(s: Seq<u8>) -> nat {
    if s.len() > 0 && (s[0] == ASCII_PLUS || s[0] == ASCII_MINUS) {
        1
    } else {
        0
    }
}

/// The sign that `s` begins with; positive where it begins with none.
pub open spec fn sign_of(s: Seq<u8>) -> Sign {
    if s.len() > 0 && s[0] == ASCII_MINUS {
        Sign::Negative
    } else {
        Sign::Positive
    }
}

/// Whether anything follows the sign of `s`.
pub open spec fn has_body(s: Seq<u8>) -> bool {
    s.len() > sign_len(s)
}

/// The value accumulated from the numeral at the front of `s`, its sign set
/// aside; zero where nothing follows the sign.
pub open spec fn numeral_magnitude<T: Integer>(policy: Policy, s: Seq<u8>, radix: int) -> int {
    if has_body(s) {
        magnitude::<T>(policy, s.skip(sign_len(s) as int), radix)
    } else {
        0
    }
}

/// The number of bytes of the numeral at the front of `s`, its sign
/// included; zero where nothing follows the sign.
pub open spec fn numeral_len(s: Seq<u8>, radix: int) -> nat {
    if has_body(s) {
        sign_len(s) + magnitude_len(s.skip(sign_len(s) as int), radix)
    } else {
        0
    }
}

/// The position in `s` of the first digit at which the numeral at the front
/// of `s` overflows `T`.
pub open spec fn numeral_overflow<T: Integer>(s: Seq<u8>, radix: int) -> Option<int> {
    if has_body(s) {
        shifted(magnitude_overflow::<T>(s.skip(sign_len(s) as int), radix), sign_len(s) as int)
    } else {
        None
    }
}

/// The number that the numeral at the front of `s` spells, its sign set
/// aside, as a mathematical integer: no target type bounds it.
pub open spec fn spelled(s: Seq<u8>, radix: int) -> int {
    extend(0, significant(s.skip(sign_len(s) as int), radix), radix)
}

/// The magnitude `m` under `sign`: negation is two's-complement negation in `T`.
pub open spec fn with_sign<T: Integer>(sign: Sign, m: int) -> int {
    match sign {
        Sign::Negative => wrap::<T>(-m),
        Sign::Positive => m,
    }
}

/// The value of the numeral at the front of `s`, for a signed or an unsigned `T`.
pub open spec fn numeral_value<T: Integer>(policy: Policy, s: Seq<u8>, radix: int) -> int {
    with_sign::<T>(sign_of(s), numeral_magnitude::<T>(policy, s, radix))
}

/// The processed length that an unsigned target reports for `s`: a negative
/// numeral counts as not processed at all.
pub open spec fn unsigned_len(s: Seq<u8>, radix: int) -> nat {
    match sign_of(s) {
        Sign::Negative => 0,
        Sign::Positive => numeral_len(s, radix),
    }
}

/// Whether the numeral at the front of `s` overflows `T`.
pub open spec fn is_truncated<T: Integer>(s: Seq<u8>, radix: int) -> bool {
    numeral_overflow::<T>(s, radix).is_some()
}

} // verus!

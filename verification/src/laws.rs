//! Laws of the conversions: what holds of every buffer, radix and target type.

use crate::api::{signed_code, signed_index, unsigned_code, unsigned_index};
use crate::digit::{
    digit_in,
    digit_run,
    equal_to,
    is_digit,
    leading,
    lemma_run_length,
    lemma_run_length_bounds,
    ASCII_0,
    ASCII_9,
};
use crate::error::ErrorCode;
use crate::integer::{
    in_range,
    lemma_wrap_in_range,
    lemma_wrap_once,
    wrap,
    Integer,
    SignedInteger,
    UnsignedInteger,
};
use crate::notation::{
    has_body,
    is_truncated,
    magnitude,
    magnitude_len,
    magnitude_overflow,
    numeral_len,
    numeral_magnitude,
    numeral_overflow,
    numeral_value,
    shifted,
    sign_len,
    sign_of,
    significant,
    spelled,
    unsigned_len,
    with_sign,
    Sign,
    ASCII_MINUS,
    ASCII_PLUS,
};
use crate::numeral::{
    extend,
    first_overflow,
    lemma_extend_monotone,
    lemma_first_overflow,
    lemma_first_overflow_prefix,
    lemma_overflow_iff_exceeds,
    overflows_at,
    Policy,
};
use vstd::prelude::*;

verus! {

/// The decimal numeral of `v`, without leading zeros.
pub open spec fn decimal(v: nat) -> Seq<u8>
    decreases v,
{
    if v < 10 {
        seq![(ASCII_0 + v) as u8]
    } else {
        decimal(v / 10).push((ASCII_0 + v % 10) as u8)
    }
}

/// A buffer of `n` zero digits.
pub open spec fn zeros(n: nat) -> Seq<u8> {
    Seq::new(n, |i: int| ASCII_0)
}

/// A decimal numeral is made of decimal digits, begins with a zero only
/// where it is `0`, and spells the number it was made from.
pub proof fn lemma_decimal(v: nat)
    ensures
        decimal(v).len() >= 1,
        forall|j: int| 0 <= j < decimal(v).len() ==> ASCII_0 <= #[trigger] decimal(v)[j] <= ASCII_9,
        v > 0 ==> decimal(v)[0] != ASCII_0,
        v == 0 ==> decimal(v) == seq![ASCII_0],
        extend(0, decimal(v), 10) == v,
    decreases v,
{
    if v < 10 {
        let s = decimal(v);
        assert(s.drop_last() =~= Seq::<u8>::empty());
        assert(extend(0, s.drop_last(), 10) == 0);
    } else {
        lemma_decimal(v / 10);
        let s = decimal(v);
        assert(s.drop_last() =~= decimal(v / 10));
    }
}

/// Truncation is overflow of some step: the numeral is truncated exactly when
/// there is a digit at which multiplying the exact value of the digits before
/// it by the radix, or adding the digit, leaves the range of `T`.
pub proof fn lemma_truncated_iff_some_step_overflows<T: Integer>(s: Seq<u8>, radix: int)
    ensures
        is_truncated::<T>(s, radix) <==> exists|k: int|
            overflows_at::<T>(0, significant(s.skip(sign_len(s) as int), radix), radix, k),
{
    let digits = significant(s.skip(sign_len(s) as int), radix);
    lemma_first_overflow::<T>(0, digits, radix);
    if has_body(s) {
        if is_truncated::<T>(s, radix) {
            let k = first_overflow::<T>(0, digits, radix).unwrap();
            assert(overflows_at::<T>(0, digits, radix, k));
        }
    } else {
        assert(s.skip(sign_len(s) as int).len() == 0);
        lemma_run_length_bounds(s.skip(sign_len(s) as int), equal_to(ASCII_0));
        assert(digits.len() == 0);
    }
}

/// Truncation is a matter of magnitude alone: the numeral is truncated
/// exactly when the number it spells is larger than `T` can hold.
pub proof fn lemma_truncated_iff_exceeds<T: Integer>(s: Seq<u8>, radix: int)
    ensures
        is_truncated::<T>(s, radix) <==> spelled(s, radix) > T::upper(),
{
    let rest = s.skip(sign_len(s) as int);
    let body = rest.skip(leading(rest, ASCII_0) as int);
    let digits = significant(rest, radix);
    lemma_run_length_bounds(rest, equal_to(ASCII_0));
    lemma_run_length_bounds(body, digit_in(radix));
    assert forall|j: int| 0 <= j < digits.len() implies is_digit(#[trigger] digits[j], radix) by {
        assert(digit_in(radix)(body[j]));
    }
    lemma_overflow_iff_exceeds::<T>(digits, radix);
    if !has_body(s) {
        T::lemma_interval();
        assert(digits.len() == 0);
    }
}

/// Truncation does not depend on what follows the overflow: a truncated
/// numeral stays truncated, at the same digit, whatever is appended to the
/// buffer.
pub proof fn lemma_truncation_ignores_rest<T: Integer>(s: Seq<u8>, t: Seq<u8>, radix: int)
    requires
        is_truncated::<T>(s, radix),
    ensures
        is_truncated::<T>(s + t, radix),
        numeral_overflow::<T>(s + t, radix) == numeral_overflow::<T>(s, radix),
{
    let u = s + t;
    let sign = sign_len(s) as int;
    assert(u[0] == s[0]);
    let rest = s.skip(sign);
    let rest_u = u.skip(sign);
    assert(rest_u =~= rest + t);
    let z = leading(rest, ASCII_0) as int;
    let body = rest.skip(z);
    let digits = significant(rest, radix);
    lemma_run_length_bounds(rest, equal_to(ASCII_0));
    lemma_run_length_bounds(body, digit_in(radix));
    lemma_first_overflow::<T>(0, digits, radix);
    assert(digits.len() > 0);
    assert(body[0] == rest[z]);
    assert(digit_in(radix)(body[0]));
    // The zeros in front are the same.
    assert forall|j: int| 0 <= j < z implies equal_to(ASCII_0)(#[trigger] rest_u[j]) by {
        assert(rest_u[j] == rest[j]);
    }
    assert(rest_u[z] == rest[z]);
    lemma_run_length(rest_u, equal_to(ASCII_0), z);
    let body_u = rest_u.skip(z);
    assert(body_u =~= body + t);
    // The digits go on at least as far.
    let n = digit_run(body, radix) as int;
    let n_u = digit_run(body_u, radix) as int;
    lemma_run_length_bounds(body_u, digit_in(radix));
    if n_u < n {
        assert(body_u[n_u] == body[n_u]);
        assert(digit_in(radix)(body[n_u]));
    }
    let digits_u = significant(rest_u, radix);
    assert(digits_u.take(n) =~= digits);
    lemma_first_overflow_prefix::<T>(0, digits_u, radix, n);
}

/// Decimal round trip: the decimal numeral of a number that `T` can hold is
/// read back as that number, whole and without truncation, under either
/// policy and for a signed or an unsigned target.
pub proof fn lemma_decimal_round_trip<T: Integer>(policy: Policy, v: nat)
    requires
        v <= T::upper(),
    ensures
        numeral_value::<T>(policy, decimal(v), 10) == v,
        numeral_len(decimal(v), 10) == decimal(v).len(),
        unsigned_len(decimal(v), 10) == decimal(v).len(),
        !is_truncated::<T>(decimal(v), 10),
        signed_code::<T>(decimal(v), 10) == ErrorCode::Success,
        unsigned_code::<T>(decimal(v), 10) == ErrorCode::Success,
{
    let s = decimal(v);
    lemma_decimal(v);
    T::lemma_interval();
    lemma_wrap_in_range::<T>(v as int);
    assert(s.skip(0) =~= s);
    assert(ASCII_0 <= s[0] <= ASCII_9);
    if v == 0 {
        lemma_run_length(s, equal_to(ASCII_0), 1);
        let body = s.skip(1);
        assert(body.len() == 0);
        lemma_run_length(body, digit_in(10), 0);
        assert(significant(s, 10) =~= Seq::<u8>::empty());
    } else {
        lemma_run_length(s, equal_to(ASCII_0), 0);
        assert forall|j: int| 0 <= j < s.len() implies digit_in(10)(#[trigger] s[j]) by {
            assert(ASCII_0 <= s[j] <= ASCII_9);
        }
        lemma_run_length(s, digit_in(10), s.len() as int);
        assert(significant(s, 10) =~= s);
        assert forall|j: int| 0 <= j < s.len() implies is_digit(#[trigger] s[j], 10) by {
            assert(digit_in(10)(s[j]));
        }
        lemma_overflow_iff_exceeds::<T>(s, 10);
    }
}

/// Sign symmetry: a minus in front of a buffer that begins with no sign
/// negates the value in two's complement, counts as one more processed byte
/// where anything follows it, and leaves truncation as it was.
pub proof fn lemma_sign_symmetry<T: Integer>(policy: Policy, digits: Seq<u8>, radix: int)
    requires
        sign_len(digits) == 0,
    ensures
        numeral_value::<T>(policy, seq![ASCII_MINUS] + digits, radix) == wrap::<T>(
            -numeral_value::<T>(policy, digits, radix),
        ),
        numeral_len(seq![ASCII_MINUS] + digits, radix) == if digits.len() == 0 {
            0
        } else {
            1 + numeral_len(digits, radix)
        },
        is_truncated::<T>(seq![ASCII_MINUS] + digits, radix) == is_truncated::<T>(digits, radix),
{
    let s = seq![ASCII_MINUS] + digits;
    assert(s[0] == ASCII_MINUS);
    assert(s.skip(1) =~= digits);
    assert(digits.skip(0) =~= digits);
}

/// A plus in front of a buffer that begins with no sign leaves the value and
/// truncation as they were and counts as one more processed byte where
/// anything follows it.
pub proof fn lemma_plus_is_neutral<T: Integer>(policy: Policy, digits: Seq<u8>, radix: int)
    requires
        sign_len(digits) == 0,
    ensures
        numeral_value::<T>(policy, seq![ASCII_PLUS] + digits, radix) == numeral_value::<T>(
            policy,
            digits,
            radix,
        ),
        numeral_len(seq![ASCII_PLUS] + digits, radix) == if digits.len() == 0 {
            0
        } else {
            1 + numeral_len(digits, radix)
        },
        is_truncated::<T>(seq![ASCII_PLUS] + digits, radix) == is_truncated::<T>(digits, radix),
{
    let s = seq![ASCII_PLUS] + digits;
    assert(s[0] == ASCII_PLUS);
    assert(s.skip(1) =~= digits);
    assert(digits.skip(0) =~= digits);
}

/// Negation for a signed target is exact but for the smallest value, which
/// is its own negation.
pub proof fn lemma_signed_negation<T: SignedInteger>(m: int)
    requires
        in_range::<T>(m),
    ensures
        with_sign::<T>(Sign::Negative, m) == if m == T::lower() {
            m
        } else {
            -m
        },
{
    T::lemma_signed();
    T::lemma_interval();
    lemma_wrap_once(-m, T::lower(), T::upper() - T::lower() + 1);
}

/// Negation for an unsigned target counts down from one past the largest
/// value; zero is its own negation.
pub proof fn lemma_unsigned_negation<T: UnsignedInteger>(m: int)
    requires
        in_range::<T>(m),
    ensures
        with_sign::<T>(Sign::Negative, m) == if m == 0 {
            0
        } else {
            T::upper() + 1 - m
        },
{
    T::lemma_unsigned();
    T::lemma_interval();
    lemma_wrap_once(-m, T::lower(), T::upper() - T::lower() + 1);
}

/// For an unsigned target a negative numeral is never processed: whatever
/// follows the minus, the processed length is zero.
pub proof fn lemma_unsigned_negative_unprocessed(rest: Seq<u8>, radix: int)
    ensures
        unsigned_len(seq![ASCII_MINUS] + rest, radix) == 0,
{
    let s = seq![ASCII_MINUS] + rest;
    assert(s[0] == ASCII_MINUS);
}

/// Leading zeros of an unsigned numeral are neutral: they change neither the
/// value nor truncation, and each counts as one byte read.
pub proof fn lemma_leading_zeros_magnitude<T: Integer>(
    policy: Policy,
    n: nat,
    s: Seq<u8>,
    radix: int,
)
    ensures
        magnitude::<T>(policy, zeros(n) + s, radix) == magnitude::<T>(policy, s, radix),
        magnitude_len(zeros(n) + s, radix) == n + magnitude_len(s, radix),
        magnitude_overflow::<T>(zeros(n) + s, radix) == shifted(
            magnitude_overflow::<T>(s, radix),
            n as int,
        ),
{
    let u = zeros(n) + s;
    let z = leading(s, ASCII_0) as int;
    lemma_run_length_bounds(s, equal_to(ASCII_0));
    assert forall|j: int| 0 <= j < n + z implies equal_to(ASCII_0)(#[trigger] u[j]) by {
        if j >= n {
            assert(u[j] == s[j - n]);
        }
    }
    if n + z < u.len() {
        assert(u[n + z] == s[z]);
    }
    lemma_run_length(u, equal_to(ASCII_0), n + z);
    assert(u.skip(n + z) =~= s.skip(z));
}

/// Leading zeros are neutral: in front of a buffer that begins with no sign
/// they change neither the value nor truncation, and the processed length
/// grows by their number.
pub proof fn lemma_leading_zeros<T: Integer>(policy: Policy, n: nat, s: Seq<u8>, radix: int)
    requires
        sign_len(s) == 0,
    ensures
        numeral_value::<T>(policy, zeros(n) + s, radix) == numeral_value::<T>(policy, s, radix),
        numeral_len(zeros(n) + s, radix) == n + numeral_len(s, radix),
        unsigned_len(zeros(n) + s, radix) == n + unsigned_len(s, radix),
        is_truncated::<T>(zeros(n) + s, radix) == is_truncated::<T>(s, radix),
{
    let u = zeros(n) + s;
    lemma_leading_zeros_magnitude::<T>(policy, n, s, radix);
    assert(s.skip(0) =~= s);
    assert(u.skip(0) =~= u);
    if n == 0 {
        assert(u =~= s);
    } else {
        assert(u[0] == ASCII_0);
    }
    if s.len() == 0 {
        // Both buffers hold zeros alone.
        T::lemma_interval();
        lemma_wrap_in_range::<T>(0);
        lemma_run_length(s, equal_to(ASCII_0), 0);
        lemma_run_length(s.skip(0), digit_in(radix), 0);
        assert(significant(s, radix) =~= Seq::<u8>::empty());
    }
}

/// For an unsigned target a negative numeral is never a success: the
/// checked conversion reports `Overflow` where the magnitude overflowed, and
/// `InvalidDigit` at position zero where it did not.
pub proof fn lemma_unsigned_negative_is_error<T: Integer>(rest: Seq<u8>, radix: int)
    ensures
        unsigned_code::<T>(seq![ASCII_MINUS] + rest, radix) == if is_truncated::<T>(
            seq![ASCII_MINUS] + rest,
            radix,
        ) {
            ErrorCode::Overflow
        } else {
            ErrorCode::InvalidDigit
        },
        unsigned_index::<T>(seq![ASCII_MINUS] + rest, radix) == 0,
{
    let s = seq![ASCII_MINUS] + rest;
    assert(s[0] == ASCII_MINUS);
}

/// A numeral that is not truncated has the value it spells: under either
/// policy the accumulated magnitude is the exact number.
pub proof fn lemma_exact_unless_truncated<T: Integer>(policy: Policy, s: Seq<u8>, radix: int)
    requires
        !is_truncated::<T>(s, radix),
    ensures
        numeral_magnitude::<T>(policy, s, radix) == spelled(s, radix),
{
    lemma_truncated_iff_exceeds::<T>(s, radix);
    let rest = s.skip(sign_len(s) as int);
    let digits = significant(rest, radix);
    T::lemma_interval();
    if has_body(s) {
        let body = rest.skip(leading(rest, ASCII_0) as int);
        lemma_run_length_bounds(rest, equal_to(ASCII_0));
        lemma_run_length_bounds(body, digit_in(radix));
        if digits.len() > 0 {
            assert(digit_in(radix)(body[0]));
            lemma_extend_monotone(0, digits, radix, 0);
        }
        lemma_wrap_in_range::<T>(spelled(s, radix));
    } else {
        lemma_run_length_bounds(rest, equal_to(ASCII_0));
        assert(digits.len() == 0);
    }
}

/// Under the wrapping policy the magnitude is the number spelled, reduced
/// into the range of `T`: what two's-complement arithmetic keeps of it.
pub proof fn lemma_wrapping_keeps_residue<T: Integer>(s: Seq<u8>, radix: int)
    ensures
        numeral_magnitude::<T>(Policy::Wrapping, s, radix) == wrap::<T>(spelled(s, radix)),
{
    if !has_body(s) {
        let rest = s.skip(sign_len(s) as int);
        lemma_run_length_bounds(rest, equal_to(ASCII_0));
        assert(significant(rest, radix).len() == 0);
        T::lemma_interval();
        lemma_wrap_in_range::<T>(0);
    }
}

/// The numeral at the front of a buffer is no longer than the buffer.
pub proof fn lemma_numeral_len_bounded(s: Seq<u8>, radix: int)
    ensures
        numeral_len(s, radix) <= s.len(),
        unsigned_len(s, radix) <= s.len(),
{
    let rest = s.skip(sign_len(s) as int);
    lemma_run_length_bounds(rest, equal_to(ASCII_0));
    lemma_run_length_bounds(rest.skip(leading(rest, ASCII_0) as int), digit_in(radix));
}

/// A checked conversion to a signed target succeeds only on a buffer that is
/// a numeral from end to end, and then gives the number spelled under its
/// sign, under either policy.
pub proof fn lemma_signed_success_is_exact<T: Integer>(policy: Policy, s: Seq<u8>, radix: int)
    requires
        signed_code::<T>(s, radix) == ErrorCode::Success,
    ensures
        s.len() > 0,
        numeral_len(s, radix) == s.len(),
        !is_truncated::<T>(s, radix),
        numeral_value::<T>(policy, s, radix) == with_sign::<T>(sign_of(s), spelled(s, radix)),
{
    lemma_numeral_len_bounded(s, radix);
    lemma_exact_unless_truncated::<T>(policy, s, radix);
}

/// A checked conversion to an unsigned target succeeds only on a buffer that
/// is a numeral without a minus from end to end, and then gives the number
/// spelled, under either policy.
pub proof fn lemma_unsigned_success_is_exact<T: Integer>(policy: Policy, s: Seq<u8>, radix: int)
    requires
        unsigned_code::<T>(s, radix) == ErrorCode::Success,
    ensures
        s.len() > 0,
        sign_of(s) == Sign::Positive,
        unsigned_len(s, radix) == s.len(),
        !is_truncated::<T>(s, radix),
        numeral_value::<T>(policy, s, radix) == spelled(s, radix),
{
    lemma_numeral_len_bounded(s, radix);
    lemma_exact_unless_truncated::<T>(policy, s, radix);
}

/// An empty buffer is classified as `Empty` at position zero, for a signed
/// and for an unsigned target.
pub proof fn lemma_empty_is_empty_error<T: Integer>(s: Seq<u8>, radix: int)
    requires
        s.len() == 0,
    ensures
        signed_code::<T>(s, radix) == ErrorCode::Empty,
        signed_index::<T>(s, radix) == 0,
        unsigned_code::<T>(s, radix) == ErrorCode::Empty,
        unsigned_index::<T>(s, radix) == 0,
{
}

/// A buffer that holds a sign and nothing else is classified as
/// `InvalidDigit` at position zero, for a signed and for an unsigned target.
pub proof fn lemma_lone_sign_is_invalid<T: Integer>(s: Seq<u8>, radix: int)
    requires
        s.len() == 1,
        s[0] == ASCII_PLUS || s[0] == ASCII_MINUS,
    ensures
        signed_code::<T>(s, radix) == ErrorCode::InvalidDigit,
        signed_index::<T>(s, radix) == 0,
        unsigned_code::<T>(s, radix) == ErrorCode::InvalidDigit,
        unsigned_index::<T>(s, radix) == 0,
{
}

/// Overflow outranks an invalid digit: a truncated numeral in a buffer is
/// classified as `Overflow`, whether or not bytes follow its digits.
pub proof fn lemma_overflow_precedence<T: Integer>(s: Seq<u8>, radix: int)
    requires
        is_truncated::<T>(s, radix),
    ensures
        signed_code::<T>(s, radix) == ErrorCode::Overflow,
        unsigned_code::<T>(s, radix) == ErrorCode::Overflow,
{
}

} // verus!

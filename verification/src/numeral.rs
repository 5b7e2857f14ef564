//! What a run of digits means: the number it spells, and the first digit at
//! which that number leaves the range of an integer type.

use crate::digit::{digit_value, is_digit};
use crate::integer::{in_range, lemma_wrap_congruent, lemma_wrap_offset, wrap, Integer};
use vstd::prelude::*;

verus! {

/// The number reached from `start` by appending the digits `s` in `radix`:
/// each digit multiplies what came before by `radix` and adds its own value.
pub open spec fn extend(start: int, s: Seq<u8>, radix: int) -> int
    decreases s.len(),
{
    if s.len() == 0 {
        start
    } else {
        extend(start, s.drop_last(), radix) * radix + digit_value(s.last())
    }
}

/// Whether appending `digit` to the exact value `acc` leaves the range of
/// `T`, in the multiplication or in the addition.
pub open spec fn step_overflows<T: Integer>(acc: int, radix: int, digit: int) -> bool {
    !in_range::<T>(acc * radix) || !in_range::<T>(acc * radix + digit)
}

/// Whether the digit at position `k` of `s` is one at which accumulation
/// from `start` leaves the range of `T`.
pub open spec fn overflows_at<T: Integer>(start: int, s: Seq<u8>, radix: int, k: int) -> bool {
    0 <= k < s.len() && step_overflows::<T>(
        extend(start, s.take(k), radix),
        radix,
        digit_value(s[k]),
    )
}

/// The position of the first digit of `s` at which accumulation from `start`
/// leaves the range of `T`, if there is one.
pub open spec fn first_overflow<T: Integer>(start: int, s: Seq<u8>, radix: int) -> Option<int>
    decreases s.len(),
{
    if s.len() == 0 {
        None
    } else {
        match first_overflow::<T>(start, s.drop_last(), radix) {
            Some(k) => Some(k),
            None => if overflows_at::<T>(start, s, radix, s.len() - 1) {
                Some(s.len() - 1)
            } else {
                None
            },
        }
    }
}

/// The value that wrapping accumulation leaves: the number spelled, reduced
/// into the range of `T`.
pub open spec fn wrapped<T: Integer>(start: int, s: Seq<u8>, radix: int) -> int {
    wrap::<T>(extend(start, s, radix))
}

/// The value that checked accumulation leaves: the number spelled by the
/// digits before the first overflow.
pub open spec fn frozen<T: Integer>(start: int, s: Seq<u8>, radix: int) -> int {
    match first_overflow::<T>(start, s, radix) {
        Some(k) => extend(start, s.take(k), radix),
        None => extend(start, s, radix),
    }
}

/// What accumulation does with a digit that overflows the target type.
#[derive(Clone, Copy, Debug, PartialEq, Eq, Structural)]
pub enum Policy {
    /// Keep the wrapped value and go on accumulating.
    Wrapping,
    /// Keep the last exact value and accumulate no further.
    Checked,
}

/// The value that accumulating the digits `s` from `start` leaves under `policy`.
pub open spec fn accumulated<T: Integer>(policy: Policy, start: int, s: Seq<u8>, radix: int) -> int {
    match policy {
        Policy::Wrapping => wrapped::<T>(start, s, radix),
        Policy::Checked => frozen::<T>(start, s, radix),
    }
}

/// A byte position as a mathematical integer.
pub open spec fn position(marker: Option<usize>) -> Option<int> {
    match marker {
        Some(k) => Some(k as int),
        None => None,
    }
}

/// Reducing after the multiplication and again after the addition gives the
/// reduction of the exact result, whether or not the accumulator was reduced
/// before.
pub proof fn lemma_wrap_step<T: Integer>(acc: int, radix: int, digit: int)
    ensures
        wrap::<T>(wrap::<T>(wrap::<T>(acc) * radix) + digit) == wrap::<T>(acc * radix + digit),
{
    let m = T::upper() - T::lower() + 1;
    let k1 = lemma_wrap_offset::<T>(acc);
    let p = wrap::<T>(acc) * radix;
    let k2 = lemma_wrap_offset::<T>(p);
    assert(wrap::<T>(p) + digit == acc * radix + digit + (k1 * radix + k2) * m)
        by (nonlinear_arith)
        requires
            p == (acc + k1 * m) * radix,
            wrap::<T>(p) == p + k2 * m,
    ;
    lemma_wrap_congruent::<T>(acc * radix + digit, k1 * radix + k2);
}

/// Appending one digit to a run: the number spelled and the prefix before
/// the new digit.
pub proof fn lemma_extend_push(start: int, s: Seq<u8>, radix: int, n: int)
    requires
        0 <= n < s.len(),
    ensures
        s.take(n + 1).drop_last() == s.take(n),
        s.take(n + 1).last() == s[n],
        s.take(n + 1).take(n) == s.take(n),
        extend(start, s.take(n + 1), radix) == extend(start, s.take(n), radix) * radix
            + digit_value(s[n]),
{
    assert(s.take(n + 1).drop_last() =~= s.take(n));
    assert(s.take(n + 1).take(n) =~= s.take(n));
}

/// `first_overflow` names a digit at which accumulation overflows, no digit
/// before it is such a digit, and where it names none there is none.
pub proof fn lemma_first_overflow<T: Integer>(start: int, s: Seq<u8>, radix: int)
    ensures
        match first_overflow::<T>(start, s, radix) {
            Some(k) => overflows_at::<T>(start, s, radix, k) && forall|j: int|
                0 <= j < k ==> !#[trigger] overflows_at::<T>(start, s, radix, j),
            None => forall|j: int|
                0 <= j < s.len() ==> !#[trigger] overflows_at::<T>(start, s, radix, j),
        },
    decreases s.len(),
{
    if s.len() > 0 {
        let front = s.drop_last();
        lemma_first_overflow::<T>(start, front, radix);
        assert forall|j: int| 0 <= j < front.len() implies overflows_at::<T>(start, front, radix, j)
            == overflows_at::<T>(start, s, radix, j) by {
            assert(front.take(j) =~= s.take(j));
        }
    }
}

/// What is spelled from a natural number in a positive radix is a natural
/// number, and no smaller than what any prefix spells.
pub proof fn lemma_extend_monotone(start: int, s: Seq<u8>, radix: int, n: int)
    requires
        0 <= start,
        1 <= radix,
        0 <= n <= s.len(),
    ensures
        0 <= extend(start, s.take(n), radix) <= extend(start, s, radix),
    decreases s.len(),
{
    if n == s.len() {
        assert(s.take(n) =~= s);
        if n > 0 {
            lemma_extend_monotone(start, s.drop_last(), radix, n - 1);
            let e = extend(start, s.drop_last(), radix);
            assert(0 <= e * radix) by (nonlinear_arith)
                requires
                    0 <= e,
                    1 <= radix,
            ;
        }
    } else {
        let front = s.drop_last();
        assert(front.take(n) =~= s.take(n));
        lemma_extend_monotone(start, front, radix, n);
        let e = extend(start, front, radix);
        assert(e <= e * radix) by (nonlinear_arith)
            requires
                0 <= e,
                1 <= radix,
        ;
    }
}

/// Accumulation from zero overflows `T` exactly when the number spelled is
/// larger than `T` can hold.
pub proof fn lemma_overflow_iff_exceeds<T: Integer>(s: Seq<u8>, radix: int)
    requires
        forall|j: int| 0 <= j < s.len() ==> is_digit(#[trigger] s[j], radix),
    ensures
        first_overflow::<T>(0, s, radix).is_some() <==> extend(0, s, radix) > T::upper(),
    decreases s.len(),
{
    T::lemma_interval();
    if s.len() > 0 {
        let front = s.drop_last();
        let e = extend(0, front, radix);
        assert(is_digit(s[s.len() - 1], radix));
        assert forall|j: int| 0 <= j < front.len() implies is_digit(#[trigger] front[j], radix) by {
            assert(front[j] == s[j]);
        }
        lemma_overflow_iff_exceeds::<T>(front, radix);
        lemma_extend_monotone(0, s, radix, s.len() - 1);
        assert(s.take(s.len() - 1) =~= front);
        assert(e <= e * radix) by (nonlinear_arith)
            requires
                0 <= e,
                1 <= radix,
        ;
    }
}

/// An overflow found in a prefix of the digits is the first overflow of the
/// whole run: what follows does not move it.
pub proof fn lemma_first_overflow_prefix<T: Integer>(start: int, s: Seq<u8>, radix: int, n: int)
    requires
        0 <= n <= s.len(),
        first_overflow::<T>(start, s.take(n), radix).is_some(),
    ensures
        first_overflow::<T>(start, s, radix) == first_overflow::<T>(start, s.take(n), radix),
    decreases s.len() - n,
{
    if n == s.len() {
        assert(s.take(n) =~= s);
    } else {
        assert(s.drop_last().take(n) =~= s.take(n));
        lemma_first_overflow_prefix::<T>(start, s.drop_last(), radix, n);
    }
}

} // verus!

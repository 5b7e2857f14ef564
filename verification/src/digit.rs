//! Bytes as digits, and runs of bytes at the front of a buffer.

use vstd::prelude::*;
use vstd::slice::slice_subrange;

verus! {

/// ASCII `0`.
pub const ASCII_0: u8 = 0x30;

/// ASCII `9`.
pub const ASCII_9: u8 = 0x39;

/// ASCII `A`.
pub const ASCII_UPPER_A: u8 = 0x41;

/// ASCII `Z`.
pub const ASCII_UPPER_Z: u8 = 0x5a;

/// ASCII `a`.
pub const ASCII_LOWER_A: u8 = 0x61;

/// ASCII `z`.
pub const ASCII_LOWER_Z: u8 = 0x7a;

/// What `char_to_digit` returns for a byte that is no digit in any radix.
/// It is larger than every digit and fits every integer type.
pub const INVALID_DIGIT: u8 = 99;

/// The value of `c` as a digit: `0` to `9` for the decimal digits, `10` to
/// `35` for the letters in either case, and `INVALID_DIGIT` for anything else.
pub open spec fn digit_value(c: u8) -> int {
    if ASCII_0 <= c <= ASCII_9 {
        c - ASCII_0
    } else if ASCII_LOWER_A <= c <= ASCII_LOWER_Z {
        c - ASCII_LOWER_A + 10
    } else if ASCII_UPPER_A <= c <= ASCII_UPPER_Z {
        c - ASCII_UPPER_A + 10
    } else {
        INVALID_DIGIT as int
    }
}

/// Whether `c` is a digit in `radix`.
pub open spec fn is_digit(c: u8, radix: int) -> bool {
    digit_value(c) < radix
}

/// The number of bytes at the front of `s` that satisfy `pred`.
pub open spec fn run_length(s: Seq<u8>, pred: spec_fn(u8) -> bool) -> nat
    decreases s.len(),
{
    if s.len() == 0 || !pred(s[0]) {
        0
    } else {
        1 + run_length(s.skip(1), pred)
    }
}

/// The predicate that holds of the byte `c` alone.
pub open spec fn equal_to(c: u8) -> spec_fn(u8) -> bool {
    |b: u8| b == c
}

/// The predicate that holds of the digits in `radix`.
pub open spec fn digit_in(radix: int) -> spec_fn(u8) -> bool {
    |b: u8| is_digit(b, radix)
}

/// The number of bytes equal to `c` at the front of `s`.
pub open spec fn leading(s: Seq<u8>, c: u8) -> nat {
    run_length(s, equal_to(c))
}

/// The number of digits in `radix` at the front of `s`.
pub open spec fn digit_run(s: Seq<u8>, radix: int) -> nat {
    run_length(s, digit_in(radix))
}

/// A run is as long as the position of the first byte that fails `pred`.
pub proof fn lemma_run_length(s: Seq<u8>, pred: spec_fn(u8) -> bool, n: int)
    requires
        0 <= n <= s.len(),
        forall|j: int| 0 <= j < n ==> pred(#[trigger] s[j]),
        n == s.len() || !pred(s[n]),
    ensures
        run_length(s, pred) == n,
    decreases n,
{
    if n > 0 {
        let t = s.skip(1);
        assert forall|j: int| 0 <= j < n - 1 implies pred(#[trigger] t[j]) by {
            assert(t[j] == s[j + 1]);
        }
        lemma_run_length(t, pred, n - 1);
    }
}

/// The bytes of a run satisfy `pred`, and the byte behind it, if any, does not.
pub proof fn lemma_run_length_bounds(s: Seq<u8>, pred: spec_fn(u8) -> bool)
    ensures
        run_length(s, pred) <= s.len(),
        forall|j: int| 0 <= j < run_length(s, pred) ==> pred(#[trigger] s[j]),
        run_length(s, pred) < s.len() ==> !pred(s[run_length(s, pred) as int]),
    decreases s.len(),
{
    if s.len() > 0 && pred(s[0]) {
        let t = s.skip(1);
        lemma_run_length_bounds(t, pred);
        assert forall|j: int| 0 <= j < run_length(s, pred) implies pred(#[trigger] s[j]) by {
            if j > 0 {
                assert(s[j] == t[j - 1]);
            }
        }
        if run_length(s, pred) < s.len() {
            assert(s[run_length(s, pred) as int] == t[run_length(t, pred) as int]);
        }
    }
}

/// Maps an ASCII byte to its value as a digit.
pub fn char_to_digit(c: u8) -> (d: u8)
    ensures
        d == digit_value(c),
        d <= 35 || d == INVALID_DIGIT,
{
    if ASCII_0 <= c && c <= ASCII_9 {
        c - ASCII_0
    } else if ASCII_LOWER_A <= c && c <= ASCII_LOWER_Z {
        c - ASCII_LOWER_A + 10
    } else if ASCII_UPPER_A <= c && c <= ASCII_UPPER_Z {
        c - ASCII_UPPER_A + 10
    } else {
        INVALID_DIGIT
    }
}

/// Strips every leading `c` from `bytes`: returns what is left and how many
/// bytes were stripped.
pub fn ltrim_char_slice(bytes: &[u8], c: u8) -> (r: (&[u8], usize))
    ensures
        r.1 <= bytes.len(),
        r.1 == leading(bytes@, c),
        forall|j: int| 0 <= j < r.1 ==> #[trigger] bytes@[j] == c,
        r.1 == bytes.len() || bytes@[r.1 as int] != c,
        r.0@ == bytes@.skip(r.1 as int),
{
    let mut count: usize = 0;
    while count < bytes.len() && bytes[count] == c
        invariant
            count <= bytes.len(),
            forall|j: int| 0 <= j < count ==> #[trigger] bytes@[j] == c,
        decreases bytes.len() - count,
    {
        count += 1;
    }
    proof {
        lemma_run_length(bytes@, equal_to(c), count as int);
    }
    (slice_subrange(bytes, count, bytes.len()), count)
}

} // verus!

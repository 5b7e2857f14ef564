//! The arithmetic that a target type must offer, stated over mathematical integers.

use vstd::prelude::*;

verus! {

/// Whether `x` lies in the closed interval `[lo, hi]`.
pub open spec fn within(lo: int, hi: int, x: int) -> bool {
    lo <= x <= hi
}

/// The one member of `[lo, hi]` that differs from `x` by a multiple of the
/// interval's size.
pub open spec fn reduce(lo: int, hi: int, x: int) -> int {
    lo + (x - lo) % (hi - lo + 1)
}

/// A fixed-width integer that numerals can be accumulated into.
///
/// The contracts speak of the mathematical value `as_int` of each operand and
/// of the closed interval `[lower(), upper()]` that the type can represent.
pub trait Integer: Copy + Sized {
    /// The smallest representable value.
    spec fn lower() -> int;

    /// The largest representable value.
    spec fn upper() -> int;

    /// The mathematical value of `self`.
    spec fn as_int(self) -> int;

    /// Every value lies in the representable interval.
    proof fn lemma_bounded(x: Self)
        ensures
            Self::lower() <= x.as_int() <= Self::upper(),
    ;

    /// The interval holds every digit and the digit sentinel, and is either
    /// `[0, upper]` or the two's-complement interval `[-upper - 1, upper]`.
    proof fn lemma_interval()
        ensures
            Self::upper() >= 127,
            Self::lower() == 0 || Self::lower() == -Self::upper() - 1,
    ;

    /// Two values with the same mathematical value are the same value.
    proof fn lemma_as_int_injective(x: Self, y: Self)
        requires
            x.as_int() == y.as_int(),
        ensures
            x == y,
    ;

    /// The additive identity.
    fn zero() -> (z: Self)
        ensures
            z.as_int() == 0,
    ;

    /// Widens a small number, such as a digit or a radix.
    fn from_small(x: u8) -> (r: Self)
        requires
            x <= 127,
        ensures
            r.as_int() == x,
    ;

    /// Strict comparison by value.
    fn less_than(self, rhs: Self) -> (b: bool)
        ensures
            b == (self.as_int() < rhs.as_int()),
    ;

    /// Product reduced into the interval, and whether the exact product lies outside it.
    fn overflowing_mul(self, rhs: Self) -> (r: (Self, bool))
        ensures
            r.0.as_int() == reduce(Self::lower(), Self::upper(), self.as_int() * rhs.as_int()),
            r.1 == !within(Self::lower(), Self::upper(), self.as_int() * rhs.as_int()),
    ;

    /// Sum reduced into the interval, and whether the exact sum lies outside it.
    fn overflowing_add(self, rhs: Self) -> (r: (Self, bool))
        ensures
            r.0.as_int() == reduce(Self::lower(), Self::upper(), self.as_int() + rhs.as_int()),
            r.1 == !within(Self::lower(), Self::upper(), self.as_int() + rhs.as_int()),
    ;

    /// The exact product, where the type can hold it.
    fn checked_mul(self, rhs: Self) -> (r: Option<Self>)
        ensures
            r.is_some() == within(Self::lower(), Self::upper(), self.as_int() * rhs.as_int()),
            r.is_some() ==> r.unwrap().as_int() == self.as_int() * rhs.as_int(),
    ;

    /// The exact sum, where the type can hold it.
    fn checked_add(self, rhs: Self) -> (r: Option<Self>)
        ensures
            r.is_some() == within(Self::lower(), Self::upper(), self.as_int() + rhs.as_int()),
            r.is_some() ==> r.unwrap().as_int() == self.as_int() + rhs.as_int(),
    ;

    /// Two's-complement negation: the negated value reduced into the interval.
    fn wrapping_neg(self) -> (r: Self)
        ensures
            r.as_int() == reduce(Self::lower(), Self::upper(), -self.as_int()),
    ;
}

/// An `Integer` without negative values.
pub trait UnsignedInteger: Integer {
    proof fn lemma_unsigned()
        ensures
            Self::lower() == 0,
    ;
}

/// An `Integer` in two's complement.
pub trait SignedInteger: Integer {
    proof fn lemma_signed()
        ensures
            Self::lower() == -Self::upper() - 1,
    ;
}

/// Whether `T` can represent `x`.
pub open spec fn in_range<T: Integer>(x: int) -> bool {
    within(T::lower(), T::upper(), x)
}

/// The value that two's-complement arithmetic in `T` leaves of `x`.
pub open spec fn wrap<T: Integer>(x: int) -> int {
    reduce(T::lower(), T::upper(), x)
}

/// A representable number is its own reduction.
pub proof fn lemma_wrap_in_range<T: Integer>(x: int)
    requires
        in_range::<T>(x),
    ensures
        wrap::<T>(x) == x,
{
    vstd::arithmetic::div_mod::lemma_small_mod((x - T::lower()) as nat, (T::upper() - T::lower() + 1) as nat);
}

/// Numbers that differ by a multiple of the modulus have the same reduction.
pub proof fn lemma_wrap_congruent<T: Integer>(x: int, k: int)
    ensures
        wrap::<T>(x + k * (T::upper() - T::lower() + 1)) == wrap::<T>(x),
{
    T::lemma_interval();
    let m = T::upper() - T::lower() + 1;
    vstd::arithmetic::div_mod::lemma_mod_multiples_vanish(k, x - T::lower(), m);
    assert(m * k == k * m) by (nonlinear_arith);
}

/// Every number differs from its reduction by a multiple of the modulus.
pub proof fn lemma_wrap_offset<T: Integer>(x: int) -> (k: int)
    ensures
        wrap::<T>(x) == x + k * (T::upper() - T::lower() + 1),
{
    T::lemma_interval();
    let m = T::upper() - T::lower() + 1;
    vstd::arithmetic::div_mod::lemma_fundamental_div_mod(x - T::lower(), m);
    let k = -((x - T::lower()) / m);
    assert(k * m == -(m * ((x - T::lower()) / m))) by (nonlinear_arith)
        requires
            k == -((x - T::lower()) / m),
    ;
    k
}

/// A value at most one modulus away from the interval `[lo, lo + m)` is
/// brought into it by adding or subtracting `m` once.
pub proof fn lemma_wrap_once(x: int, lo: int, m: int)
    requires
        m > 0,
        lo - m <= x < lo + 2 * m,
    ensures
        lo + (x - lo) % m == if x < lo {
            x + m
        } else if x >= lo + m {
            x - m
        } else {
            x
        },
{
    let y = x - lo;
    if y < 0 {
        vstd::arithmetic::div_mod::lemma_fundamental_div_mod_converse(y, m, -1, y + m);
    } else if y >= m {
        vstd::arithmetic::div_mod::lemma_fundamental_div_mod_converse(y, m, 1, y - m);
    } else {
        vstd::arithmetic::div_mod::lemma_small_mod(y as nat, m as nat);
    }
}

/// A product of two naturals is a natural, and has the same residue whether
/// it is reduced as a natural or as an integer.
pub proof fn lemma_unsigned_product(x: int, y: int, m: int)
    requires
        0 <= x,
        0 <= y,
        m > 0,
    ensures
        0 <= x * y,
        (x as nat * y as nat) % (m as nat) == (x * y) % m,
{
    assert(0 <= x * y) by (nonlinear_arith)
        requires
            0 <= x,
            0 <= y,
    ;
}

/// Reducing `p` modulo `2 * half` and moving the upper half of the residues
/// down by `2 * half` gives the member of `[-half, half)` congruent to `p`.
pub proof fn lemma_signed_residue(p: int, half: int)
    requires
        half > 0,
    ensures
        -half + (p + half) % (2 * half) == if p % (2 * half) > half - 1 {
            p % (2 * half) - 2 * half
        } else {
            p % (2 * half)
        },
{
    let m = 2 * half;
    let q = p / m;
    let r = p % m;
    vstd::arithmetic::div_mod::lemma_fundamental_div_mod(p, m);
    vstd::arithmetic::div_mod::lemma_mod_bound(p, m);
    assert(m * (q + 1) == m * q + m) by (nonlinear_arith);
    if r > half - 1 {
        vstd::arithmetic::div_mod::lemma_fundamental_div_mod_converse(p + half, m, q + 1, r - half);
    } else {
        vstd::arithmetic::div_mod::lemma_fundamental_div_mod_converse(p + half, m, q, r + half);
    }
}

} // verus!

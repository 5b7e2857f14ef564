//! The signed primitive integers as accumulation targets.

use crate::integer::{lemma_signed_residue, lemma_wrap_once, Integer, SignedInteger};
use vstd::prelude::*;

verus! {

impl Integer for i8 {
    open spec fn lower() -> int {
        i8::MIN as int
    }

    open spec fn upper() -> int {
        i8::MAX as int
    }

    open spec fn as_int(self) -> int {
        self as int
    }

    proof fn lemma_bounded(x: Self) {
    }

    proof fn lemma_interval() {
    }

    proof fn lemma_as_int_injective(x: Self, y: Self) {
    }

    fn zero() -> (z: Self) {
        0
    }

    fn from_small(x: u8) -> (r: Self) {
        x as i8
    }

    fn less_than(self, rhs: Self) -> (b: bool) {
        self < rhs
    }

    fn overflowing_mul(self, rhs: Self) -> (r: (Self, bool)) {
        proof {
            lemma_signed_residue(self * rhs, i8::MAX + 1);
        }
        (self.wrapping_mul(rhs), self.checked_mul(rhs).is_none())
    }

    fn overflowing_add(self, rhs: Self) -> (r: (Self, bool)) {
        proof {
            lemma_wrap_once(self + rhs, i8::MIN as int, i8::MAX - i8::MIN + 1);
        }
        (self.wrapping_add(rhs), self.checked_add(rhs).is_none())
    }

    fn checked_mul(self, rhs: Self) -> (r: Option<Self>) {
        self.checked_mul(rhs)
    }

    fn checked_add(self, rhs: Self) -> (r: Option<Self>) {
        self.checked_add(rhs)
    }

    fn wrapping_neg(self) -> (r: Self) {
        proof {
            lemma_wrap_once(-self, i8::MIN as int, i8::MAX - i8::MIN + 1);
        }
        0i8.wrapping_sub(self)
    }
}

impl SignedInteger for i8 {
    proof fn lemma_signed() {
    }
}

impl Integer for i16 {
    open spec fn lower() -> int {
        i16::MIN as int
    }

    open spec fn upper() -> int {
        i16::MAX as int
    }

    open spec fn as_int(self) -> int {
        self as int
    }

    proof fn lemma_bounded(x: Self) {
    }

    proof fn lemma_interval() {
    }

    proof fn lemma_as_int_injective(x: Self, y: Self) {
    }

    fn zero() -> (z: Self) {
        0
    }

    fn from_small(x: u8) -> (r: Self) {
        x as i16
    }

    fn less_than(self, rhs: Self) -> (b: bool) {
        self < rhs
    }

    fn overflowing_mul(self, rhs: Self) -> (r: (Self, bool)) {
        proof {
            lemma_signed_residue(self * rhs, i16::MAX + 1);
        }
        (self.wrapping_mul(rhs), self.checked_mul(rhs).is_none())
    }

    fn overflowing_add(self, rhs: Self) -> (r: (Self, bool)) {
        proof {
            lemma_wrap_once(self + rhs, i16::MIN as int, i16::MAX - i16::MIN + 1);
        }
        (self.wrapping_add(rhs), self.checked_add(rhs).is_none())
    }

    fn checked_mul(self, rhs: Self) -> (r: Option<Self>) {
        self.checked_mul(rhs)
    }

    fn checked_add(self, rhs: Self) -> (r: Option<Self>) {
        self.checked_add(rhs)
    }

    fn wrapping_neg(self) -> (r: Self) {
        proof {
            lemma_wrap_once(-self, i16::MIN as int, i16::MAX - i16::MIN + 1);
        }
        0i16.wrapping_sub(self)
    }
}

impl SignedInteger for i16 {
    proof fn lemma_signed() {
    }
}

impl Integer for i32 {
    open spec fn lower() -> int {
        i32::MIN as int
    }

    open spec fn upper() -> int {
        i32::MAX as int
    }

    open spec fn as_int(self) -> int {
        self as int
    }

    proof fn lemma_bounded(x: Self) {
    }

    proof fn lemma_interval() {
    }

    proof fn lemma_as_int_injective(x: Self, y: Self) {
    }

    fn zero() -> (z: Self) {
        0
    }

    fn from_small(x: u8) -> (r: Self) {
        x as i32
    }

    fn less_than(self, rhs: Self) -> (b: bool) {
        self < rhs
    }

    fn overflowing_mul(self, rhs: Self) -> (r: (Self, bool)) {
        proof {
            lemma_signed_residue(self * rhs, i32::MAX + 1);
        }
        (self.wrapping_mul(rhs), self.checked_mul(rhs).is_none())
    }

    fn overflowing_add(self, rhs: Self) -> (r: (Self, bool)) {
        proof {
            lemma_wrap_once(self + rhs, i32::MIN as int, i32::MAX - i32::MIN + 1);
        }
        (self.wrapping_add(rhs), self.checked_add(rhs).is_none())
    }

    fn checked_mul(self, rhs: Self) -> (r: Option<Self>) {
        self.checked_mul(rhs)
    }

    fn checked_add(self, rhs: Self) -> (r: Option<Self>) {
        self.checked_add(rhs)
    }

    fn wrapping_neg(self) -> (r: Self) {
        proof {
            lemma_wrap_once(-self, i32::MIN as int, i32::MAX - i32::MIN + 1);
        }
        0i32.wrapping_sub(self)
    }
}

impl SignedInteger for i32 {
    proof fn lemma_signed() {
    }
}

impl Integer for i64 {
    open spec fn lower() -> int {
        i64::MIN as int
    }

    open spec fn upper() -> int {
        i64::MAX as int
    }

    open spec fn as_int(self) -> int {
        self as int
    }

    proof fn lemma_bounded(x: Self) {
    }

    proof fn lemma_interval() {
    }

    proof fn lemma_as_int_injective(x: Self, y: Self) {
    }

    fn zero() -> (z: Self) {
        0
    }

    fn from_small(x: u8) -> (r: Self) {
        x as i64
    }

    fn less_than(self, rhs: Self) -> (b: bool) {
        self < rhs
    }

    fn overflowing_mul(self, rhs: Self) -> (r: (Self, bool)) {
        proof {
            lemma_signed_residue(self * rhs, i64::MAX + 1);
        }
        (self.wrapping_mul(rhs), self.checked_mul(rhs).is_none())
    }

    fn overflowing_add(self, rhs: Self) -> (r: (Self, bool)) {
        proof {
            lemma_wrap_once(self + rhs, i64::MIN as int, i64::MAX - i64::MIN + 1);
        }
        (self.wrapping_add(rhs), self.checked_add(rhs).is_none())
    }

    fn checked_mul(self, rhs: Self) -> (r: Option<Self>) {
        self.checked_mul(rhs)
    }

    fn checked_add(self, rhs: Self) -> (r: Option<Self>) {
        self.checked_add(rhs)
    }

    fn wrapping_neg(self) -> (r: Self) {
        proof {
            lemma_wrap_once(-self, i64::MIN as int, i64::MAX - i64::MIN + 1);
        }
        0i64.wrapping_sub(self)
    }
}

impl SignedInteger for i64 {
    proof fn lemma_signed() {
    }
}

impl Integer for i128 {
    open spec fn lower() -> int {
        i128::MIN as int
    }

    open spec fn upper() -> int {
        i128::MAX as int
    }

    open spec fn as_int(self) -> int {
        self as int
    }

    proof fn lemma_bounded(x: Self) {
    }

    proof fn lemma_interval() {
    }

    proof fn lemma_as_int_injective(x: Self, y: Self) {
    }

    fn zero() -> (z: Self) {
        0
    }

    fn from_small(x: u8) -> (r: Self) {
        x as i128
    }

    fn less_than(self, rhs: Self) -> (b: bool) {
        self < rhs
    }

    fn overflowing_mul(self, rhs: Self) -> (r: (Self, bool)) {
        proof {
            lemma_signed_residue(self * rhs, i128::MAX + 1);
        }
        (self.wrapping_mul(rhs), self.checked_mul(rhs).is_none())
    }

    fn overflowing_add(self, rhs: Self) -> (r: (Self, bool)) {
        proof {
            lemma_wrap_once(self + rhs, i128::MIN as int, i128::MAX - i128::MIN + 1);
        }
        (self.wrapping_add(rhs), self.checked_add(rhs).is_none())
    }

    fn checked_mul(self, rhs: Self) -> (r: Option<Self>) {
        self.checked_mul(rhs)
    }

    fn checked_add(self, rhs: Self) -> (r: Option<Self>) {
        self.checked_add(rhs)
    }

    fn wrapping_neg(self) -> (r: Self) {
        proof {
            lemma_wrap_once(-self, i128::MIN as int, i128::MAX - i128::MIN + 1);
        }
        0i128.wrapping_sub(self)
    }
}

impl SignedInteger for i128 {
    proof fn lemma_signed() {
    }
}

impl Integer for isize {
    open spec fn lower() -> int {
        isize::MIN as int
    }

    open spec fn upper() -> int {
        isize::MAX as int
    }

    open spec fn as_int(self) -> int {
        self as int
    }

    proof fn lemma_bounded(x: Self) {
    }

    proof fn lemma_interval() {
    }

    proof fn lemma_as_int_injective(x: Self, y: Self) {
    }

    fn zero() -> (z: Self) {
        0
    }

    fn from_small(x: u8) -> (r: Self) {
        x as isize
    }

    fn less_than(self, rhs: Self) -> (b: bool) {
        self < rhs
    }

    fn overflowing_mul(self, rhs: Self) -> (r: (Self, bool)) {
        proof {
            lemma_signed_residue(self * rhs, isize::MAX + 1);
        }
        (self.wrapping_mul(rhs), self.checked_mul(rhs).is_none())
    }

    fn overflowing_add(self, rhs: Self) -> (r: (Self, bool)) {
        proof {
            lemma_wrap_once(self + rhs, isize::MIN as int, isize::MAX - isize::MIN + 1);
        }
        (self.wrapping_add(rhs), self.checked_add(rhs).is_none())
    }

    fn checked_mul(self, rhs: Self) -> (r: Option<Self>) {
        self.checked_mul(rhs)
    }

    fn checked_add(self, rhs: Self) -> (r: Option<Self>) {
        self.checked_add(rhs)
    }

    fn wrapping_neg(self) -> (r: Self) {
        proof {
            lemma_wrap_once(-self, isize::MIN as int, isize::MAX - isize::MIN + 1);
        }
        0isize.wrapping_sub(self)
    }
}

impl SignedInteger for isize {
    proof fn lemma_signed() {
    }
}

} // verus!

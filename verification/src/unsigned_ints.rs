//! The unsigned primitive integers as accumulation targets.

use crate::integer::{lemma_unsigned_product, lemma_wrap_once, Integer, UnsignedInteger};
use vstd::prelude::*;

verus! {

impl Integer for u8 {
    open spec fn lower() -> int {
        u8::MIN as int
    }

    open spec fn upper() -> int {
        u8::MAX as int
    }

    open spec fn as_int(self) -> int {
        self as int
    }

    proof fn lemma_bounded(x: Self) {
    }

    proof fn lemma_interval() {
    }

    proof fn lemma_as_int_injective(x: Self, y: Self) {
    }

    fn zero() -> (z: Self) {
        0
    }

    fn from_small(x: u8) -> (r: Self) {
        x
    }

    fn less_than(self, rhs: Self) -> (b: bool) {
        self < rhs
    }

    fn overflowing_mul(self, rhs: Self) -> (r: (Self, bool)) {
        proof {
            lemma_unsigned_product(self as int, rhs as int, u8::MAX + 1);
        }
        (self.wrapping_mul(rhs), self.checked_mul(rhs).is_none())
    }

    fn overflowing_add(self, rhs: Self) -> (r: (Self, bool)) {
        proof {
            lemma_wrap_once(self + rhs, 0, u8::MAX + 1);
        }
        (self.wrapping_add(rhs), self.checked_add(rhs).is_none())
    }

    fn checked_mul(self, rhs: Self) -> (r: Option<Self>) {
        proof {
            lemma_unsigned_product(self as int, rhs as int, u8::MAX + 1);
        }
        self.checked_mul(rhs)
    }

    fn checked_add(self, rhs: Self) -> (r: Option<Self>) {
        self.checked_add(rhs)
    }

    fn wrapping_neg(self) -> (r: Self) {
        proof {
            lemma_wrap_once(-self, 0, u8::MAX + 1);
        }
        0u8.wrapping_sub(self)
    }
}

impl UnsignedInteger for u8 {
    proof fn lemma_unsigned() {
    }
}

impl Integer for u16 {
    open spec fn lower() -> int {
        u16::MIN as int
    }

    open spec fn upper() -> int {
        u16::MAX as int
    }

    open spec fn as_int(self) -> int {
        self as int
    }

    proof fn lemma_bounded(x: Self) {
    }

    proof fn lemma_interval() {
    }

    proof fn lemma_as_int_injective(x: Self, y: Self) {
    }

    fn zero() -> (z: Self) {
        0
    }

    fn from_small(x: u8) -> (r: Self) {
        x as u16
    }

    fn less_than(self, rhs: Self) -> (b: bool) {
        self < rhs
    }

    fn overflowing_mul(self, rhs: Self) -> (r: (Self, bool)) {
        proof {
            lemma_unsigned_product(self as int, rhs as int, u16::MAX + 1);
        }
        (self.wrapping_mul(rhs), self.checked_mul(rhs).is_none())
    }

    fn overflowing_add(self, rhs: Self) -> (r: (Self, bool)) {
        proof {
            lemma_wrap_once(self + rhs, 0, u16::MAX + 1);
        }
        (self.wrapping_add(rhs), self.checked_add(rhs).is_none())
    }

    fn checked_mul(self, rhs: Self) -> (r: Option<Self>) {
        proof {
            lemma_unsigned_product(self as int, rhs as int, u16::MAX + 1);
        }
        self.checked_mul(rhs)
    }

    fn checked_add(self, rhs: Self) -> (r: Option<Self>) {
        self.checked_add(rhs)
    }

    fn wrapping_neg(self) -> (r: Self) {
        proof {
            lemma_wrap_once(-self, 0, u16::MAX + 1);
        }
        0u16.wrapping_sub(self)
    }
}

impl UnsignedInteger for u16 {
    proof fn lemma_unsigned() {
    }
}

impl Integer for u32 {
    open spec fn lower() -> int {
        u32::MIN as int
    }

    open spec fn upper() -> int {
        u32::MAX as int
    }

    open spec fn as_int(self) -> int {
        self as int
    }

    proof fn lemma_bounded(x: Self) {
    }

    proof fn lemma_interval() {
    }

    proof fn lemma_as_int_injective(x: Self, y: Self) {
    }

    fn zero() -> (z: Self) {
        0
    }

    fn from_small(x: u8) -> (r: Self) {
        x as u32
    }

    fn less_than(self, rhs: Self) -> (b: bool) {
        self < rhs
    }

    fn overflowing_mul(self, rhs: Self) -> (r: (Self, bool)) {
        proof {
            lemma_unsigned_product(self as int, rhs as int, u32::MAX + 1);
        }
        (self.wrapping_mul(rhs), self.checked_mul(rhs).is_none())
    }

    fn overflowing_add(self, rhs: Self) -> (r: (Self, bool)) {
        proof {
            lemma_wrap_once(self + rhs, 0, u32::MAX + 1);
        }
        (self.wrapping_add(rhs), self.checked_add(rhs).is_none())
    }

    fn checked_mul(self, rhs: Self) -> (r: Option<Self>) {
        proof {
            lemma_unsigned_product(self as int, rhs as int, u32::MAX + 1);
        }
        self.checked_mul(rhs)
    }

    fn checked_add(self, rhs: Self) -> (r: Option<Self>) {
        self.checked_add(rhs)
    }

    fn wrapping_neg(self) -> (r: Self) {
        proof {
            lemma_wrap_once(-self, 0, u32::MAX + 1);
        }
        0u32.wrapping_sub(self)
    }
}

impl UnsignedInteger for u32 {
    proof fn lemma_unsigned() {
    }
}

impl Integer for u64 {
    open spec fn lower() -> int {
        u64::MIN as int
    }

    open spec fn upper() -> int {
        u64::MAX as int
    }

    open spec fn as_int(self) -> int {
        self as int
    }

    proof fn lemma_bounded(x: Self) {
    }

    proof fn lemma_interval() {
    }

    proof fn lemma_as_int_injective(x: Self, y: Self) {
    }

    fn zero() -> (z: Self) {
        0
    }

    fn from_small(x: u8) -> (r: Self) {
        x as u64
    }

    fn less_than(self, rhs: Self) -> (b: bool) {
        self < rhs
    }

    fn overflowing_mul(self, rhs: Self) -> (r: (Self, bool)) {
        proof {
            lemma_unsigned_product(self as int, rhs as int, u64::MAX + 1);
        }
        (self.wrapping_mul(rhs), self.checked_mul(rhs).is_none())
    }

    fn overflowing_add(self, rhs: Self) -> (r: (Self, bool)) {
        proof {
            lemma_wrap_once(self + rhs, 0, u64::MAX + 1);
        }
        (self.wrapping_add(rhs), self.checked_add(rhs).is_none())
    }

    fn checked_mul(self, rhs: Self) -> (r: Option<Self>) {
        proof {
            lemma_unsigned_product(self as int, rhs as int, u64::MAX + 1);
        }
        self.checked_mul(rhs)
    }

    fn checked_add(self, rhs: Self) -> (r: Option<Self>) {
        self.checked_add(rhs)
    }

    fn wrapping_neg(self) -> (r: Self) {
        proof {
            lemma_wrap_once(-self, 0, u64::MAX + 1);
        }
        0u64.wrapping_sub(self)
    }
}

impl UnsignedInteger for u64 {
    proof fn lemma_unsigned() {
    }
}

impl Integer for u128 {
    open spec fn lower() -> int {
        u128::MIN as int
    }

    open spec fn upper() -> int {
        u128::MAX as int
    }

    open spec fn as_int(self) -> int {
        self as int
    }

    proof fn lemma_bounded(x: Self) {
    }

    proof fn lemma_interval() {
    }

    proof fn lemma_as_int_injective(x: Self, y: Self) {
    }

    fn zero() -> (z: Self) {
        0
    }

    fn from_small(x: u8) -> (r: Self) {
        x as u128
    }

    fn less_than(self, rhs: Self) -> (b: bool) {
        self < rhs
    }

    fn overflowing_mul(self, rhs: Self) -> (r: (Self, bool)) {
        proof {
            lemma_unsigned_product(self as int, rhs as int, u128::MAX + 1);
        }
        (self.wrapping_mul(rhs), self.checked_mul(rhs).is_none())
    }

    fn overflowing_add(self, rhs: Self) -> (r: (Self, bool)) {
        proof {
            lemma_wrap_once(self + rhs, 0, u128::MAX + 1);
        }
        (self.wrapping_add(rhs), self.checked_add(rhs).is_none())
    }

    fn checked_mul(self, rhs: Self) -> (r: Option<Self>) {
        proof {
            lemma_unsigned_product(self as int, rhs as int, u128::MAX + 1);
        }
        self.checked_mul(rhs)
    }

    fn checked_add(self, rhs: Self) -> (r: Option<Self>) {
        self.checked_add(rhs)
    }

    fn wrapping_neg(self) -> (r: Self) {
        proof {
            lemma_wrap_once(-self, 0, u128::MAX + 1);
        }
        0u128.wrapping_sub(self)
    }
}

impl UnsignedInteger for u128 {
    proof fn lemma_unsigned() {
    }
}

impl Integer for usize {
    open spec fn lower() -> int {
        usize::MIN as int
    }

    open spec fn upper() -> int {
        usize::MAX as int
    }

    open spec fn as_int(self) -> int {
        self as int
    }

    proof fn lemma_bounded(x: Self) {
    }

    proof fn lemma_interval() {
    }

    proof fn lemma_as_int_injective(x: Self, y: Self) {
    }

    fn zero() -> (z: Self) {
        0
    }

    fn from_small(x: u8) -> (r: Self) {
        x as usize
    }

    fn less_than(self, rhs: Self) -> (b: bool) {
        self < rhs
    }

    fn overflowing_mul(self, rhs: Self) -> (r: (Self, bool)) {
        proof {
            lemma_unsigned_product(self as int, rhs as int, usize::MAX + 1);
        }
        (self.wrapping_mul(rhs), self.checked_mul(rhs).is_none())
    }

    fn overflowing_add(self, rhs: Self) -> (r: (Self, bool)) {
        proof {
            lemma_wrap_once(self + rhs, 0, usize::MAX + 1);
        }
        (self.wrapping_add(rhs), self.checked_add(rhs).is_none())
    }

    fn checked_mul(self, rhs: Self) -> (r: Option<Self>) {
        proof {
            lemma_unsigned_product(self as int, rhs as int, usize::MAX + 1);
        }
        self.checked_mul(rhs)
    }

    fn checked_add(self, rhs: Self) -> (r: Option<Self>) {
        self.checked_add(rhs)
    }

    fn wrapping_neg(self) -> (r: Self) {
        proof {
            lemma_wrap_once(-self, 0, usize::MAX + 1);
        }
        0usize.wrapping_sub(self)
    }
}

impl UnsignedInteger for usize {
    proof fn lemma_unsigned() {
    }
}

} // verus!

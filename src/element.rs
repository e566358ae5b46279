use vstd::prelude::*;

use crate::text::{push_decimal, push_signed_decimal, signed_decimal};

verus! {

/// Rust's integer quotient: the exact quotient rounded toward zero.
pub open spec fn trunc_quotient(a: int, b: int) -> int {
    if a >= 0 {
        a / b
    } else {
        -((-a) / b)
    }
}

/// An element type that a `Data` buffer can hold.
///
/// Each value stands for a mathematical integer, `value()`. The arithmetic
/// operations are specified over that integer and may only be used where the
/// exact result can be held by the type (`holds`).
pub trait NumericElement: Sized + Copy {
    /// The integer that this value stands for.
    spec fn value(self) -> int;

    /// Whether the type can hold the integer `v`.
    spec fn holds(v: int) -> bool;

    /// Every value that the type can hold stands for one integer it holds,
    /// and distinct values stand for distinct integers.
    proof fn lemma_value(x: Self, y: Self)
        ensures
            Self::holds(x.value()),
            x.value() == y.value() ==> x == y,
    ;

    /// The additive identity.
    fn zero() -> (r: Self)
        ensures
            r.value() == 0,
    ;

    /// The element that stands for a count.
    fn from_count(n: usize) -> (r: Self)
        requires
            Self::holds(n as int),
        ensures
            r.value() == n,
    ;

    /// Addition.
    fn plus(&self, other: &Self) -> (r: Self)
        requires
            Self::holds(self.value() + other.value()),
        ensures
            r.value() == self.value() + other.value(),
    ;

    /// Multiplication.
    fn times(&self, other: &Self) -> (r: Self)
        requires
            Self::holds(self.value() * other.value()),
        ensures
            r.value() == self.value() * other.value(),
    ;

    /// Division by a positive divisor, rounded toward zero.
    fn divided_by(&self, other: &Self) -> (r: Self)
        requires
            other.value() > 0,
        ensures
            r.value() == trunc_quotient(self.value(), other.value()),
    ;

    /// Strict ordering.
    fn less_than(&self, other: &Self) -> (r: bool)
        ensures
            r == (self.value() < other.value()),
    ;

    /// The decimal form of the value.
    fn render(&self) -> (r: String)
        ensures
            r@ == signed_decimal(self.value()),
    ;
}

impl NumericElement for i32 {
    open spec fn value(self) -> int {
        self as int
    }

    open spec fn holds(v: int) -> bool {
        i32::MIN <= v <= i32::MAX
    }

    proof fn lemma_value(x: Self, y: Self) {
    }

    fn zero() -> (r: Self) {
        0
    }

    fn from_count(n: usize) -> (r: Self) {
        n as i32
    }

    fn plus(&self, other: &Self) -> (r: Self) {
        *self + *other
    }

    fn times(&self, other: &Self) -> (r: Self) {
        *self * *other
    }

    fn divided_by(&self, other: &Self) -> (r: Self) {
        *self / *other
    }

    fn less_than(&self, other: &Self) -> (r: bool) {
        *self < *other
    }

    fn render(&self) -> (r: String) {
        let mut r = String::new();
        push_signed_decimal(&mut r, *self as i64);
        r
    }
}


impl NumericElement for i64 {
    open spec fn value(self) -> int {
        self as int
    }

    open spec fn holds(v: int) -> bool {
        i64::MIN <= v <= i64::MAX
    }

    proof fn lemma_value(x: Self, y: Self) {
    }

    fn zero() -> (r: Self) {
        0
    }

    fn from_count(n: usize) -> (r: Self) {
        n as i64
    }

    fn plus(&self, other: &Self) -> (r: Self) {
        *self + *other
    }

    fn times(&self, other: &Self) -> (r: Self) {
        *self * *other
    }

    fn divided_by(&self, other: &Self) -> (r: Self) {
        *self / *other
    }

    fn less_than(&self, other: &Self) -> (r: bool) {
        *self < *other
    }

    fn render(&self) -> (r: String) {
        let mut r = String::new();
        push_signed_decimal(&mut r, *self);
        r
    }
}


impl NumericElement for u32 {
    open spec fn value(self) -> int {
        self as int
    }

    open spec fn holds(v: int) -> bool {
        u32::MIN <= v <= u32::MAX
    }

    proof fn lemma_value(x: Self, y: Self) {
    }

    fn zero() -> (r: Self) {
        0
    }

    fn from_count(n: usize) -> (r: Self) {
        n as u32
    }

    fn plus(&self, other: &Self) -> (r: Self) {
        *self + *other
    }

    fn times(&self, other: &Self) -> (r: Self) {
        *self * *other
    }

    fn divided_by(&self, other: &Self) -> (r: Self) {
        *self / *other
    }

    fn less_than(&self, other: &Self) -> (r: bool) {
        *self < *other
    }

    fn render(&self) -> (r: String) {
        let mut r = String::new();
        push_decimal(&mut r, *self as u64);
        r
    }
}


impl NumericElement for u64 {
    open spec fn value(self) -> int {
        self as int
    }

    open spec fn holds(v: int) -> bool {
        u64::MIN <= v <= u64::MAX
    }

    proof fn lemma_value(x: Self, y: Self) {
    }

    fn zero() -> (r: Self) {
        0
    }

    fn from_count(n: usize) -> (r: Self) {
        n as u64
    }

    fn plus(&self, other: &Self) -> (r: Self) {
        *self + *other
    }

    fn times(&self, other: &Self) -> (r: Self) {
        *self * *other
    }

    fn divided_by(&self, other: &Self) -> (r: Self) {
        *self / *other
    }

    fn less_than(&self, other: &Self) -> (r: bool) {
        *self < *other
    }

    fn render(&self) -> (r: String) {
        let mut r = String::new();
        push_decimal(&mut r, *self);
        r
    }
}

} // verus!

//! The capability a numeric type must offer to serve as a contig length:
//! an integer model, bounds, a sign test, checked subtraction and the
//! checked step of decimal accumulation.

use vstd::prelude::*;

verus! {

/// A numeric type usable as the number of base pairs of a contig.
///
/// Implementors model their values as mathematical integers through
/// [`ContigLength::as_int`]; every operation's contract is stated over that
/// model. Verified impls are provided for the common unsigned integer widths
/// and for `i64`, whose values can be negative.
pub trait ContigLength: Sized {
    /// The mathematical integer a value stands for.
    spec fn as_int(&self) -> int;

    /// The smallest integer the type can hold.
    spec fn spec_min() -> int;

    /// The largest integer the type can hold.
    spec fn spec_max() -> int;

    /// Every value lies within the type's bounds, which enclose zero.
    proof fn lemma_bounds(&self)
        ensures
            Self::spec_min() <= self.as_int() <= Self::spec_max(),
            Self::spec_min() <= 0 < Self::spec_max(),
    ;

    /// The value standing for zero.
    fn zero() -> (r: Self)
        ensures
            r.as_int() == 0,
    ;

    /// Whether the value is negative.
    fn is_negative(&self) -> (r: bool)
        ensures
            r == (self.as_int() < 0),
    ;

    /// Subtraction that reports, instead of wrapping, a difference the type
    /// cannot hold.
    fn checked_sub(&self, other: &Self) -> (r: Option<Self>)
        ensures
            r is Some <==> Self::spec_min() <= self.as_int() - other.as_int()
                <= Self::spec_max(),
            r is Some ==> r->Some_0.as_int() == self.as_int() - other.as_int(),
    ;

    /// One step of reading a decimal numeral: multiply the value read so far
    /// by ten and add the next digit, reporting a result the type cannot
    /// hold.
    fn checked_mul10_add(&self, digit: u8) -> (r: Option<Self>)
        requires
            0 <= self.as_int(),
            digit < 10,
        ensures
            r is Some <==> self.as_int() * 10 + digit <= Self::spec_max(),
            r is Some ==> r->Some_0.as_int() == self.as_int() * 10 + digit,
    ;
}

impl ContigLength for u8 {
    fn zero() -> (r: Self) {
        0
    }

    open spec fn as_int(&self) -> int {
        *self as int
    }

    open spec fn spec_min() -> int {
        0
    }

    open spec fn spec_max() -> int {
        u8::MAX as int
    }

    proof fn lemma_bounds(&self) {
    }

    fn is_negative(&self) -> (r: bool) {
        false
    }

    fn checked_sub(&self, other: &Self) -> (r: Option<Self>) {
        u8::checked_sub(*self, *other)
    }

    fn checked_mul10_add(&self, digit: u8) -> (r: Option<Self>) {
        match u8::checked_mul(*self, 10) {
            Some(x) => u8::checked_add(x, digit),
            None => None,
        }
    }
}

impl ContigLength for u32 {
    fn zero() -> (r: Self) {
        0
    }

    open spec fn as_int(&self) -> int {
        *self as int
    }

    open spec fn spec_min() -> int {
        0
    }

    open spec fn spec_max() -> int {
        u32::MAX as int
    }

    proof fn lemma_bounds(&self) {
    }

    fn is_negative(&self) -> (r: bool) {
        false
    }

    fn checked_sub(&self, other: &Self) -> (r: Option<Self>) {
        u32::checked_sub(*self, *other)
    }

    fn checked_mul10_add(&self, digit: u8) -> (r: Option<Self>) {
        match u32::checked_mul(*self, 10) {
            Some(x) => u32::checked_add(x, digit as u32),
            None => None,
        }
    }
}

impl ContigLength for u64 {
    fn zero() -> (r: Self) {
        0
    }

    open spec fn as_int(&self) -> int {
        *self as int
    }

    open spec fn spec_min() -> int {
        0
    }

    open spec fn spec_max() -> int {
        u64::MAX as int
    }

    proof fn lemma_bounds(&self) {
    }

    fn is_negative(&self) -> (r: bool) {
        false
    }

    fn checked_sub(&self, other: &Self) -> (r: Option<Self>) {
        u64::checked_sub(*self, *other)
    }

    fn checked_mul10_add(&self, digit: u8) -> (r: Option<Self>) {
        match u64::checked_mul(*self, 10) {
            Some(x) => u64::checked_add(x, digit as u64),
            None => None,
        }
    }
}

impl ContigLength for usize {
    fn zero() -> (r: Self) {
        0
    }

    open spec fn as_int(&self) -> int {
        *self as int
    }

    open spec fn spec_min() -> int {
        0
    }

    open spec fn spec_max() -> int {
        usize::MAX as int
    }

    proof fn lemma_bounds(&self) {
    }

    fn is_negative(&self) -> (r: bool) {
        false
    }

    fn checked_sub(&self, other: &Self) -> (r: Option<Self>) {
        usize::checked_sub(*self, *other)
    }

    fn checked_mul10_add(&self, digit: u8) -> (r: Option<Self>) {
        match usize::checked_mul(*self, 10) {
            Some(x) => usize::checked_add(x, digit as usize),
            None => None,
        }
    }
}

impl ContigLength for i64 {
    fn zero() -> (r: Self) {
        0
    }

    open spec fn as_int(&self) -> int {
        *self as int
    }

    open spec fn spec_min() -> int {
        i64::MIN as int
    }

    open spec fn spec_max() -> int {
        i64::MAX as int
    }

    proof fn lemma_bounds(&self) {
    }

    fn is_negative(&self) -> (r: bool) {
        *self < 0
    }

    fn checked_sub(&self, other: &Self) -> (r: Option<Self>) {
        i64::checked_sub(*self, *other)
    }

    fn checked_mul10_add(&self, digit: u8) -> (r: Option<Self>) {
        match i64::checked_mul(*self, 10) {
            Some(x) => i64::checked_add(x, digit as i64),
            None => None,
        }
    }
}

} // verus!

//! The element types that an array can hold: each has a zero, which fills
//! the null slots and the unused lanes of a batch, and a wrapping addition,
//! which sums lanes.
use vstd::prelude::*;

verus! {

/// A fixed-width numeric element type.
pub trait NativeType: Copy + Sized {
    /// The zero value of the type.
    spec fn zero_spec() -> Self;

    /// Addition that wraps around at the bounds of the type.
    spec fn add_spec(a: Self, b: Self) -> Self;

    fn zero() -> (r: Self)
        ensures
            r == Self::zero_spec(),
    ;

    fn add_wrapping(a: Self, b: Self) -> (r: Self)
        ensures
            r == Self::add_spec(a, b),
    ;
}

impl NativeType for i8 {
    open spec fn zero_spec() -> i8 {
        0
    }

    open spec fn add_spec(a: i8, b: i8) -> i8 {
        a.wrapping_add(b)
    }

    fn zero() -> (r: i8) {
        0
    }

    fn add_wrapping(a: i8, b: i8) -> (r: i8) {
        a.wrapping_add(b)
    }
}

impl NativeType for i16 {
    open spec fn zero_spec() -> i16 {
        0
    }

    open spec fn add_spec(a: i16, b: i16) -> i16 {
        a.wrapping_add(b)
    }

    fn zero() -> (r: i16) {
        0
    }

    fn add_wrapping(a: i16, b: i16) -> (r: i16) {
        a.wrapping_add(b)
    }
}

impl NativeType for i32 {
    open spec fn zero_spec() -> i32 {
        0
    }

    open spec fn add_spec(a: i32, b: i32) -> i32 {
        a.wrapping_add(b)
    }

    fn zero() -> (r: i32) {
        0
    }

    fn add_wrapping(a: i32, b: i32) -> (r: i32) {
        a.wrapping_add(b)
    }
}

impl NativeType for i64 {
    open spec fn zero_spec() -> i64 {
        0
    }

    open spec fn add_spec(a: i64, b: i64) -> i64 {
        a.wrapping_add(b)
    }

    fn zero() -> (r: i64) {
        0
    }

    fn add_wrapping(a: i64, b: i64) -> (r: i64) {
        a.wrapping_add(b)
    }
}

impl NativeType for isize {
    open spec fn zero_spec() -> isize {
        0
    }

    open spec fn add_spec(a: isize, b: isize) -> isize {
        a.wrapping_add(b)
    }

    fn zero() -> (r: isize) {
        0
    }

    fn add_wrapping(a: isize, b: isize) -> (r: isize) {
        a.wrapping_add(b)
    }
}

impl NativeType for u8 {
    open spec fn zero_spec() -> u8 {
        0
    }

    open spec fn add_spec(a: u8, b: u8) -> u8 {
        a.wrapping_add(b)
    }

    fn zero() -> (r: u8) {
        0
    }

    fn add_wrapping(a: u8, b: u8) -> (r: u8) {
        a.wrapping_add(b)
    }
}

impl NativeType for u16 {
    open spec fn zero_spec() -> u16 {
        0
    }

    open spec fn add_spec(a: u16, b: u16) -> u16 {
        a.wrapping_add(b)
    }

    fn zero() -> (r: u16) {
        0
    }

    fn add_wrapping(a: u16, b: u16) -> (r: u16) {
        a.wrapping_add(b)
    }
}

impl NativeType for u32 {
    open spec fn zero_spec() -> u32 {
        0
    }

    open spec fn add_spec(a: u32, b: u32) -> u32 {
        a.wrapping_add(b)
    }

    fn zero() -> (r: u32) {
        0
    }

    fn add_wrapping(a: u32, b: u32) -> (r: u32) {
        a.wrapping_add(b)
    }
}

impl NativeType for u64 {
    open spec fn zero_spec() -> u64 {
        0
    }

    open spec fn add_spec(a: u64, b: u64) -> u64 {
        a.wrapping_add(b)
    }

    fn zero() -> (r: u64) {
        0
    }

    fn add_wrapping(a: u64, b: u64) -> (r: u64) {
        a.wrapping_add(b)
    }
}

impl NativeType for usize {
    open spec fn zero_spec() -> usize {
        0
    }

    open spec fn add_spec(a: usize, b: usize) -> usize {
        a.wrapping_add(b)
    }

    fn zero() -> (r: usize) {
        0
    }

    fn add_wrapping(a: usize, b: usize) -> (r: usize) {
        a.wrapping_add(b)
    }
}

} // verus!

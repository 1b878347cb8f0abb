//! Elements of tiles, and what accompanies operations on them.
use vstd::prelude::*;

verus! {

/// A type that the elements of a tile can be of.
pub trait ElementType: Copy {
    /// The element that stands for nothing.
    spec fn zero_spec() -> Self;

    fn zero() -> (r: Self)
        ensures
            r == Self::zero_spec(),
    ;
}

/// An element of one byte.
pub trait ByteElement: ElementType {

}

/// A value that fills a tile.
pub trait Scalar {

}

/// An element that sums are made of, in the arithmetic of its bits.
pub trait SumElement: ElementType {
    spec fn sum_spec(self, other: Self) -> Self;

    fn sum(self, other: Self) -> (r: Self)
        ensures
            r == self.sum_spec(other),
    ;

    /// Two elements can be added in either order.
    proof fn sums_meet(a: Self, b: Self, c: Self)
        ensures
            a.sum_spec(b).sum_spec(c) == a.sum_spec(c).sum_spec(b),
    ;

    /// What is added changes the sum, unless it is zero.
    proof fn sum_differs(a: Self, b: Self)
        requires
            b != Self::zero_spec(),
        ensures
            a.sum_spec(b) != a,
    ;
}

/// An element that pointers are moved by.
pub trait OffsetElement: ElementType {
    spec fn offset_spec(self) -> int;

    fn to_offset(self) -> (r: i64)
        ensures
            r == self.offset_spec(),
    ;
}

/// A pointer, as the number of bytes that what it points to takes.
pub trait Pointer {
    spec fn width_spec() -> u64;

    fn width() -> (r: u64)
        ensures
            r == Self::width_spec(),
    ;
}

/// What later operations on memory are ordered by.
#[derive(Clone, Copy, Debug, PartialEq, Eq, Structural)]
pub struct Token {}

/// For how many cycles an operation is expected to take.
#[derive(Clone, Copy, Debug)]
pub struct Latency<const CYCLES: u32>;

impl ElementType for i8 {
    open spec fn zero_spec() -> i8 {
        0
    }

    fn zero() -> i8 {
        0
    }
}

impl Scalar for i8 {

}

impl SumElement for i8 {
    open spec fn sum_spec(self, other: i8) -> i8 {
        self.wrapping_add(other)
    }

    fn sum(self, other: i8) -> i8 {
        self.wrapping_add(other)
    }

    proof fn sums_meet(a: i8, b: i8, c: i8) {
    }

    proof fn sum_differs(a: i8, b: i8) {
    }
}

impl OffsetElement for i8 {
    open spec fn offset_spec(self) -> int {
        self as int
    }

    fn to_offset(self) -> i64 {
        self as i64
    }
}

impl ElementType for u8 {
    open spec fn zero_spec() -> u8 {
        0
    }

    fn zero() -> u8 {
        0
    }
}

impl Scalar for u8 {

}

impl SumElement for u8 {
    open spec fn sum_spec(self, other: u8) -> u8 {
        self.wrapping_add(other)
    }

    fn sum(self, other: u8) -> u8 {
        self.wrapping_add(other)
    }

    proof fn sums_meet(a: u8, b: u8, c: u8) {
    }

    proof fn sum_differs(a: u8, b: u8) {
    }
}

impl OffsetElement for u8 {
    open spec fn offset_spec(self) -> int {
        self as int
    }

    fn to_offset(self) -> i64 {
        self as i64
    }
}

impl ElementType for i16 {
    open spec fn zero_spec() -> i16 {
        0
    }

    fn zero() -> i16 {
        0
    }
}

impl Scalar for i16 {

}

impl SumElement for i16 {
    open spec fn sum_spec(self, other: i16) -> i16 {
        self.wrapping_add(other)
    }

    fn sum(self, other: i16) -> i16 {
        self.wrapping_add(other)
    }

    proof fn sums_meet(a: i16, b: i16, c: i16) {
    }

    proof fn sum_differs(a: i16, b: i16) {
    }
}

impl OffsetElement for i16 {
    open spec fn offset_spec(self) -> int {
        self as int
    }

    fn to_offset(self) -> i64 {
        self as i64
    }
}

impl ElementType for u16 {
    open spec fn zero_spec() -> u16 {
        0
    }

    fn zero() -> u16 {
        0
    }
}

impl Scalar for u16 {

}

impl SumElement for u16 {
    open spec fn sum_spec(self, other: u16) -> u16 {
        self.wrapping_add(other)
    }

    fn sum(self, other: u16) -> u16 {
        self.wrapping_add(other)
    }

    proof fn sums_meet(a: u16, b: u16, c: u16) {
    }

    proof fn sum_differs(a: u16, b: u16) {
    }
}

impl OffsetElement for u16 {
    open spec fn offset_spec(self) -> int {
        self as int
    }

    fn to_offset(self) -> i64 {
        self as i64
    }
}

impl ElementType for i32 {
    open spec fn zero_spec() -> i32 {
        0
    }

    fn zero() -> i32 {
        0
    }
}

impl Scalar for i32 {

}

impl SumElement for i32 {
    open spec fn sum_spec(self, other: i32) -> i32 {
        self.wrapping_add(other)
    }

    fn sum(self, other: i32) -> i32 {
        self.wrapping_add(other)
    }

    proof fn sums_meet(a: i32, b: i32, c: i32) {
    }

    proof fn sum_differs(a: i32, b: i32) {
    }
}

impl OffsetElement for i32 {
    open spec fn offset_spec(self) -> int {
        self as int
    }

    fn to_offset(self) -> i64 {
        self as i64
    }
}

impl ElementType for u32 {
    open spec fn zero_spec() -> u32 {
        0
    }

    fn zero() -> u32 {
        0
    }
}

impl Scalar for u32 {

}

impl SumElement for u32 {
    open spec fn sum_spec(self, other: u32) -> u32 {
        self.wrapping_add(other)
    }

    fn sum(self, other: u32) -> u32 {
        self.wrapping_add(other)
    }

    proof fn sums_meet(a: u32, b: u32, c: u32) {
    }

    proof fn sum_differs(a: u32, b: u32) {
    }
}

impl OffsetElement for u32 {
    open spec fn offset_spec(self) -> int {
        self as int
    }

    fn to_offset(self) -> i64 {
        self as i64
    }
}

impl ElementType for i64 {
    open spec fn zero_spec() -> i64 {
        0
    }

    fn zero() -> i64 {
        0
    }
}

impl Scalar for i64 {

}

impl SumElement for i64 {
    open spec fn sum_spec(self, other: i64) -> i64 {
        self.wrapping_add(other)
    }

    fn sum(self, other: i64) -> i64 {
        self.wrapping_add(other)
    }

    proof fn sums_meet(a: i64, b: i64, c: i64) {
    }

    proof fn sum_differs(a: i64, b: i64) {
    }
}

impl OffsetElement for i64 {
    open spec fn offset_spec(self) -> int {
        self as int
    }

    fn to_offset(self) -> i64 {
        self as i64
    }
}

impl ElementType for u64 {
    open spec fn zero_spec() -> u64 {
        0
    }

    fn zero() -> u64 {
        0
    }
}

impl Scalar for u64 {

}

impl SumElement for u64 {
    open spec fn sum_spec(self, other: u64) -> u64 {
        self.wrapping_add(other)
    }

    fn sum(self, other: u64) -> u64 {
        self.wrapping_add(other)
    }

    proof fn sums_meet(a: u64, b: u64, c: u64) {
    }

    proof fn sum_differs(a: u64, b: u64) {
    }
}

impl ElementType for bool {
    open spec fn zero_spec() -> bool {
        false
    }

    fn zero() -> bool {
        false
    }
}

impl Scalar for bool {

}

impl ByteElement for i8 {

}

impl ByteElement for u8 {

}

/// A pointer to what takes one byte.
#[derive(Clone, Copy, Debug)]
pub struct Pointer8;

impl Pointer for Pointer8 {
    open spec fn width_spec() -> u64 {
        1
    }

    fn width() -> u64 {
        1
    }
}

/// A pointer to what takes two bytes.
#[derive(Clone, Copy, Debug)]
pub struct Pointer16;

impl Pointer for Pointer16 {
    open spec fn width_spec() -> u64 {
        2
    }

    fn width() -> u64 {
        2
    }
}

/// A pointer to what takes four bytes.
#[derive(Clone, Copy, Debug)]
pub struct Pointer32;

impl Pointer for Pointer32 {
    open spec fn width_spec() -> u64 {
        4
    }

    fn width() -> u64 {
        4
    }
}

/// A pointer to what takes eight bytes.
#[derive(Clone, Copy, Debug)]
pub struct Pointer64;

impl Pointer for Pointer64 {
    open spec fn width_spec() -> u64 {
        8
    }

    fn width() -> u64 {
        8
    }
}

} // verus!

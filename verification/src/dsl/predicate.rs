//! How two numbers are compared.
use vstd::prelude::*;

verus! {

/// One of the markers of this module.
pub trait Mode {
    spec fn holds(a: int, b: int) -> bool;

    fn test(a: i128, b: i128) -> (r: bool)
        ensures
            r == Self::holds(a as int, b as int),
    ;
}

/// Whether they are equal.
#[derive(Clone, Copy, Debug)]
pub struct Equal;

impl Mode for Equal {
    open spec fn holds(a: int, b: int) -> bool {
        a == b
    }

    fn test(a: i128, b: i128) -> bool {
        a == b
    }
}

/// Whether they differ.
#[derive(Clone, Copy, Debug)]
pub struct NotEqual;

impl Mode for NotEqual {
    open spec fn holds(a: int, b: int) -> bool {
        a != b
    }

    fn test(a: i128, b: i128) -> bool {
        a != b
    }
}

/// Whether the first is less.
#[derive(Clone, Copy, Debug)]
pub struct LessThan;

impl Mode for LessThan {
    open spec fn holds(a: int, b: int) -> bool {
        a < b
    }

    fn test(a: i128, b: i128) -> bool {
        a < b
    }
}

/// Whether the first is less or equal.
#[derive(Clone, Copy, Debug)]
pub struct LessThanOrEqual;

impl Mode for LessThanOrEqual {
    open spec fn holds(a: int, b: int) -> bool {
        a <= b
    }

    fn test(a: i128, b: i128) -> bool {
        a <= b
    }
}

/// Whether the first is greater.
#[derive(Clone, Copy, Debug)]
pub struct GreaterThan;

impl Mode for GreaterThan {
    open spec fn holds(a: int, b: int) -> bool {
        a > b
    }

    fn test(a: i128, b: i128) -> bool {
        a > b
    }
}

/// Whether the first is greater or equal.
#[derive(Clone, Copy, Debug)]
pub struct GreaterThanOrEqual;

impl Mode for GreaterThanOrEqual {
    open spec fn holds(a: int, b: int) -> bool {
        a >= b
    }

    fn test(a: i128, b: i128) -> bool {
        a >= b
    }
}

} // verus!

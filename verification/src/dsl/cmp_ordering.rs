//! What a comparison of floating-point numbers gives where one of them is a NaN.
use vstd::prelude::*;

verus! {

/// One of the markers of this module.
pub trait Mode {

}

/// It succeeds.
#[derive(Clone, Copy, Debug)]
pub struct Unordered;

impl Mode for Unordered {

}

/// It fails.
#[derive(Clone, Copy, Debug)]
pub struct Ordered;

impl Mode for Ordered {

}

} // verus!

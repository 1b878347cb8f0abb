//! What lanes outside of a tensor read as.
use vstd::prelude::*;

verus! {

/// One of the markers of this module.
pub trait Mode {

}

/// Nothing is promised of them.
#[derive(Clone, Copy, Debug)]
pub struct Unpadded;

impl Mode for Unpadded {

}

/// Zero.
#[derive(Clone, Copy, Debug)]
pub struct Zero;

impl Mode for Zero {

}

/// Negative zero.
#[derive(Clone, Copy, Debug)]
pub struct NegZero;

impl Mode for NegZero {

}

/// NaN.
#[derive(Clone, Copy, Debug)]
pub struct Nan;

impl Mode for Nan {

}

/// Positive infinity.
#[derive(Clone, Copy, Debug)]
pub struct PosInf;

impl Mode for PosInf {

}

/// Negative infinity.
#[derive(Clone, Copy, Debug)]
pub struct NegInf;

impl Mode for NegInf {

}

} // verus!

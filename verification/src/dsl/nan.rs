//! Whether the maximum or minimum of a number and a NaN is a NaN.
use vstd::prelude::*;

verus! {

/// One of the markers of this module.
pub trait Mode {

}

/// It is.
#[derive(Clone, Copy, Debug)]
pub struct Enabled;

impl Mode for Enabled {

}

/// It is the number.
#[derive(Clone, Copy, Debug)]
pub struct Disabled;

impl Mode for Disabled {

}

} // verus!

//! Flush-to-zero modifier: whether denormal inputs and results become zeros of their sign.
use vstd::prelude::*;

verus! {

/// One of the markers of this module.
pub trait Mode {

}

/// Denormals are flushed.
#[derive(Clone, Copy, Debug)]
pub struct Enabled;

impl Mode for Enabled {

}

/// Denormals are kept.
#[derive(Clone, Copy, Debug)]
pub struct Disabled;

impl Mode for Disabled {

}

} // verus!

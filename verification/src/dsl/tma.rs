//! Whether an operation may use the tensor memory accelerator.
use vstd::prelude::*;

verus! {

/// One of the markers of this module.
pub trait Mode {

}

/// It may.
#[derive(Clone, Copy, Debug)]
pub struct Enabled;

impl Mode for Enabled {

}

/// It may not.
#[derive(Clone, Copy, Debug)]
pub struct Disabled;

impl Mode for Disabled {

}

} // verus!

//! Which dimension of a tensor a dimension of its tiles runs along.
use vstd::prelude::*;

verus! {

/// One of the markers of this module.
pub trait Mode {

}

/// Its own.
#[derive(Clone, Copy, Debug)]
pub struct Identity;

impl Mode for Identity {

}

} // verus!

//! In which direction a scan runs.
use vstd::prelude::*;

verus! {

/// One of the markers of this module.
pub trait Mode {
    spec fn backwards_spec() -> bool;

    fn backwards() -> (r: bool)
        ensures
            r == Self::backwards_spec(),
    ;
}

/// From the first element on.
#[derive(Clone, Copy, Debug)]
pub struct Forward;

impl Mode for Forward {
    open spec fn backwards_spec() -> bool {
        false
    }

    fn backwards() -> bool {
        false
    }
}

/// From the last element on.
#[derive(Clone, Copy, Debug)]
pub struct Reverse;

impl Mode for Reverse {
    open spec fn backwards_spec() -> bool {
        true
    }

    fn backwards() -> bool {
        true
    }
}

} // verus!

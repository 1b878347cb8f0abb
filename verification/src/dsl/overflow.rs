//! What is promised of the overflow of an integer operation.
use vstd::prelude::*;

verus! {

/// One of the markers of this module.
pub trait Mode {
    /// Whether the promise is kept by results that are made of the signed and of the unsigned
    /// readings of the operands, where there are so many different elements.
    spec fn allows(signed: int, unsigned: int, modulus: int) -> bool;
}

/// Nothing.
#[derive(Clone, Copy, Debug)]
pub struct Unspecified;

impl Mode for Unspecified {
    open spec fn allows(signed: int, unsigned: int, modulus: int) -> bool {
        true
    }
}

/// The result fits as a signed number.
#[derive(Clone, Copy, Debug)]
pub struct NoSignedWrap;

impl Mode for NoSignedWrap {
    open spec fn allows(signed: int, unsigned: int, modulus: int) -> bool {
        -modulus <= signed * 2 < modulus
    }
}

/// The result fits as an unsigned number.
#[derive(Clone, Copy, Debug)]
pub struct NoUnsignedWrap;

impl Mode for NoUnsignedWrap {
    open spec fn allows(signed: int, unsigned: int, modulus: int) -> bool {
        0 <= unsigned < modulus
    }
}

/// The result fits either way.
#[derive(Clone, Copy, Debug)]
pub struct NoWrap;

impl Mode for NoWrap {
    open spec fn allows(signed: int, unsigned: int, modulus: int) -> bool {
        -modulus <= signed * 2 < modulus && 0 <= unsigned < modulus
    }
}

} // verus!

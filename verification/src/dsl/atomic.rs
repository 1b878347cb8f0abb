//! What an atomic operation does with the value in memory and its operand.
use vstd::prelude::*;

verus! {

/// One of the markers of this module.
pub trait Mode {
    spec fn change_spec() -> Change;

    fn change() -> (r: Change)
        ensures
            r == Self::change_spec(),
    ;
}

/// What becomes of the element in memory.
#[derive(Clone, Copy, Debug, PartialEq, Eq, Structural)]
pub enum Change {
    Add,
    AddF,
    And,
    Or,
    Xor,
    Max,
    Min,
    Umax,
    Umin,
    Xchg,
}

/// Adds integers.
#[derive(Clone, Copy, Debug)]
pub struct Add;

impl Mode for Add {
    open spec fn change_spec() -> Change {
        Change::Add
    }

    fn change() -> Change {
        Change::Add
    }
}

/// Adds floating-point numbers.
#[derive(Clone, Copy, Debug)]
pub struct AddF;

impl Mode for AddF {
    open spec fn change_spec() -> Change {
        Change::AddF
    }

    fn change() -> Change {
        Change::AddF
    }
}

/// Bitwise and.
#[derive(Clone, Copy, Debug)]
pub struct And;

impl Mode for And {
    open spec fn change_spec() -> Change {
        Change::And
    }

    fn change() -> Change {
        Change::And
    }
}

/// Bitwise or.
#[derive(Clone, Copy, Debug)]
pub struct Or;

impl Mode for Or {
    open spec fn change_spec() -> Change {
        Change::Or
    }

    fn change() -> Change {
        Change::Or
    }
}

/// Bitwise exclusive or.
#[derive(Clone, Copy, Debug)]
pub struct Xor;

impl Mode for Xor {
    open spec fn change_spec() -> Change {
        Change::Xor
    }

    fn change() -> Change {
        Change::Xor
    }
}

/// The larger of two signed numbers.
#[derive(Clone, Copy, Debug)]
pub struct Max;

impl Mode for Max {
    open spec fn change_spec() -> Change {
        Change::Max
    }

    fn change() -> Change {
        Change::Max
    }
}

/// The lesser of two signed numbers.
#[derive(Clone, Copy, Debug)]
pub struct Min;

impl Mode for Min {
    open spec fn change_spec() -> Change {
        Change::Min
    }

    fn change() -> Change {
        Change::Min
    }
}

/// The larger of two unsigned numbers.
#[derive(Clone, Copy, Debug)]
pub struct Umax;

impl Mode for Umax {
    open spec fn change_spec() -> Change {
        Change::Umax
    }

    fn change() -> Change {
        Change::Umax
    }
}

/// The lesser of two unsigned numbers.
#[derive(Clone, Copy, Debug)]
pub struct Umin;

impl Mode for Umin {
    open spec fn change_spec() -> Change {
        Change::Umin
    }

    fn change() -> Change {
        Change::Umin
    }
}

/// Exchanges the two.
#[derive(Clone, Copy, Debug)]
pub struct Xchg;

impl Mode for Xchg {
    open spec fn change_spec() -> Change {
        Change::Xchg
    }

    fn change() -> Change {
        Change::Xchg
    }
}

} // verus!

//! Whether integers are read as signed.
use crate::dsl::integer::{self, to_bits, IntElement};
use vstd::prelude::*;

verus! {

/// One of the markers of this module.
pub trait Mode {
    /// How a number is read that has these bits, of so many.
    spec fn reading(number: int, bits: int, modulus: int) -> int;

    fn read(number: i128, bits: i128, modulus: i128) -> (r: i128)
        requires
            -0xffff_ffff_ffff_ffff <= number <= 0xffff_ffff_ffff_ffff,
            0 <= bits < modulus <= 0x1_0000_0000_0000_0000,
        ensures
            r == Self::reading(number as int, bits as int, modulus as int),
            -0xffff_ffff_ffff_ffff <= r <= 0xffff_ffff_ffff_ffff,
    ;
}

/// They are.
#[derive(Clone, Copy, Debug)]
pub struct Signed;

impl Mode for Signed {
    open spec fn reading(number: int, bits: int, modulus: int) -> int {
        if bits * 2 >= modulus {
            bits - modulus
        } else {
            bits
        }
    }

    fn read(number: i128, bits: i128, modulus: i128) -> i128 {
        if bits * 2 >= modulus {
            bits - modulus
        } else {
            bits
        }
    }
}

/// They are not.
#[derive(Clone, Copy, Debug)]
pub struct Unsigned;

impl Mode for Unsigned {
    open spec fn reading(number: int, bits: int, modulus: int) -> int {
        bits
    }

    fn read(number: i128, bits: i128, modulus: i128) -> i128 {
        bits
    }
}

/// They are read as their own type says.
#[derive(Clone, Copy, Debug)]
pub struct Inherent;

impl Mode for Inherent {
    open spec fn reading(number: int, bits: int, modulus: int) -> int {
        number
    }

    fn read(number: i128, bits: i128, modulus: i128) -> i128 {
        number
    }
}

/// The number that an element is read as.
pub open spec fn read_as<E: IntElement, M: Mode>(element: E) -> int {
    M::reading(element.number(), integer::bits_of(element), E::modulus_spec())
}

/// The number that an element is read as.
pub fn read_element<E: IntElement, M: Mode>(element: E) -> (r: i128)
    ensures
        r == read_as::<E, M>(element),
        -0xffff_ffff_ffff_ffff <= r <= 0xffff_ffff_ffff_ffff,
{
    proof {
        E::modulus_is_in_range();
        element.number_is_in_range();
        integer::readings_are_in_range(element);
    }
    M::read(element.to_wide(), to_bits(element) as i128, E::modulus() as i128)
}

} // verus!

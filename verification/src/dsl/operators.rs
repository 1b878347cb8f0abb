//! The operators between tiles: they work element by element.
use crate::dsl::arithmetic::{self, addi, andi, divi, muli, ori, remi, subi, xori};
use crate::dsl::integer::IntElement;
use crate::dsl::overflow;
use crate::dsl::rounding;
use crate::dsl::tile::{Tile, TileView};
use vstd::prelude::*;

verus! {

/// Whether an operator works on two tiles: they are of the same dimensions.
pub open spec fn matching<E>(lhs: TileView<E>, rhs: TileView<E>) -> bool {
    lhs.wf() && rhs.wf() && lhs.dims == rhs.dims
}

/// Whether no element of a tile is zero.
pub open spec fn without_zero<E: IntElement>(tile: TileView<E>) -> bool {
    forall|i: int| 0 <= i < tile.data.len() ==> (#[trigger] tile.data[i]).number() != 0
}

impl<E: IntElement> vstd::std_specs::ops::AddSpecImpl for Tile<E> {
    open spec fn obeys_add_spec() -> bool {
        false
    }

    open spec fn add_req(self, rhs: Tile<E>) -> bool {
        matching(self@, rhs@)
    }

    open spec fn add_spec(self, rhs: Tile<E>) -> Tile<E> {
        self
    }
}

impl<E: IntElement> std::ops::Add for Tile<E> {
    type Output = Tile<E>;

    /// Adds two tiles, element by element.
    fn add(self, rhs: Tile<E>) -> (r: Tile<E>)
        ensures
            r@.wf(),
            r@ == arithmetic::zipped(self@, rhs@, |a: E, b: E| arithmetic::sum_of(a, b)),
    {
        addi(&self, &rhs, overflow::Unspecified)
    }
}

impl<E: IntElement> vstd::std_specs::ops::SubSpecImpl for Tile<E> {
    open spec fn obeys_sub_spec() -> bool {
        false
    }

    open spec fn sub_req(self, rhs: Tile<E>) -> bool {
        matching(self@, rhs@)
    }

    open spec fn sub_spec(self, rhs: Tile<E>) -> Tile<E> {
        self
    }
}

impl<E: IntElement> std::ops::Sub for Tile<E> {
    type Output = Tile<E>;

    /// Subtracts a tile from another, element by element.
    fn sub(self, rhs: Tile<E>) -> (r: Tile<E>)
        ensures
            r@.wf(),
            r@ == arithmetic::zipped(self@, rhs@, |a: E, b: E| arithmetic::difference_of(a, b)),
    {
        subi(&self, &rhs, overflow::Unspecified)
    }
}

impl<E: IntElement> vstd::std_specs::ops::MulSpecImpl for Tile<E> {
    open spec fn obeys_mul_spec() -> bool {
        false
    }

    open spec fn mul_req(self, rhs: Tile<E>) -> bool {
        matching(self@, rhs@)
    }

    open spec fn mul_spec(self, rhs: Tile<E>) -> Tile<E> {
        self
    }
}

impl<E: IntElement> std::ops::Mul for Tile<E> {
    type Output = Tile<E>;

    /// Multiplies two tiles, element by element.
    fn mul(self, rhs: Tile<E>) -> (r: Tile<E>)
        ensures
            r@.wf(),
            r@ == arithmetic::zipped(self@, rhs@, |a: E, b: E| arithmetic::product_of(a, b)),
    {
        muli(&self, &rhs, overflow::Unspecified)
    }
}

impl<E: IntElement> vstd::std_specs::ops::DivSpecImpl for Tile<E> {
    open spec fn obeys_div_spec() -> bool {
        false
    }

    open spec fn div_req(self, rhs: Tile<E>) -> bool {
        matching(self@, rhs@) && without_zero(rhs@)
    }

    open spec fn div_spec(self, rhs: Tile<E>) -> Tile<E> {
        self
    }
}

impl<E: IntElement> std::ops::Div for Tile<E> {
    type Output = Tile<E>;

    /// Divides a tile by another, element by element, towards zero.
    fn div(self, rhs: Tile<E>) -> (r: Tile<E>)
        ensures
            r@.wf(),
            r@ == arithmetic::zipped(
                self@,
                rhs@,
                |a: E, b: E| arithmetic::quotient_of::<E, rounding::Zero>(a, b),
            ),
    {
        divi(&self, &rhs, rounding::Zero)
    }
}

impl<E: IntElement> vstd::std_specs::ops::RemSpecImpl for Tile<E> {
    open spec fn obeys_rem_spec() -> bool {
        false
    }

    open spec fn rem_req(self, rhs: Tile<E>) -> bool {
        matching(self@, rhs@) && without_zero(rhs@)
    }

    open spec fn rem_spec(self, rhs: Tile<E>) -> Tile<E> {
        self
    }
}

impl<E: IntElement> std::ops::Rem for Tile<E> {
    type Output = Tile<E>;

    /// What is left of a tile by another, element by element.
    fn rem(self, rhs: Tile<E>) -> (r: Tile<E>)
        ensures
            r@.wf(),
            r@ == arithmetic::zipped(self@, rhs@, |a: E, b: E| arithmetic::remainder_of(a, b)),
    {
        remi(&self, &rhs)
    }
}

impl<E: IntElement> vstd::std_specs::ops::BitAndSpecImpl for Tile<E> {
    open spec fn obeys_bitand_spec() -> bool {
        false
    }

    open spec fn bitand_req(self, rhs: Tile<E>) -> bool {
        matching(self@, rhs@)
    }

    open spec fn bitand_spec(self, rhs: Tile<E>) -> Tile<E> {
        self
    }
}

impl<E: IntElement> std::ops::BitAnd for Tile<E> {
    type Output = Tile<E>;

    /// The bits that two tiles both have.
    fn bitand(self, rhs: Tile<E>) -> (r: Tile<E>)
        ensures
            r@.wf(),
            r@ == arithmetic::zipped(self@, rhs@, |a: E, b: E| arithmetic::both_bits(a, b)),
    {
        andi(&self, &rhs)
    }
}

impl<E: IntElement> vstd::std_specs::ops::BitOrSpecImpl for Tile<E> {
    open spec fn obeys_bitor_spec() -> bool {
        false
    }

    open spec fn bitor_req(self, rhs: Tile<E>) -> bool {
        matching(self@, rhs@)
    }

    open spec fn bitor_spec(self, rhs: Tile<E>) -> Tile<E> {
        self
    }
}

impl<E: IntElement> std::ops::BitOr for Tile<E> {
    type Output = Tile<E>;

    /// The bits that one of two tiles has.
    fn bitor(self, rhs: Tile<E>) -> (r: Tile<E>)
        ensures
            r@.wf(),
            r@ == arithmetic::zipped(self@, rhs@, |a: E, b: E| arithmetic::any_bits(a, b)),
    {
        ori(&self, &rhs)
    }
}

impl<E: IntElement> vstd::std_specs::ops::BitXorSpecImpl for Tile<E> {
    open spec fn obeys_bitxor_spec() -> bool {
        false
    }

    open spec fn bitxor_req(self, rhs: Tile<E>) -> bool {
        matching(self@, rhs@)
    }

    open spec fn bitxor_spec(self, rhs: Tile<E>) -> Tile<E> {
        self
    }
}

impl<E: IntElement> std::ops::BitXor for Tile<E> {
    type Output = Tile<E>;

    /// The bits in which two tiles differ.
    fn bitxor(self, rhs: Tile<E>) -> (r: Tile<E>)
        ensures
            r@.wf(),
            r@ == arithmetic::zipped(self@, rhs@, |a: E, b: E| arithmetic::other_bits(a, b)),
    {
        xori(&self, &rhs)
    }
}

} // verus!

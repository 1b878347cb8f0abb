//! Operations on tiles of integers, element by element.
use crate::dsl::element::ElementType;
use crate::dsl::integer::{self, to_bits, to_parts, wrap_parts, wrap_wide, IntElement};
use crate::dsl::overflow;
use crate::dsl::predicate;
use crate::dsl::rounding::{self, divide_left_over, QuotientMode};
use crate::dsl::tile::{Tile, TileView};
use vstd::arithmetic::power2;
use vstd::prelude::*;

verus! {

/// A tile with each element changed.
pub open spec fn mapped<A, R>(tile: TileView<A>, change: spec_fn(A) -> R) -> TileView<R> {
    TileView {
        dims: tile.dims,
        data: Seq::new(tile.data.len(), |i: int| change(tile.data[i])),
    }
}

/// Two tiles of the same dimensions, taken together element by element.
pub open spec fn zipped<A, B, R>(
    lhs: TileView<A>,
    rhs: TileView<B>,
    joined: spec_fn(A, B) -> R,
) -> TileView<R> {
    TileView {
        dims: lhs.dims,
        data: Seq::new(lhs.data.len(), |i: int| joined(lhs.data[i], rhs.data[i])),
    }
}

pub(crate) fn map_tile<A: ElementType, R: ElementType, F: Fn(A) -> R>(
    tile: &Tile<A>,
    change: F,
) -> (r: Tile<R>)
    requires
        tile@.wf(),
        forall|i: int|
            0 <= i < tile@.data.len() ==> call_requires(change, (#[trigger] tile@.data[i],)),
    ensures
        r@.wf(),
        r@.dims == tile@.dims,
        r@.data.len() == tile@.data.len(),
        forall|i: int|
            0 <= i < tile@.data.len() ==> call_ensures(
                change,
                (tile@.data[i],),
                #[trigger] r@.data[i],
            ),
{
    let from = tile.elements();
    let mut data: Vec<R> = Vec::new();
    while data.len() < from.len()
        invariant
            from@ == tile@.data,
            data@.len() <= from@.len(),
            forall|i: int|
                0 <= i < tile@.data.len() ==> call_requires(change, (#[trigger] tile@.data[i],)),
            forall|i: int|
                0 <= i < data@.len() ==> call_ensures(
                    change,
                    (tile@.data[i],),
                    #[trigger] data@[i],
                ),
        decreases from@.len() - data@.len(),
    {
        let i: usize = data.len();
        assert(call_requires(change, (tile@.data[i as int],)));
        data.push(change(from[i]));
    }
    Tile::build(tile.shape(), data)
}

fn zip_tiles<A: ElementType, B: ElementType, R: ElementType, F: Fn(A, B) -> R>(
    lhs: &Tile<A>,
    rhs: &Tile<B>,
    joined: F,
) -> (r: Tile<R>)
    requires
        lhs@.wf(),
        rhs@.wf(),
        lhs@.dims == rhs@.dims,
        forall|i: int|
            0 <= i < lhs@.data.len() ==> call_requires(
                joined,
                (#[trigger] lhs@.data[i], rhs@.data[i]),
            ),
    ensures
        r@.wf(),
        r@.dims == lhs@.dims,
        r@.data.len() == lhs@.data.len(),
        forall|i: int|
            0 <= i < lhs@.data.len() ==> call_ensures(
                joined,
                (lhs@.data[i], rhs@.data[i]),
                #[trigger] r@.data[i],
            ),
{
    let a = lhs.elements();
    let b = rhs.elements();
    let mut data: Vec<R> = Vec::new();
    while data.len() < a.len()
        invariant
            a@ == lhs@.data,
            b@ == rhs@.data,
            a@.len() == b@.len(),
            data@.len() <= a@.len(),
            forall|i: int|
                0 <= i < lhs@.data.len() ==> call_requires(
                    joined,
                    (#[trigger] lhs@.data[i], rhs@.data[i]),
                ),
            forall|i: int|
                0 <= i < data@.len() ==> call_ensures(
                    joined,
                    (lhs@.data[i], rhs@.data[i]),
                    #[trigger] data@[i],
                ),
        decreases a@.len() - data@.len(),
    {
        let i: usize = data.len();
        assert(call_requires(joined, (lhs@.data[i as int], rhs@.data[i as int])));
        data.push(joined(a[i], b[i]));
    }
    Tile::build(lhs.shape(), data)
}

/// Whether a promise on overflow is kept by all results of an operation on two tiles.
pub open spec fn keeps_promise<E: IntElement, O: overflow::Mode>(
    lhs: TileView<E>,
    rhs: TileView<E>,
    exact: spec_fn(int, int) -> int,
) -> bool {
    forall|i: int|
        0 <= i < lhs.data.len() ==> O::allows(
            exact(integer::signed_of(#[trigger] lhs.data[i]), integer::signed_of(rhs.data[i])),
            exact(integer::bits_of(lhs.data[i]), integer::bits_of(rhs.data[i])),
            E::modulus_spec(),
        )
}

/// Whether an element is the number of a place in the bits of elements.
pub open spec fn is_shift<E: IntElement>(element: E) -> bool {
    element.number() >= 0 && power2::pow2(element.number() as nat) < E::modulus_spec()
}

// What becomes of one element or of two.

/// The sum of two elements.
pub open spec fn sum_of<E: IntElement>(a: E, b: E) -> E {
    integer::wrapped(a.number() + b.number())
}

/// The difference of two elements.
pub open spec fn difference_of<E: IntElement>(a: E, b: E) -> E {
    integer::wrapped(a.number() - b.number())
}

/// The product of two elements.
pub open spec fn product_of<E: IntElement>(a: E, b: E) -> E {
    integer::wrapped(a.number() * b.number())
}

/// The rounded quotient of two elements.
pub open spec fn quotient_of<E: IntElement, R: QuotientMode>(a: E, b: E) -> E {
    integer::wrapped(R::quotient(a.number(), b.number()))
}

/// What is left of an element by the truncated quotient.
pub open spec fn remainder_of<E: IntElement>(a: E, b: E) -> E {
    integer::wrapped(rounding::left_over(a.number(), b.number()))
}

/// The opposite of an element.
pub open spec fn opposite_of<E: IntElement>(a: E) -> E {
    integer::wrapped(-a.number())
}

/// The absolute value of an element.
pub open spec fn absolute_of<E: IntElement>(a: E) -> E {
    integer::wrapped(rounding::magnitude(a.number()))
}

/// The upper half of the bits of a product.
pub open spec fn high_part_of<E: IntElement>(a: E, b: E) -> E {
    integer::wrapped((a.number() * b.number()) / E::modulus_spec())
}

/// The greater one of two elements.
pub open spec fn greater_of<E: IntElement>(a: E, b: E) -> E {
    if a.number() >= b.number() {
        a
    } else {
        b
    }
}

/// The lesser one of two elements.
pub open spec fn lesser_of<E: IntElement>(a: E, b: E) -> E {
    if a.number() <= b.number() {
        a
    } else {
        b
    }
}

/// The bits that two elements both have.
pub open spec fn both_bits<E: IntElement>(a: E, b: E) -> E {
    integer::wrapped((integer::bits_of(a) as u64 & integer::bits_of(b) as u64) as int)
}

/// The bits that one of two elements has.
pub open spec fn any_bits<E: IntElement>(a: E, b: E) -> E {
    integer::wrapped((integer::bits_of(a) as u64 | integer::bits_of(b) as u64) as int)
}

/// The bits in which two elements differ.
pub open spec fn other_bits<E: IntElement>(a: E, b: E) -> E {
    integer::wrapped((integer::bits_of(a) as u64 ^ integer::bits_of(b) as u64) as int)
}

/// The bits that an element does not have.
pub open spec fn turned_bits<E: IntElement>(a: E) -> E {
    integer::wrapped((!(integer::bits_of(a) as u64)) as int)
}

/// The bits of an element, moved up by so many places.
pub open spec fn shifted_left<E: IntElement>(a: E, b: E) -> E {
    integer::wrapped(a.number() * power2::pow2(b.number() as nat))
}

/// The bits of an element, moved down by so many places; the sign of a signed one is
/// kept.
pub open spec fn shifted_right<E: IntElement>(a: E, b: E) -> E {
    integer::wrapped(a.number() / (power2::pow2(b.number() as nat) as int))
}

pub(crate) fn add_elements<E: IntElement>(a: E, b: E) -> (r: E)
    ensures
        r == sum_of(a, b),
{
    proof {
        E::modulus_is_in_range();
        a.number_is_in_range();
        b.number_is_in_range();
    }
    wrap_wide(a.to_wide() + b.to_wide())
}

fn subtract_elements<E: IntElement>(a: E, b: E) -> (r: E)
    ensures
        r == difference_of(a, b),
{
    proof {
        E::modulus_is_in_range();
        a.number_is_in_range();
        b.number_is_in_range();
    }
    wrap_wide(a.to_wide() - b.to_wide())
}

pub(crate) fn multiply_sizes(a: u64, b: u64) -> (r: u128)
    ensures
        r == a * b,
        r <= 0xffff_ffff_ffff_ffff * 0xffff_ffff_ffff_ffff,
{
    assert(a * b <= 0xffff_ffff_ffff_ffff * 0xffff_ffff_ffff_ffff) by (nonlinear_arith)
        requires
            a <= 0xffff_ffff_ffff_ffff,
            b <= 0xffff_ffff_ffff_ffff,
    ;
    a as u128 * b as u128
}

pub(crate) proof fn signs_of_product(a_negative: bool, a: int, b_negative: bool, b: int)
    ensures
        (if a_negative {
            -a
        } else {
            a
        }) * (if b_negative {
            -b
        } else {
            b
        }) == (if a_negative != b_negative {
            -(a * b)
        } else {
            a * b
        }),
{
    assert((-a) * b == -(a * b)) by (nonlinear_arith);
    assert(a * (-b) == -(a * b)) by (nonlinear_arith);
    assert((-a) * (-b) == a * b) by (nonlinear_arith);
}

pub(crate) fn multiply_elements<E: IntElement>(a: E, b: E) -> (r: E)
    ensures
        r == product_of(a, b),
{
    let (a_negative, a_size) = to_parts(a);
    let (b_negative, b_size) = to_parts(b);
    let size: u128 = multiply_sizes(a_size, b_size);
    proof {
        signs_of_product(a_negative, a_size as int, b_negative, b_size as int);
    }
    wrap_parts(a_negative != b_negative, size)
}

fn divide_elements<E: IntElement, R: QuotientMode>(a: E, b: E) -> (r: E)
    requires
        b.number() != 0,
    ensures
        r == quotient_of::<E, R>(a, b),
{
    proof {
        E::modulus_is_in_range();
        a.number_is_in_range();
        b.number_is_in_range();
    }
    wrap_wide(R::divide(a.to_wide(), b.to_wide()))
}

fn remain_elements<E: IntElement>(a: E, b: E) -> (r: E)
    requires
        b.number() != 0,
    ensures
        r == remainder_of(a, b),
{
    proof {
        E::modulus_is_in_range();
        a.number_is_in_range();
        b.number_is_in_range();
    }
    wrap_wide(divide_left_over(a.to_wide(), b.to_wide()))
}

fn negate_element<E: IntElement>(a: E) -> (r: E)
    ensures
        r == opposite_of(a),
{
    proof {
        E::modulus_is_in_range();
        a.number_is_in_range();
    }
    wrap_wide(-a.to_wide())
}

fn absolute_element<E: IntElement>(a: E) -> (r: E)
    ensures
        r == absolute_of(a),
{
    let (_, size) = to_parts(a);
    wrap_parts(false, size as u128)
}

fn multiply_high<E: IntElement>(a: E, b: E) -> (r: E)
    ensures
        r == high_part_of(a, b),
{
    let (a_negative, a_size) = to_parts(a);
    let (b_negative, b_size) = to_parts(b);
    let size: u128 = multiply_sizes(a_size, b_size);
    proof {
        signs_of_product(a_negative, a_size as int, b_negative, b_size as int);
    }
    proof {
        E::modulus_is_in_range();
    }
    let modulus: u128 = E::modulus();
    let ghost m = E::modulus_spec();
    if a_negative == b_negative || size == 0 {
        wrap_parts(false, size / modulus)
    } else {
        let below: u128 = (size - 1) / modulus;
        proof {
            let p = size as int;
            let q = below as int;
            let k = (p - 1) % m;
            vstd::arithmetic::div_mod::lemma_fundamental_div_mod(p - 1, m);
            vstd::arithmetic::div_mod::lemma_mod_division_less_than_divisor(p - 1, m);
            assert(-p == (-q - 1) * m + (m - 1 - k)) by (nonlinear_arith)
                requires
                    p - 1 == m * q + k,
            ;
            vstd::arithmetic::div_mod::lemma_fundamental_div_mod_converse(-p, m, -q - 1, m - 1 - k);
            assert(q <= p - 1) by (nonlinear_arith)
                requires
                    p - 1 == m * q + k,
                    0 <= k,
                    m >= 256,
                    p >= 1,
            ;
        }
        wrap_parts(true, below + 1)
    }
}

pub(crate) fn and_elements<E: IntElement>(a: E, b: E) -> (r: E)
    ensures
        r == both_bits(a, b),
{
    wrap_parts(false, (to_bits(a) & to_bits(b)) as u128)
}

pub(crate) fn or_elements<E: IntElement>(a: E, b: E) -> (r: E)
    ensures
        r == any_bits(a, b),
{
    wrap_parts(false, (to_bits(a) | to_bits(b)) as u128)
}

pub(crate) fn xor_elements<E: IntElement>(a: E, b: E) -> (r: E)
    ensures
        r == other_bits(a, b),
{
    wrap_parts(false, (to_bits(a) ^ to_bits(b)) as u128)
}

fn not_element<E: IntElement>(a: E) -> (r: E)
    ensures
        r == turned_bits(a),
{
    wrap_parts(false, (!to_bits(a)) as u128)
}

/// A power of two, where it is the number of a place.
fn power_of_two<E: IntElement>(exponent: E) -> (r: u64)
    requires
        is_shift(exponent),
    ensures
        r == power2::pow2(exponent.number() as nat),
        r > 0,
{
    proof {
        E::modulus_is_in_range();
        exponent.number_is_in_range();
        power2::lemma2_to64();
        power2::lemma_pow2_pos(exponent.number() as nat);
    }
    let count: i128 = exponent.to_wide();
    let mut power: u64 = 1;
    let mut i: i128 = 0;
    while i < count
        invariant
            0 <= i <= count,
            power == power2::pow2(i as nat),
            power2::pow2(count as nat) < 0x1_0000_0000_0000_0000,
        decreases count - i,
    {
        proof {
            power2::lemma_pow2_unfold((i + 1) as nat);
            if i + 1 < count {
                power2::lemma_pow2_strictly_increases((i + 1) as nat, count as nat);
            }
        }
        power = power * 2;
        i += 1;
    }
    power
}

fn shift_left<E: IntElement>(a: E, b: E) -> (r: E)
    requires
        is_shift(b),
    ensures
        r == shifted_left(a, b),
{
    let (negative, size) = to_parts(a);
    let power: u64 = power_of_two(b);
    proof {
        signs_of_product(negative, size as int, false, power as int);
    }
    wrap_parts(negative, multiply_sizes(size, power))
}

fn shift_right<E: IntElement>(a: E, b: E) -> (r: E)
    requires
        is_shift(b),
    ensures
        r == shifted_right(a, b),
{
    proof {
        E::modulus_is_in_range();
        a.number_is_in_range();
    }
    let power: u64 = power_of_two(b);
    wrap_wide(rounding::NegativeInf::divide(a.to_wide(), power as i128))
}

/// The lesser one of two elements.
pub fn min<E: IntElement>(a: E, b: E) -> (r: E)
    ensures
        r == lesser_of(a, b),
{
    if a.to_wide() <= b.to_wide() {
        a
    } else {
        b
    }
}

/// The greater one of two elements.
pub fn max<E: IntElement>(a: E, b: E) -> (r: E)
    ensures
        r == greater_of(a, b),
{
    if a.to_wide() >= b.to_wide() {
        a
    } else {
        b
    }
}

/// The quotient of two elements, rounded up.
pub fn ceil_div<E: IntElement>(a: E, b: E) -> (r: E)
    requires
        b.number() != 0,
    ensures
        r == quotient_of::<E, rounding::PositiveInf>(a, b),
{
    divide_elements::<E, rounding::PositiveInf>(a, b)
}

// Tiles.

/// Adds two tiles.
pub fn addi<E: IntElement, O: overflow::Mode>(
    lhs: &Tile<E>,
    rhs: &Tile<E>,
    overflow: O,
) -> (r: Tile<E>)
    requires
        lhs@.wf(),
        rhs@.wf(),
        lhs@.dims == rhs@.dims,
        keeps_promise::<E, O>(lhs@, rhs@, |a: int, b: int| a + b),
    ensures
        r@.wf(),
        r@ == zipped(lhs@, rhs@, |a: E, b: E| sum_of(a, b)),
{
    let joined = |a: E, b: E| -> (r: E)
        ensures
            r == sum_of(a, b),
        { add_elements(a, b) };
    let r = zip_tiles(lhs, rhs, joined);
    assert(r@.data =~= zipped(lhs@, rhs@, |a: E, b: E| sum_of(a, b)).data);
    r
}

/// Subtracts a tile from another.
pub fn subi<E: IntElement, O: overflow::Mode>(
    lhs: &Tile<E>,
    rhs: &Tile<E>,
    overflow: O,
) -> (r: Tile<E>)
    requires
        lhs@.wf(),
        rhs@.wf(),
        lhs@.dims == rhs@.dims,
        keeps_promise::<E, O>(lhs@, rhs@, |a: int, b: int| a - b),
    ensures
        r@.wf(),
        r@ == zipped(lhs@, rhs@, |a: E, b: E| difference_of(a, b)),
{
    let joined = |a: E, b: E| -> (r: E)
        ensures
            r == difference_of(a, b),
        { subtract_elements(a, b) };
    let r = zip_tiles(lhs, rhs, joined);
    assert(r@.data =~= zipped(lhs@, rhs@, |a: E, b: E| difference_of(a, b)).data);
    r
}

/// Multiplies two tiles.
pub fn muli<E: IntElement, O: overflow::Mode>(
    lhs: &Tile<E>,
    rhs: &Tile<E>,
    overflow: O,
) -> (r: Tile<E>)
    requires
        lhs@.wf(),
        rhs@.wf(),
        lhs@.dims == rhs@.dims,
        keeps_promise::<E, O>(lhs@, rhs@, |a: int, b: int| a * b),
    ensures
        r@.wf(),
        r@ == zipped(lhs@, rhs@, |a: E, b: E| product_of(a, b)),
{
    let joined = |a: E, b: E| -> (r: E)
        ensures
            r == product_of(a, b),
        { multiply_elements(a, b) };
    let r = zip_tiles(lhs, rhs, joined);
    assert(r@.data =~= zipped(lhs@, rhs@, |a: E, b: E| product_of(a, b)).data);
    r
}

/// Divides a tile by another, rounding each quotient.
pub fn divi<E: IntElement, R: QuotientMode>(
    lhs: &Tile<E>,
    rhs: &Tile<E>,
    rounding: R,
) -> (r: Tile<E>)
    requires
        lhs@.wf(),
        rhs@.wf(),
        lhs@.dims == rhs@.dims,
        forall|i: int| 0 <= i < rhs@.data.len() ==> (#[trigger] rhs@.data[i]).number() != 0,
        E::signed_spec() || R::takes_unsigned(),
    ensures
        r@.wf(),
        r@ == zipped(lhs@, rhs@, |a: E, b: E| quotient_of::<E, R>(a, b)),
{
    let joined = |a: E, b: E| -> (r: E)
        requires
            b.number() != 0,
        ensures
            r == quotient_of::<E, R>(a, b),
        { divide_elements::<E, R>(a, b) };
    let r = zip_tiles(lhs, rhs, joined);
    assert(r@.data =~= zipped(lhs@, rhs@, |a: E, b: E| quotient_of::<E, R>(a, b)).data);
    r
}

/// What is left of a tile by another: it has the sign of the first.
pub fn remi<E: IntElement>(lhs: &Tile<E>, rhs: &Tile<E>) -> (r: Tile<E>)
    requires
        lhs@.wf(),
        rhs@.wf(),
        lhs@.dims == rhs@.dims,
        forall|i: int| 0 <= i < rhs@.data.len() ==> (#[trigger] rhs@.data[i]).number() != 0,
    ensures
        r@.wf(),
        r@ == zipped(lhs@, rhs@, |a: E, b: E| remainder_of(a, b)),
{
    let joined = |a: E, b: E| -> (r: E)
        requires
            b.number() != 0,
        ensures
            r == remainder_of(a, b),
        { remain_elements(a, b) };
    let r = zip_tiles(lhs, rhs, joined);
    assert(r@.data =~= zipped(lhs@, rhs@, |a: E, b: E| remainder_of(a, b)).data);
    r
}

/// The upper halves of the products of two tiles.
pub fn mulhii<E: IntElement>(lhs: &Tile<E>, rhs: &Tile<E>) -> (r: Tile<E>)
    requires
        lhs@.wf(),
        rhs@.wf(),
        lhs@.dims == rhs@.dims,
    ensures
        r@.wf(),
        r@ == zipped(lhs@, rhs@, |a: E, b: E| high_part_of(a, b)),
{
    let joined = |a: E, b: E| -> (r: E)
        ensures
            r == high_part_of(a, b),
        { multiply_high(a, b) };
    let r = zip_tiles(lhs, rhs, joined);
    assert(r@.data =~= zipped(lhs@, rhs@, |a: E, b: E| high_part_of(a, b)).data);
    r
}

/// The greater elements of two tiles.
pub fn maxi<E: IntElement>(lhs: &Tile<E>, rhs: &Tile<E>) -> (r: Tile<E>)
    requires
        lhs@.wf(),
        rhs@.wf(),
        lhs@.dims == rhs@.dims,
    ensures
        r@.wf(),
        r@ == zipped(lhs@, rhs@, |a: E, b: E| greater_of(a, b)),
{
    let joined = |a: E, b: E| -> (r: E)
        ensures
            r == greater_of(a, b),
        { max(a, b) };
    let r = zip_tiles(lhs, rhs, joined);
    assert(r@.data =~= zipped(lhs@, rhs@, |a: E, b: E| greater_of(a, b)).data);
    r
}

/// The lesser elements of two tiles.
pub fn mini<E: IntElement>(lhs: &Tile<E>, rhs: &Tile<E>) -> (r: Tile<E>)
    requires
        lhs@.wf(),
        rhs@.wf(),
        lhs@.dims == rhs@.dims,
    ensures
        r@.wf(),
        r@ == zipped(lhs@, rhs@, |a: E, b: E| lesser_of(a, b)),
{
    let joined = |a: E, b: E| -> (r: E)
        ensures
            r == lesser_of(a, b),
        { min(a, b) };
    let r = zip_tiles(lhs, rhs, joined);
    assert(r@.data =~= zipped(lhs@, rhs@, |a: E, b: E| lesser_of(a, b)).data);
    r
}

/// The bits that two tiles both have.
pub fn andi<E: IntElement>(lhs: &Tile<E>, rhs: &Tile<E>) -> (r: Tile<E>)
    requires
        lhs@.wf(),
        rhs@.wf(),
        lhs@.dims == rhs@.dims,
    ensures
        r@.wf(),
        r@ == zipped(lhs@, rhs@, |a: E, b: E| both_bits(a, b)),
{
    let joined = |a: E, b: E| -> (r: E)
        ensures
            r == both_bits(a, b),
        { and_elements(a, b) };
    let r = zip_tiles(lhs, rhs, joined);
    assert(r@.data =~= zipped(lhs@, rhs@, |a: E, b: E| both_bits(a, b)).data);
    r
}

/// The bits that one of two tiles has.
pub fn ori<E: IntElement>(lhs: &Tile<E>, rhs: &Tile<E>) -> (r: Tile<E>)
    requires
        lhs@.wf(),
        rhs@.wf(),
        lhs@.dims == rhs@.dims,
    ensures
        r@.wf(),
        r@ == zipped(lhs@, rhs@, |a: E, b: E| any_bits(a, b)),
{
    let joined = |a: E, b: E| -> (r: E)
        ensures
            r == any_bits(a, b),
        { or_elements(a, b) };
    let r = zip_tiles(lhs, rhs, joined);
    assert(r@.data =~= zipped(lhs@, rhs@, |a: E, b: E| any_bits(a, b)).data);
    r
}

/// The bits in which two tiles differ.
pub fn xori<E: IntElement>(lhs: &Tile<E>, rhs: &Tile<E>) -> (r: Tile<E>)
    requires
        lhs@.wf(),
        rhs@.wf(),
        lhs@.dims == rhs@.dims,
    ensures
        r@.wf(),
        r@ == zipped(lhs@, rhs@, |a: E, b: E| other_bits(a, b)),
{
    let joined = |a: E, b: E| -> (r: E)
        ensures
            r == other_bits(a, b),
        { xor_elements(a, b) };
    let r = zip_tiles(lhs, rhs, joined);
    assert(r@.data =~= zipped(lhs@, rhs@, |a: E, b: E| other_bits(a, b)).data);
    r
}

/// Moves the bits of a tile up.
pub fn shli<E: IntElement, O: overflow::Mode>(
    lhs: &Tile<E>,
    rhs: &Tile<E>,
    overflow: O,
) -> (r: Tile<E>)
    requires
        lhs@.wf(),
        rhs@.wf(),
        lhs@.dims == rhs@.dims,
        forall|i: int| 0 <= i < rhs@.data.len() ==> is_shift(#[trigger] rhs@.data[i]),
        keeps_promise::<E, O>(lhs@, rhs@, |a: int, b: int| a * power2::pow2(b as nat)),
    ensures
        r@.wf(),
        r@ == zipped(lhs@, rhs@, |a: E, b: E| shifted_left(a, b)),
{
    let joined = |a: E, b: E| -> (r: E)
        requires
            is_shift(b),
        ensures
            r == shifted_left(a, b),
        { shift_left(a, b) };
    let r = zip_tiles(lhs, rhs, joined);
    assert(r@.data =~= zipped(lhs@, rhs@, |a: E, b: E| shifted_left(a, b)).data);
    r
}

/// Moves the bits of a tile down.
pub fn shri<E: IntElement>(lhs: &Tile<E>, rhs: &Tile<E>) -> (r: Tile<E>)
    requires
        lhs@.wf(),
        rhs@.wf(),
        lhs@.dims == rhs@.dims,
        forall|i: int| 0 <= i < rhs@.data.len() ==> is_shift(#[trigger] rhs@.data[i]),
    ensures
        r@.wf(),
        r@ == zipped(lhs@, rhs@, |a: E, b: E| shifted_right(a, b)),
{
    let joined = |a: E, b: E| -> (r: E)
        requires
            is_shift(b),
        ensures
            r == shifted_right(a, b),
        { shift_right(a, b) };
    let r = zip_tiles(lhs, rhs, joined);
    assert(r@.data =~= zipped(lhs@, rhs@, |a: E, b: E| shifted_right(a, b)).data);
    r
}

/// Compares two tiles.
pub fn cmpi<E: IntElement, P: predicate::Mode>(
    lhs: &Tile<E>,
    rhs: &Tile<E>,
    predicate: P,
) -> (r: Tile<bool>)
    requires
        lhs@.wf(),
        rhs@.wf(),
        lhs@.dims == rhs@.dims,
    ensures
        r@.wf(),
        r@ == zipped(lhs@, rhs@, |a: E, b: E| P::holds(a.number(), b.number())),
{
    let joined = |a: E, b: E| -> (r: bool)
        ensures
            r == P::holds(a.number(), b.number()),
        { P::test(a.to_wide(), b.to_wide()) };
    let r = zip_tiles(lhs, rhs, joined);
    assert(r@.data =~= zipped(lhs@, rhs@, |a: E, b: E| P::holds(a.number(), b.number())).data);
    r
}

/// Where two tiles are equal.
pub fn eq_tile<E: IntElement>(lhs: &Tile<E>, rhs: &Tile<E>) -> (r: Tile<bool>)
    requires
        lhs@.wf(),
        rhs@.wf(),
        lhs@.dims == rhs@.dims,
    ensures
        r@.wf(),
        r@ == zipped(lhs@, rhs@, |a: E, b: E| a.number() == b.number()),
{
    let r = cmpi(lhs, rhs, predicate::Equal);
    assert(r@.data =~= zipped(lhs@, rhs@, |a: E, b: E| a.number() == b.number()).data);
    r
}

/// Where two tiles differ.
pub fn ne_tile<E: IntElement>(lhs: &Tile<E>, rhs: &Tile<E>) -> (r: Tile<bool>)
    requires
        lhs@.wf(),
        rhs@.wf(),
        lhs@.dims == rhs@.dims,
    ensures
        r@.wf(),
        r@ == zipped(lhs@, rhs@, |a: E, b: E| a.number() != b.number()),
{
    let r = cmpi(lhs, rhs, predicate::NotEqual);
    assert(r@.data =~= zipped(lhs@, rhs@, |a: E, b: E| a.number() != b.number()).data);
    r
}

/// Where a tile is greater than another.
pub fn gt_tile<E: IntElement>(lhs: &Tile<E>, rhs: &Tile<E>) -> (r: Tile<bool>)
    requires
        lhs@.wf(),
        rhs@.wf(),
        lhs@.dims == rhs@.dims,
    ensures
        r@.wf(),
        r@ == zipped(lhs@, rhs@, |a: E, b: E| a.number() > b.number()),
{
    let r = cmpi(lhs, rhs, predicate::GreaterThan);
    assert(r@.data =~= zipped(lhs@, rhs@, |a: E, b: E| a.number() > b.number()).data);
    r
}

/// Where a tile is no less than another.
pub fn ge_tile<E: IntElement>(lhs: &Tile<E>, rhs: &Tile<E>) -> (r: Tile<bool>)
    requires
        lhs@.wf(),
        rhs@.wf(),
        lhs@.dims == rhs@.dims,
    ensures
        r@.wf(),
        r@ == zipped(lhs@, rhs@, |a: E, b: E| a.number() >= b.number()),
{
    let r = cmpi(lhs, rhs, predicate::GreaterThanOrEqual);
    assert(r@.data =~= zipped(lhs@, rhs@, |a: E, b: E| a.number() >= b.number()).data);
    r
}

/// Where a tile is less than another.
pub fn lt_tile<E: IntElement>(lhs: &Tile<E>, rhs: &Tile<E>) -> (r: Tile<bool>)
    requires
        lhs@.wf(),
        rhs@.wf(),
        lhs@.dims == rhs@.dims,
    ensures
        r@.wf(),
        r@ == zipped(lhs@, rhs@, |a: E, b: E| a.number() < b.number()),
{
    let r = cmpi(lhs, rhs, predicate::LessThan);
    assert(r@.data =~= zipped(lhs@, rhs@, |a: E, b: E| a.number() < b.number()).data);
    r
}

/// Where a tile is no greater than another.
pub fn le_tile<E: IntElement>(lhs: &Tile<E>, rhs: &Tile<E>) -> (r: Tile<bool>)
    requires
        lhs@.wf(),
        rhs@.wf(),
        lhs@.dims == rhs@.dims,
    ensures
        r@.wf(),
        r@ == zipped(lhs@, rhs@, |a: E, b: E| a.number() <= b.number()),
{
    let r = cmpi(lhs, rhs, predicate::LessThanOrEqual);
    assert(r@.data =~= zipped(lhs@, rhs@, |a: E, b: E| a.number() <= b.number()).data);
    r
}

/// The lesser elements of two tiles.
pub fn min_tile<E: IntElement>(a: &Tile<E>, b: &Tile<E>) -> (r: Tile<E>)
    requires
        a@.wf(),
        b@.wf(),
        a@.dims == b@.dims,
    ensures
        r@.wf(),
        r@ == zipped(a@, b@, |x: E, y: E| lesser_of(x, y)),
{
    mini(a, b)
}

/// The greater elements of two tiles.
pub fn max_tile<E: IntElement>(a: &Tile<E>, b: &Tile<E>) -> (r: Tile<E>)
    requires
        a@.wf(),
        b@.wf(),
        a@.dims == b@.dims,
    ensures
        r@.wf(),
        r@ == zipped(a@, b@, |x: E, y: E| greater_of(x, y)),
{
    maxi(a, b)
}

/// The opposites of the elements of a tile.
pub fn negi<E: IntElement, O: overflow::Mode>(x: &Tile<E>, overflow: O) -> (r: Tile<E>)
    requires
        x@.wf(),
        forall|i: int|
            0 <= i < x@.data.len() ==> O::allows(
                -integer::signed_of(#[trigger] x@.data[i]),
                -integer::bits_of(x@.data[i]),
                E::modulus_spec(),
            ),
    ensures
        r@.wf(),
        r@ == mapped(x@, |a: E| opposite_of(a)),
{
    let change = |a: E| -> (r: E)
        ensures
            r == opposite_of(a),
        { negate_element(a) };
    let r = map_tile(x, change);
    assert(r@.data =~= mapped(x@, |a: E| opposite_of(a)).data);
    r
}

/// The absolute values of the elements of a tile.
pub fn absi<E: IntElement>(x: &Tile<E>) -> (r: Tile<E>)
    requires
        x@.wf(),
    ensures
        r@.wf(),
        r@ == mapped(x@, |a: E| absolute_of(a)),
{
    let change = |a: E| -> (r: E)
        ensures
            r == absolute_of(a),
        { absolute_element(a) };
    let r = map_tile(x, change);
    assert(r@.data =~= mapped(x@, |a: E| absolute_of(a)).data);
    r
}

/// The bits that a tile does not have.
pub fn noti<E: IntElement>(x: &Tile<E>) -> (r: Tile<E>)
    requires
        x@.wf(),
    ensures
        r@.wf(),
        r@ == mapped(x@, |a: E| turned_bits(a)),
{
    let change = |a: E| -> (r: E)
        ensures
            r == turned_bits(a),
        { not_element(a) };
    let r = map_tile(x, change);
    assert(r@.data =~= mapped(x@, |a: E| turned_bits(a)).data);
    r
}

/// The elements of a tile as wider integers.
pub fn exti<A: IntElement, B: IntElement>(from: &Tile<A>) -> (r: Tile<B>)
    requires
        from@.wf(),
        A::modulus_spec() < B::modulus_spec(),
    ensures
        r@.wf(),
        r@ == mapped(from@, |a: A| integer::wrapped::<B>(a.number())),
{
    let change = |a: A| -> (r: B)
        ensures
            r == integer::wrapped::<B>(a.number()),
        { wrap_wide::<B>(a.to_wide()) };
    let r = map_tile(from, change);
    assert(r@.data =~= mapped(from@, |a: A| integer::wrapped::<B>(a.number())).data);
    r
}

/// The elements of a tile as narrower integers.
pub fn trunci<A: IntElement, B: IntElement, O: overflow::Mode>(
    from: &Tile<A>,
    overflow: O,
) -> (r: Tile<B>)
    requires
        from@.wf(),
        A::modulus_spec() > B::modulus_spec(),
        forall|i: int|
            0 <= i < from@.data.len() ==> O::allows(
                integer::signed_of(#[trigger] from@.data[i]),
                integer::bits_of(from@.data[i]),
                B::modulus_spec(),
            ),
    ensures
        r@.wf(),
        r@ == mapped(from@, |a: A| integer::wrapped::<B>(a.number())),
{
    let change = |a: A| -> (r: B)
        ensures
            r == integer::wrapped::<B>(a.number()),
        { wrap_wide::<B>(a.to_wide()) };
    let r = map_tile(from, change);
    assert(r@.data =~= mapped(from@, |a: A| integer::wrapped::<B>(a.number())).data);
    r
}

/// The bits of a tile as elements of another type of the same width.
pub fn bitcast<A: IntElement, B: IntElement>(source: &Tile<A>) -> (r: Tile<B>)
    requires
        source@.wf(),
        A::modulus_spec() == B::modulus_spec(),
    ensures
        r@.wf(),
        r@ == mapped(source@, |a: A| B::of_bits(integer::bits_of(a))),
{
    let change = |a: A| -> (r: B)
        ensures
            r == B::of_bits(integer::bits_of(a)),
        {
            proof {
                A::modulus_is_in_range();
                vstd::arithmetic::div_mod::lemma_mod_division_less_than_divisor(
                    a.number(),
                    A::modulus_spec(),
                );
            }
            B::from_bits(to_bits(a))
        };
    let r = map_tile(source, change);
    assert(r@.data =~= mapped(source@, |a: A| B::of_bits(integer::bits_of(a))).data);
    r
}

// Laws.

/// Subtracting what was added gives the tile back.
pub proof fn difference_undoes_sum<E: IntElement>(lhs: TileView<E>, rhs: TileView<E>)
    requires
        lhs.wf(),
        rhs.wf(),
        lhs.dims == rhs.dims,
    ensures
        zipped(
            zipped(lhs, rhs, |a: E, b: E| sum_of(a, b)),
            rhs,
            |a: E, b: E| difference_of(a, b),
        ) == lhs,
{
    let sums = zipped(lhs, rhs, |a: E, b: E| sum_of(a, b));
    let back = zipped(sums, rhs, |a: E, b: E| difference_of(a, b));
    assert forall|i: int| 0 <= i < lhs.data.len() implies back.data[i] == lhs.data[i] by {
        let a = lhs.data[i];
        let b = rhs.data[i];
        let m = E::modulus_spec();
        E::modulus_is_in_range();
        let sum = a.number() + b.number();
        integer::wrapped_has_the_remainder::<E>(sum);
        vstd::arithmetic::div_mod::lemma_sub_mod_noop(sum_of(a, b).number(), b.number(), m);
        vstd::arithmetic::div_mod::lemma_sub_mod_noop(sum, b.number(), m);
        integer::remainder_tells_the_element::<E>(sum_of(a, b).number() - b.number(), a.number());
        integer::element_is_its_number(a);
    }
    assert(back.data =~= lhs.data);
}

/// Turning the signs of a tile twice gives the tile back.
pub proof fn opposite_twice<E: IntElement>(x: TileView<E>)
    requires
        x.wf(),
    ensures
        mapped(mapped(x, |a: E| opposite_of(a)), |a: E| opposite_of(a)) == x,
{
    let once = mapped(x, |a: E| opposite_of(a));
    let twice = mapped(once, |a: E| opposite_of(a));
    assert forall|i: int| 0 <= i < x.data.len() implies twice.data[i] == x.data[i] by {
        let a = x.data[i];
        let m = E::modulus_spec();
        E::modulus_is_in_range();
        integer::wrapped_has_the_remainder::<E>(-a.number());
        vstd::arithmetic::div_mod::lemma_sub_mod_noop_right(0, opposite_of(a).number(), m);
        vstd::arithmetic::div_mod::lemma_sub_mod_noop_right(0, -a.number(), m);
        integer::remainder_tells_the_element::<E>(-opposite_of(a).number(), a.number());
        integer::element_is_its_number(a);
    }
    assert(twice.data =~= x.data);
}

/// A number is its truncated quotient times the divisor and what is left.
pub proof fn quotient_and_remainder<E: IntElement>(a: E, b: E)
    requires
        b.number() != 0,
    ensures
        sum_of(product_of(b, quotient_of::<E, rounding::Zero>(a, b)), remainder_of(a, b)) == a,
{
    let m = E::modulus_spec();
    E::modulus_is_in_range();
    let q = rounding::truncated(a.number(), b.number());
    let rest = rounding::left_over(a.number(), b.number());
    let quotient = quotient_of::<E, rounding::Zero>(a, b);
    let product = product_of(b, quotient);
    let remainder = remainder_of(a, b);
    integer::wrapped_has_the_remainder::<E>(q);
    integer::wrapped_has_the_remainder::<E>(rest);
    integer::wrapped_has_the_remainder::<E>(b.number() * quotient.number());
    vstd::arithmetic::div_mod::lemma_mul_mod_noop_right(b.number(), quotient.number(), m);
    vstd::arithmetic::div_mod::lemma_mul_mod_noop_right(b.number(), q, m);
    vstd::arithmetic::div_mod::lemma_add_mod_noop(product.number(), remainder.number(), m);
    vstd::arithmetic::div_mod::lemma_add_mod_noop(b.number() * q, rest, m);
    integer::remainder_tells_the_element::<E>(product.number() + remainder.number(), a.number());
    integer::element_is_its_number(a);
}

/// An element keeps its number as a wider integer, and is the same again as a narrower one.
pub proof fn narrowing_undoes_widening<A: IntElement, B: IntElement>(a: A)
    requires
        A::modulus_spec() < B::modulus_spec(),
        A::signed_spec() == B::signed_spec(),
    ensures
        integer::wrapped::<B>(a.number()).number() == a.number(),
        integer::wrapped::<A>(integer::wrapped::<B>(a.number()).number()) == a,
{
    a.number_is_in_range();
    integer::number_in_range_is_kept::<B>(a.number());
    integer::element_is_its_number(a);
}

/// Bits that are read as another type and back are the same element.
pub proof fn bits_are_cast_back<A: IntElement, B: IntElement>(a: A)
    requires
        A::modulus_spec() == B::modulus_spec(),
    ensures
        A::of_bits(integer::bits_of(B::of_bits(integer::bits_of(a)))) == a,
{
    let m = A::modulus_spec();
    let bits = integer::bits_of(a);
    A::modulus_is_in_range();
    vstd::arithmetic::div_mod::lemma_mod_division_less_than_divisor(a.number(), m);
    vstd::arithmetic::div_mod::lemma_small_mod(bits as nat, m as nat);
    assert(integer::wrapped::<B>(bits) == B::of_bits(bits));
    integer::wrapped_has_the_remainder::<B>(bits);
    a.bits_tell_the_element();
}

/// The result fits, and is the sum itself, where no wrapping was promised of signed numbers.
pub proof fn kept_promise_is_exact<E: IntElement>(a: E, b: E)
    requires
        E::signed_spec(),
        <overflow::NoSignedWrap as overflow::Mode>::allows(
            integer::signed_of(a) + integer::signed_of(b),
            integer::bits_of(a) + integer::bits_of(b),
            E::modulus_spec(),
        ),
    ensures
        sum_of(a, b).number() == a.number() + b.number(),
{
    signed_is_the_number(a);
    signed_is_the_number(b);
    integer::number_in_range_is_kept::<E>(a.number() + b.number());
}

proof fn signed_is_the_number<E: IntElement>(a: E)
    requires
        E::signed_spec(),
    ensures
        integer::signed_of(a) == a.number(),
{
    let m = E::modulus_spec();
    E::modulus_is_in_range();
    vstd::arithmetic::div_mod::lemma_mod_division_less_than_divisor(a.number(), m);
    E::bits_tell_the_number(integer::bits_of(a));
    a.bits_tell_the_element();
}

} // verus!

//! What holds of the numbers that the operations of the language compute.
use crate::dsl::arithmetic;
use crate::dsl::atomic;
use crate::dsl::integer::{self, IntElement};
use crate::dsl::lanes;
use crate::dsl::layout;
use crate::dsl::matrix;
use crate::dsl::memory;
use crate::dsl::overflow;
use crate::dsl::predicate;
use crate::dsl::reduction;
use crate::dsl::reverse;
use crate::dsl::rounding::{self, QuotientMode};
use crate::dsl::signedness;
use crate::dsl::tile::{self, TileView};
use vstd::arithmetic::power2;
use vstd::prelude::*;

verus! {

/// A comparison compares the first number with the second.
pub proof fn comparisons_compare(a: int, b: int)
    ensures
        <predicate::Equal as predicate::Mode>::holds(a, b) <==> a - b == 0,
        <predicate::NotEqual as predicate::Mode>::holds(a, b) <==> a - b != 0,
        <predicate::LessThan as predicate::Mode>::holds(a, b) <==> b - a > 0,
        <predicate::LessThanOrEqual as predicate::Mode>::holds(a, b) <==> b - a >= 0,
        <predicate::GreaterThan as predicate::Mode>::holds(a, b) <==> a - b > 0,
        <predicate::GreaterThanOrEqual as predicate::Mode>::holds(a, b) <==> a - b >= 0,
{
}

/// However an element is read, its bits are those of the number: as an unsigned number it is not
/// negative, as a signed one it is less than half of the modulus, and as its own type says it is its
/// number.
pub proof fn readings_are_of_the_same_bits<E: IntElement>(element: E)
    ensures
        ({
            let m = E::modulus_spec();
            let unsigned = signedness::read_as::<E, signedness::Unsigned>(element);
            let signed = signedness::read_as::<E, signedness::Signed>(element);
            &&& 0 <= unsigned < m
            &&& -m <= signed * 2 < m
            &&& unsigned % m == element.number() % m
            &&& signed % m == element.number() % m
            &&& signedness::read_as::<E, signedness::Inherent>(element) == element.number()
        }),
{
    E::modulus_is_in_range();
    let m = E::modulus_spec();
    let n = element.number();
    let bits = integer::bits_of(element);
    vstd::arithmetic::div_mod::lemma_mod_bound(n, m);
    vstd::arithmetic::div_mod::lemma_small_mod(bits as nat, m as nat);
    assert((bits - m) % m == bits % m) by {
        vstd::arithmetic::div_mod::lemma_mod_sub_multiples_vanish(bits, m);
    }
}

/// A quotient is rounded up, down or towards zero, as its mode says.
pub proof fn quotients_are_rounded(a: int, b: int)
    requires
        b > 0,
    ensures
        ({
            let up = <rounding::PositiveInf as QuotientMode>::quotient(a, b);
            let down = <rounding::NegativeInf as QuotientMode>::quotient(a, b);
            let cut = <rounding::Zero as QuotientMode>::quotient(a, b);
            &&& (up - 1) * b < a <= up * b
            &&& down * b <= a < (down + 1) * b
            &&& a >= 0 ==> cut == down
            &&& a <= 0 ==> cut == up
            &&& <rounding::PositiveInf as QuotientMode>::quotient(-a, -b) == up
            &&& <rounding::NegativeInf as QuotientMode>::quotient(-a, -b) == down
            &&& <rounding::Zero as QuotientMode>::quotient(-a, -b) == cut
        }),
{
    rounding::floor_and_ceiling_are_near(a, b);
    if a == 0 {
        assert(0int / b == 0) by (nonlinear_arith)
            requires
                b > 0,
        ;
    }
}

/// What is promised of a result is that it is in the range of the numbers of so many elements.
pub proof fn promises_are_ranges(signed: int, unsigned: int, modulus: int)
    ensures
        <overflow::Unspecified as overflow::Mode>::allows(signed, unsigned, modulus),
        <overflow::NoSignedWrap as overflow::Mode>::allows(signed, unsigned, modulus) <==> (
        signed + signed < modulus && signed + signed + modulus >= 0),
        <overflow::NoUnsignedWrap as overflow::Mode>::allows(signed, unsigned, modulus) <==> (
        unsigned < modulus && unsigned >= 0),
        <overflow::NoWrap as overflow::Mode>::allows(signed, unsigned, modulus) <==> (
        <overflow::NoSignedWrap as overflow::Mode>::allows(signed, unsigned, modulus)
            && <overflow::NoUnsignedWrap as overflow::Mode>::allows(signed, unsigned, modulus)),
{
}

/// A result that an element stands for is the exact one.
pub proof fn results_that_fit_are_exact<E: IntElement>(a: E, b: E)
    ensures
        ({
            let x = a.number();
            let y = b.number();
            &&& integer::is_number_of::<E>(x + y) ==> arithmetic::sum_of(a, b).number() == x + y
            &&& integer::is_number_of::<E>(x - y) ==> arithmetic::difference_of(a, b).number() == x
                - y
            &&& integer::is_number_of::<E>(x * y) ==> arithmetic::product_of(a, b).number() == x * y
            &&& integer::is_number_of::<E>(-x) ==> arithmetic::opposite_of(a).number() == -x
            &&& integer::is_number_of::<E>(x) && x >= 0 ==> arithmetic::absolute_of(a).number()
                == x
            &&& integer::is_number_of::<E>(-x) && x < 0 ==> arithmetic::absolute_of(a).number()
                == -x
        }),
{
    let x = a.number();
    let y = b.number();
    if integer::is_number_of::<E>(x + y) {
        integer::number_in_range_is_kept::<E>(x + y);
    }
    if integer::is_number_of::<E>(x - y) {
        integer::number_in_range_is_kept::<E>(x - y);
    }
    if integer::is_number_of::<E>(x * y) {
        integer::number_in_range_is_kept::<E>(x * y);
    }
    if integer::is_number_of::<E>(-x) {
        integer::number_in_range_is_kept::<E>(-x);
    }
    if integer::is_number_of::<E>(x) {
        integer::number_in_range_is_kept::<E>(x);
    }
}

/// A quotient that an element stands for is the exact one, rounded; and what is left by the truncated
/// quotient is less than the divisor.
pub proof fn quotients_that_fit_are_exact<E: IntElement>(a: E, b: E)
    requires
        a.number() >= 0,
        b.number() > 0,
    ensures
        ({
            let x = a.number();
            let y = b.number();
            let q = arithmetic::quotient_of::<E, rounding::Zero>(a, b).number();
            let r = arithmetic::remainder_of(a, b).number();
            &&& q * y + r == x
            &&& 0 <= r < y
        }),
{
    let x = a.number();
    let y = b.number();
    let q = rounding::truncated(x, y);
    E::modulus_is_in_range();
    a.number_is_in_range();
    b.number_is_in_range();
    rounding::floor_and_ceiling_are_near(x, y);
    rounding::left_over_has_the_sign(x, y);
    assert(q == x / y);
    assert(0 <= q <= x) by (nonlinear_arith)
        requires
            q == x / y,
            x >= 0,
            y > 0,
    ;
    integer::number_in_range_is_kept::<E>(q);
    integer::number_in_range_is_kept::<E>(rounding::left_over(x, y));
    assert(q * y == y * q) by (nonlinear_arith);
}

/// The greater and the lesser one of two elements are two of them, and lie about both.
pub proof fn greater_and_lesser_lie_about<E: IntElement>(a: E, b: E)
    ensures
        ({
            let most = arithmetic::greater_of(a, b);
            let least = arithmetic::lesser_of(a, b);
            &&& most == a || most == b
            &&& least == a || least == b
            &&& most.number() >= a.number() && most.number() >= b.number()
            &&& least.number() <= a.number() && least.number() <= b.number()
        }),
{
}

/// Moving bits up is multiplying by a power of two where the product fits, and moving them down is
/// dividing by it, rounded down.
pub proof fn shifts_are_powers_of_two<E: IntElement>(a: E, b: E)
    requires
        arithmetic::is_shift(b),
    ensures
        ({
            let power = power2::pow2(b.number() as nat) as int;
            let down = arithmetic::shifted_right(a, b).number();
            &&& integer::is_number_of::<E>(a.number() * power) ==> arithmetic::shifted_left(
                a,
                b,
            ).number() == a.number() * power
            &&& down * power <= a.number() < (down + 1) * power
        }),
{
    let power = power2::pow2(b.number() as nat) as int;
    let x = a.number();
    power2::lemma_pow2_pos(b.number() as nat);
    if integer::is_number_of::<E>(x * power) {
        integer::number_in_range_is_kept::<E>(x * power);
    }
    E::modulus_is_in_range();
    a.number_is_in_range();
    let q = x / power;
    vstd::arithmetic::div_mod::lemma_fundamental_div_mod(x, power);
    assert(q * power <= x < (q + 1) * power) by (nonlinear_arith)
        requires
            x == power * q + x % power,
            0 <= x % power < power,
    ;
    assert(x >= 0 ==> 0 <= q <= x) by (nonlinear_arith)
        requires
            q * power <= x < (q + 1) * power,
            power >= 1,
    ;
    assert(x < 0 ==> x <= q < 0) by (nonlinear_arith)
        requires
            q * power <= x < (q + 1) * power,
            power >= 1,
    ;
    integer::number_in_range_is_kept::<E>(q);
}

/// What an atomic operation leaves in memory: the sum where it fits, the greater or the lesser one as
/// signed or as unsigned numbers, or the new element.
pub proof fn atomic_changes_are_as_named<E: IntElement>(old: E, arg: E)
    ensures
        ({
            let sum = memory::combined(<atomic::Add as atomic::Mode>::change_spec(), old, arg);
            let most = memory::combined(<atomic::Max as atomic::Mode>::change_spec(), old, arg);
            let least = memory::combined(<atomic::Min as atomic::Mode>::change_spec(), old, arg);
            let umost = memory::combined(<atomic::Umax as atomic::Mode>::change_spec(), old, arg);
            let uleast = memory::combined(<atomic::Umin as atomic::Mode>::change_spec(), old, arg);
            &&& integer::is_number_of::<E>(old.number() + arg.number()) ==> sum.number()
                == old.number() + arg.number()
            &&& most == old || most == arg
            &&& least == old || least == arg
            &&& umost == old || umost == arg
            &&& uleast == old || uleast == arg
            &&& integer::signed_of(most) >= integer::signed_of(old) && integer::signed_of(most)
                >= integer::signed_of(arg)
            &&& integer::signed_of(least) <= integer::signed_of(old) && integer::signed_of(least)
                <= integer::signed_of(arg)
            &&& integer::bits_of(umost) >= integer::bits_of(old) && integer::bits_of(umost)
                >= integer::bits_of(arg)
            &&& integer::bits_of(uleast) <= integer::bits_of(old) && integer::bits_of(uleast)
                <= integer::bits_of(arg)
            &&& memory::combined(<atomic::Xchg as atomic::Mode>::change_spec(), old, arg) == arg
            &&& memory::combined(<atomic::And as atomic::Mode>::change_spec(), old, arg)
                == arithmetic::both_bits(old, arg)
            &&& memory::combined(<atomic::Or as atomic::Mode>::change_spec(), old, arg)
                == arithmetic::any_bits(old, arg)
            &&& memory::combined(<atomic::Xor as atomic::Mode>::change_spec(), old, arg)
                == arithmetic::other_bits(old, arg)
        }),
{
    results_that_fit_are_exact(old, arg);
}

/// The bits that an element has in common with itself, and that it has alone, are its own, and it
/// differs from itself in none.
pub proof fn bits_of_one_element<E: IntElement>(a: E)
    ensures
        arithmetic::both_bits(a, a) == a,
        arithmetic::any_bits(a, a) == a,
        arithmetic::other_bits(a, a).number() == 0,
{
    integer::readings_are_in_range(a);
    E::modulus_is_in_range();
    let x = integer::bits_of(a) as u64;
    assert(x & x == x) by (bit_vector);
    assert(x | x == x) by (bit_vector);
    assert(x ^ x == 0) by (bit_vector);
    vstd::arithmetic::div_mod::lemma_mod_twice(a.number(), E::modulus_spec());
    integer::remainder_tells_the_element::<E>(integer::bits_of(a), a.number());
    integer::element_is_its_number(a);
    integer::number_in_range_is_kept::<E>(0);
}

/// An element has no bit in common with zero, has its own bits with it, and differs from it in them.
pub proof fn bits_beside_zero<E: IntElement>(a: E, zero: E)
    requires
        zero.number() == 0,
    ensures
        arithmetic::both_bits(a, zero) == zero,
        arithmetic::any_bits(a, zero) == a,
        arithmetic::other_bits(a, zero) == a,
{
    integer::readings_are_in_range(a);
    E::modulus_is_in_range();
    let x = integer::bits_of(a) as u64;
    vstd::arithmetic::div_mod::lemma_small_mod(0, E::modulus_spec() as nat);
    assert(x & 0 == 0) by (bit_vector);
    assert(x | 0 == x) by (bit_vector);
    assert(x ^ 0 == x) by (bit_vector);
    vstd::arithmetic::div_mod::lemma_mod_twice(a.number(), E::modulus_spec());
    integer::remainder_tells_the_element::<E>(integer::bits_of(a), a.number());
    integer::element_is_its_number(a);
    integer::element_is_its_number(zero);
}

// Tiles.

/// A scan that has come to a position has run over the elements up to it, from the first on or from
/// the last on.
pub proof fn scan_runs_up_to_its_position<E>(
    tile: TileView<E>,
    dim: int,
    lane: Seq<int>,
    k: int,
)
    requires
        0 <= dim < tile.dims.len(),
        lanes::inside(tile.dims, lane),
    ensures
        ({
            let on = reduction::run_to(
                tile,
                dim,
                <reverse::Forward as reverse::Mode>::backwards_spec(),
                lane,
            );
            let back = reduction::run_to(
                tile,
                dim,
                <reverse::Reverse as reverse::Mode>::backwards_spec(),
                lane,
            );
            &&& on.len() == lane[dim] + 1
            &&& 0 <= k <= lane[dim] ==> on[k] == tile.at(lane.update(dim, k))
            &&& back.len() == tile.dims[dim] - lane[dim]
            &&& 0 <= k < tile.dims[dim] - lane[dim] ==> back[k] == tile.at(
                lane.update(dim, tile.dims[dim] - 1 - k),
            )
        }),
{
    assert(0 <= lane[dim] < tile.dims[dim]);
    assert(lane.remove(dim).insert(dim, k) =~= lane.update(dim, k));
    let last = tile.dims[dim] - 1 - k;
    assert(lane.remove(dim).insert(dim, last) =~= lane.update(dim, last));
}

/// The sum of numbers is that of the first ones and of the others.
pub proof fn totals_add_up<E: IntElement>(items: Seq<E>, more: Seq<E>)
    ensures
        reduction::total(items + more) == reduction::total(items) + reduction::total(more),
        reduction::product(items + more) == reduction::product(items) * reduction::product(more),
    decreases more.len(),
{
    if more.len() == 0 {
        assert(items + more =~= items);
    } else {
        let all = items + more;
        assert(all.drop_last() =~= items + more.drop_last());
        totals_add_up(items, more.drop_last());
        let p = reduction::product(items);
        let q = reduction::product(more.drop_last());
        let n = more.last().number();
        assert((p * q) * n == p * (q * n)) by (nonlinear_arith);
    }
}

/// The sum and the product of one number are that number.
pub proof fn total_of_one_is_itself<E: IntElement>(element: E)
    ensures
        reduction::total(seq![element]) == element.number(),
        reduction::product(seq![element]) == element.number(),
{
    reveal_with_fuel(reduction::total, 2);
    reveal_with_fuel(reduction::product, 2);
    assert(seq![element].drop_last() =~= Seq::<E>::empty());
}

/// A tile that is reduced has at a position the sum, or the product, of the elements along the
/// dimension that is gone.
pub proof fn reduced_tile_has_its_columns<E: IntElement>(
    tile: TileView<E>,
    dim: int,
    lane: Seq<int>,
)
    requires
        tile.wf(),
        0 <= dim < tile.dims.len(),
        lanes::inside(tile.dims.remove(dim), lane),
    ensures
        ({
            let items = Seq::new(
                tile.dims[dim] as nat,
                |j: int| tile.at(lane.insert(dim, j)),
            );
            &&& reduction::summed(tile, dim).at(lane) == integer::wrapped::<E>(
                reduction::total(items),
            )
            &&& reduction::multiplied(tile, dim).at(lane) == integer::wrapped::<E>(
                reduction::product(items),
            )
        }),
{
    let rest = tile.dims.remove(dim);
    assert forall|k: int| 0 <= k < rest.len() implies #[trigger] rest[k] >= 0 by {
        if k < dim {
            assert(tile.dims[k] >= 0);
        } else {
            assert(tile.dims[k + 1] >= 0);
        }
    }
    tile::filled_at(
        rest,
        |at: Seq<int>| integer::wrapped::<E>(reduction::total(reduction::column(tile, dim, at))),
        lane,
    );
    tile::filled_at(
        rest,
        |at: Seq<int>| integer::wrapped::<E>(reduction::product(reduction::column(tile, dim, at))),
        lane,
    );
    assert(reduction::column(tile, dim, lane) =~= Seq::new(
        tile.dims[dim] as nat,
        |j: int| tile.at(lane.insert(dim, j)),
    ));
}

/// Where matrices share one row and column, the product at a lane is that of the element of the row
/// and the element of the column.
pub proof fn product_of_one_column_and_row<
    E: IntElement,
    L: signedness::Mode,
    R: signedness::Mode,
>(lhs: TileView<E>, rhs: TileView<E>, row: int, column: int)
    requires
        lhs.dims.len() == 2,
        lhs.dims[1] == 1,
    ensures
        matrix::product_at::<E, L, R>(lhs, rhs, seq![row, column]) == signedness::read_as::<E, L>(
            lhs.at(seq![row, 0int]),
        ) * signedness::read_as::<E, R>(rhs.at(seq![0int, column])),
{
    let batch = seq![row, column].take(0);
    reveal_with_fuel(matrix::dot, 2);
    assert(batch + seq![row, 0int] =~= seq![row, 0int]);
    assert(batch + seq![0int, column] =~= seq![0int, column]);
}

/// A uniform tile has its element everywhere, and a tile of counted numbers has at each position the
/// number of the position, where it fits.
pub proof fn plain_tiles_have_their_elements<E: IntElement>(
    value: E,
    dims: Seq<i32>,
    lane: Seq<int>,
    count: int,
    i: int,
)
    requires
        lanes::are_dims(dims),
        lanes::inside(dims, lane),
        0 <= i < count <= i32::MAX,
        integer::is_number_of::<E>(i),
    ensures
        tile::uniform(value, dims).at(lane) == value,
        layout::counted::<E>(count).data[i].number() == i,
        layout::counted::<E>(count).data.len() == count,
        layout::counted::<E>(count).dims == seq![count as i32],
{
    tile::filled_at(dims, |at: Seq<int>| value, lane);
    integer::number_in_range_is_kept::<E>(i);
}

/// The address of an element leads to it, and an address between elements, before the first or
/// behind the last leads to none.
pub proof fn addresses_lead_to_their_elements(
    base: u64,
    count: nat,
    width: u64,
    i: int,
    address: u64,
)
    requires
        memory::has_addresses(base, count, width),
    ensures
        address == base + i * width && 0 <= i < count ==> memory::cell_of(
            base,
            count,
            width,
            address,
        ) == Some(i),
        memory::cell_of(base, count, width, address) == Some(i) ==> 0 <= i < count && address
            == base + i * width,
        address < base ==> memory::cell_of(base, count, width, address) is None,
{
    let w = width as int;
    let away = address - base;
    if address == base + i * width && 0 <= i < count {
        assert(away == i * w);
        vstd::arithmetic::div_mod::lemma_mod_multiples_basic(i, w);
        vstd::arithmetic::div_mod::lemma_div_by_multiple(i, w);
        assert(i * w >= 0) by (nonlinear_arith)
            requires
                i >= 0,
                w >= 1,
        ;
    }
    if memory::cell_of(base, count, width, address) == Some(i) {
        vstd::arithmetic::div_mod::lemma_fundamental_div_mod(away, w);
        assert(w * i == i * w) by (nonlinear_arith);
        assert(i >= 0) by (nonlinear_arith)
            requires
                i == away / w,
                away >= 0,
                w >= 1,
        ;
    }
}

} // verus!

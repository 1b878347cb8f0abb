//! Products of matrices.
use crate::dsl::arithmetic::{self, add_elements, multiply_sizes};
use crate::dsl::integer::{self, wrap_parts, IntElement};
use crate::dsl::lanes::{self, find_lane};
use crate::dsl::layout;
use crate::dsl::signedness::{self, read_element};
use crate::dsl::tile::{self, Tile, TileView};
use vstd::prelude::*;

verus! {

/// The sum of the products of the first elements of a row and of a column, in the matrices of a
/// batch.
pub open spec fn dot<E: IntElement, L: signedness::Mode, R: signedness::Mode>(
    lhs: TileView<E>,
    rhs: TileView<E>,
    batch: Seq<int>,
    row: int,
    column: int,
    count: int,
) -> int
    decreases count,
{
    if count <= 0 {
        0
    } else {
        dot::<E, L, R>(lhs, rhs, batch, row, column, count - 1) + signedness::read_as::<E, L>(
            lhs.at(batch + seq![row, count - 1]),
        ) * signedness::read_as::<E, R>(rhs.at(batch + seq![count - 1, column]))
    }
}

/// Whether two matrices can be multiplied, and the product added to a third; of three dimensions the
/// first counts the matrices of a batch.
pub open spec fn multiplies(lhs: Seq<i32>, rhs: Seq<i32>, acc: Seq<i32>) -> bool {
    let n = acc.len() as int;
    &&& 2 <= n <= 3 && lhs.len() == n && rhs.len() == n
    &&& n == 3 ==> lhs[0] == acc[0] && rhs[0] == acc[0]
    &&& lhs[n - 1] == rhs[n - 2]
    &&& acc[n - 2] == lhs[n - 2]
    &&& acc[n - 1] == rhs[n - 1]
}

/// What is at a lane of the product of two matrices before it is added.
pub open spec fn product_at<E: IntElement, L: signedness::Mode, R: signedness::Mode>(
    lhs: TileView<E>,
    rhs: TileView<E>,
    lane: Seq<int>,
) -> int {
    let n = lane.len() as int;
    dot::<E, L, R>(
        lhs,
        rhs,
        lane.take(n - 2),
        lane[n - 2],
        lane[n - 1],
        lhs.dims[n - 1] as int,
    )
}

/// The product of two matrices, added to a third.
pub open spec fn accumulated<
    E: IntElement,
    A: IntElement,
    L: signedness::Mode,
    R: signedness::Mode,
>(lhs: TileView<E>, rhs: TileView<E>, acc: TileView<A>) -> TileView<A> {
    tile::filled(
        acc.dims,
        |lane: Seq<int>|
            integer::wrapped::<A>(acc.at(lane).number() + product_at::<E, L, R>(lhs, rhs, lane)),
    )
}

/// The product of two numbers as an element.
fn multiply_readings<A: IntElement>(a: i128, b: i128) -> (r: A)
    requires
        -0xffff_ffff_ffff_ffff <= a <= 0xffff_ffff_ffff_ffff,
        -0xffff_ffff_ffff_ffff <= b <= 0xffff_ffff_ffff_ffff,
    ensures
        r == integer::wrapped::<A>(a * b),
{
    let a_size: u64 = if a < 0 {
        (-a) as u64
    } else {
        a as u64
    };
    let b_size: u64 = if b < 0 {
        (-b) as u64
    } else {
        b as u64
    };
    proof {
        arithmetic::signs_of_product(a < 0, a_size as int, b < 0, b_size as int);
    }
    wrap_parts((a < 0) != (b < 0), multiply_sizes(a_size, b_size))
}

/// Multiplies two matrices, and adds the product to a third.
fn accumulate<E: IntElement, A: IntElement, L: signedness::Mode, R: signedness::Mode>(
    lhs: &Tile<E>,
    rhs: &Tile<E>,
    acc: &Tile<A>,
) -> (r: Tile<A>)
    requires
        lhs@.wf(),
        rhs@.wf(),
        acc@.wf(),
        multiplies(lhs@.dims, rhs@.dims, acc@.dims),
    ensures
        r@.wf(),
        r@ == accumulated::<E, A, L, R>(lhs@, rhs@, acc@),
{
    let shape = acc.shape();
    let rank: usize = shape.dims.len();
    let inner: i64 = lhs.shape().dims[rank - 1] as i64;
    let size: usize = acc.elements().len();
    let ghost want = accumulated::<E, A, L, R>(lhs@, rhs@, acc@);
    let mut data: Vec<A> = Vec::new();
    while data.len() < size
        invariant
            lhs@.wf(),
            rhs@.wf(),
            acc@.wf(),
            multiplies(lhs@.dims, rhs@.dims, acc@.dims),
            shape@ == acc@.dims,
            rank == acc@.dims.len(),
            inner == lhs@.dims[rank - 1],
            size == lanes::size_of(acc@.dims),
            want == accumulated::<E, A, L, R>(lhs@, rhs@, acc@),
            data@.len() <= size,
            forall|i: int| 0 <= i < data@.len() ==> #[trigger] data@[i] == want.data[i],
        decreases size - data@.len(),
    {
        let lane = find_lane(&shape.dims, data.len());
        let ghost at = lanes::ints(lane@);
        let ghost batch = at.take(rank - 2);
        let row: i64 = lane[rank - 2];
        let column: i64 = lane[rank - 1];
        proof {
            assert(forall|d: int| 0 <= d < rank ==> 0 <= #[trigger] at[d] < acc@.dims[d]);
            assert(at[rank - 2] == row && at[rank - 1] == column);
            lanes::element_has_a_position(acc@.dims, data@.len() as int);
        }
        let start: A = acc.elements()[data.len()];
        let mut value: A = start;
        assert(lhs@.dims[rank - 1] >= 0);
        proof {
            integer::element_is_its_number(start);
        }
        let mut k: i64 = 0;
        while k < inner
            invariant
                lhs@.wf(),
                rhs@.wf(),
                multiplies(lhs@.dims, rhs@.dims, acc@.dims),
                rank == acc@.dims.len(),
                inner == lhs@.dims[rank - 1],
                lane@.len() == rank,
                at == lanes::ints(lane@),
                batch == at.take(rank - 2),
                forall|d: int| 0 <= d < rank ==> 0 <= #[trigger] at[d] < acc@.dims[d],
                at[rank - 2] == row,
                at[rank - 1] == column,
                0 <= k <= inner,
                value == integer::wrapped::<A>(
                    start.number() + dot::<E, L, R>(
                        lhs@,
                        rhs@,
                        batch,
                        row as int,
                        column as int,
                        k as int,
                    ),
                ),
            decreases inner - k,
        {
            let a = element_at(lhs, &lane, row, k);
            let b = element_at(rhs, &lane, k, column);
            let product: A = multiply_readings(
                read_element::<E, L>(a),
                read_element::<E, R>(b),
            );
            let next = add_elements(value, product);
            proof {
                let m = A::modulus_spec();
                let before = start.number() + dot::<E, L, R>(
                    lhs@,
                    rhs@,
                    batch,
                    row as int,
                    column as int,
                    k as int,
                );
                let step = signedness::read_as::<E, L>(a) * signedness::read_as::<E, R>(b);
                A::modulus_is_in_range();
                integer::wrapped_has_the_remainder::<A>(before);
                integer::wrapped_has_the_remainder::<A>(step);
                vstd::arithmetic::div_mod::lemma_add_mod_noop(value.number(), product.number(), m);
                vstd::arithmetic::div_mod::lemma_add_mod_noop(before, step, m);
                integer::remainder_tells_the_element::<A>(
                    value.number() + product.number(),
                    before + step,
                );
            }
            value = next;
            k += 1;
        }
        data.push(value);
    }
    let r = Tile::build(shape, data);
    assert(r@.data =~= want.data);
    r
}

/// An element of a matrix, in the batch that a lane is of.
fn element_at<E: IntElement>(tile: &Tile<E>, of: &Vec<i64>, row: i64, column: i64) -> (r: E)
    requires
        tile@.wf(),
        2 <= tile@.dims.len() <= 3,
        of@.len() == tile@.dims.len(),
        forall|d: int|
            0 <= d < of@.len() - 2 ==> 0 <= #[trigger] lanes::ints(of@)[d] < tile@.dims[d],
        0 <= row < tile@.dims[tile@.dims.len() - 2],
        0 <= column < tile@.dims[tile@.dims.len() - 1],
    ensures
        r == tile@.at(
            lanes::ints(of@).take(of@.len() - 2) + seq![row as int, column as int],
        ),
{
    let mut lane: Vec<i64> = Vec::new();
    if of.len() == 3 {
        assert(lanes::ints(of@)[0] == of@[0]);
        lane.push(of[0]);
    }
    lane.push(row);
    lane.push(column);
    let ghost at = lanes::ints(of@).take(of@.len() - 2) + seq![row as int, column as int];
    assert(lanes::ints(lane@) =~= at);
    assert(lanes::inside(tile@.dims, at));
    proof {
        lanes::position_is_an_element(tile@.dims, at);
    }
    match tile.get(&lane) {
        Some(element) => element,
        None => {
            assert(false);
            tile.elements()[0]
        },
    }
}

/// Multiplies two matrices, and adds the product to a third.
pub fn mma<E: IntElement, A: IntElement>(
    lhs: &Tile<E>,
    rhs: &Tile<E>,
    acc: &Tile<A>,
) -> (r: Tile<A>)
    requires
        lhs@.wf(),
        rhs@.wf(),
        acc@.wf(),
        acc@.dims.len() == 2,
        multiplies(lhs@.dims, rhs@.dims, acc@.dims),
    ensures
        r@.wf(),
        r@ == accumulated::<E, A, signedness::Inherent, signedness::Inherent>(lhs@, rhs@, acc@),
{
    accumulate::<E, A, signedness::Inherent, signedness::Inherent>(lhs, rhs, acc)
}

/// Multiplies two matrices of integers that are read as signed or not, and adds the product to a
/// third. Of three dimensions the first counts the matrices of a batch.
pub fn mmai<E: IntElement, L: signedness::Mode, R: signedness::Mode>(
    lhs: &Tile<E>,
    rhs: &Tile<E>,
    acc: &Tile<i32>,
    signedness_lhs: L,
    signedness_rhs: R,
) -> (r: Tile<i32>)
    requires
        lhs@.wf(),
        rhs@.wf(),
        acc@.wf(),
        multiplies(lhs@.dims, rhs@.dims, acc@.dims),
    ensures
        r@.wf(),
        r@ == accumulated::<E, i32, L, R>(lhs@, rhs@, acc@),
{
    accumulate::<E, i32, L, R>(lhs, rhs, acc)
}

proof fn dot_of_parts<E: IntElement, L: signedness::Mode, R: signedness::Mode>(
    l1: TileView<E>,
    l2: TileView<E>,
    r1: TileView<E>,
    r2: TileView<E>,
    batch: Seq<int>,
    row: int,
    column: int,
    count: int,
)
    requires
        l1.wf(),
        l2.wf(),
        r1.wf(),
        r2.wf(),
        2 <= l1.dims.len() <= 3,
        r1.dims.len() == l1.dims.len(),
        batch.len() == l1.dims.len() - 2,
        layout::joins(l1.dims, l2.dims, l1.dims.len() - 1),
        layout::joins(r1.dims, r2.dims, l1.dims.len() - 2),
        l1.dims[l1.dims.len() - 1] == r1.dims[l1.dims.len() - 2],
        l2.dims[l1.dims.len() - 1] == r2.dims[l1.dims.len() - 2],
        forall|d: int|
            0 <= d < batch.len() ==> 0 <= #[trigger] batch[d] < l1.dims[d] && batch[d]
                < r1.dims[d],
        0 <= row < l1.dims[l1.dims.len() - 2],
        0 <= column < r1.dims[l1.dims.len() - 1],
        0 <= count <= l1.dims[l1.dims.len() - 1] + l2.dims[l1.dims.len() - 1],
    ensures
        dot::<E, L, R>(
            layout::concatenated(l1, l2, l1.dims.len() - 1),
            layout::concatenated(r1, r2, l1.dims.len() - 2),
            batch,
            row,
            column,
            count,
        ) == (if count <= l1.dims[l1.dims.len() - 1] {
            dot::<E, L, R>(l1, r1, batch, row, column, count)
        } else {
            dot::<E, L, R>(l1, r1, batch, row, column, l1.dims[l1.dims.len() - 1] as int) + dot::<
                E,
                L,
                R,
            >(l2, r2, batch, row, column, count - l1.dims[l1.dims.len() - 1])
        }),
    decreases count,
{
    let n = l1.dims.len() as int;
    let first = l1.dims[n - 1] as int;
    assert(l1.dims[n - 1] >= 0 && l2.dims[n - 1] >= 0);
    if count > 0 {
        let k = count - 1;
        dot_of_parts::<E, L, R>(l1, l2, r1, r2, batch, row, column, k);
        let lhs = layout::concatenated(l1, l2, n - 1);
        let rhs = layout::concatenated(r1, r2, n - 2);
        let left = batch + seq![row, k];
        let right = batch + seq![k, column];
        assert(left[n - 2] == row && left[n - 1] == k);
        assert(right[n - 2] == k && right[n - 1] == column);
        assert(n == 3 ==> left[0] == batch[0] && right[0] == batch[0]);
        assert(lanes::inside(lhs.dims, left));
        assert(lanes::inside(rhs.dims, right));
        assert(lanes::are_dims(lhs.dims));
        assert(lanes::are_dims(rhs.dims));
        tile::filled_at(
            lhs.dims,
            |lane: Seq<int>|
                if lane[n - 1] < l1.dims[n - 1] {
                    l1.at(lane)
                } else {
                    l2.at(layout::second_lane(l1.dims, n - 1, lane))
                },
            left,
        );
        tile::filled_at(
            rhs.dims,
            |lane: Seq<int>|
                if lane[n - 2] < r1.dims[n - 2] {
                    r1.at(lane)
                } else {
                    r2.at(layout::second_lane(r1.dims, n - 2, lane))
                },
            right,
        );
        if k >= first {
            assert(layout::second_lane(l1.dims, n - 1, left) =~= batch + seq![row, k - first]);
            assert(layout::second_lane(r1.dims, n - 2, right) =~= batch + seq![k - first, column]);
            assert(dot::<E, L, R>(l2, r2, batch, row, column, 0) == 0);
            assert(dot::<E, L, R>(l2, r2, batch, row, column, count - first) == dot::<E, L, R>(
                l2,
                r2,
                batch,
                row,
                column,
                k - first,
            ) + signedness::read_as::<E, L>(lhs.at(left)) * signedness::read_as::<E, R>(
                rhs.at(right),
            ));
        }
    }
}

/// Matrices can be multiplied part by part along the dimension that they share, adding each product
/// to what the parts before it came to.
pub proof fn products_add_up<
    E: IntElement,
    A: IntElement,
    L: signedness::Mode,
    R: signedness::Mode,
>(
    l1: TileView<E>,
    l2: TileView<E>,
    r1: TileView<E>,
    r2: TileView<E>,
    acc: TileView<A>,
)
    requires
        l1.wf(),
        l2.wf(),
        r1.wf(),
        r2.wf(),
        acc.wf(),
        multiplies(l1.dims, r1.dims, acc.dims),
        multiplies(l2.dims, r2.dims, acc.dims),
        l1.dims[acc.dims.len() - 1] + l2.dims[acc.dims.len() - 1] <= i32::MAX,
    ensures
        accumulated::<E, A, L, R>(
            layout::concatenated(l1, l2, acc.dims.len() - 1),
            layout::concatenated(r1, r2, acc.dims.len() - 2),
            acc,
        ) == accumulated::<E, A, L, R>(l2, r2, accumulated::<E, A, L, R>(l1, r1, acc)),
{
    let dims = acc.dims;
    let n = dims.len() as int;
    let lhs = layout::concatenated(l1, l2, n - 1);
    let rhs = layout::concatenated(r1, r2, n - 2);
    let once = accumulated::<E, A, L, R>(lhs, rhs, acc);
    let mid = accumulated::<E, A, L, R>(l1, r1, acc);
    let twice = accumulated::<E, A, L, R>(l2, r2, mid);
    lanes::size_is_a_count(dims);
    assert(l1.dims[n - 1] >= 0 && l2.dims[n - 1] >= 0);
    let total = l1.dims[n - 1] + l2.dims[n - 1];
    assert(lhs.dims[n - 1] == total);
    assert forall|lane: Seq<int>| lanes::inside(dims, lane) implies #[trigger] once.at(lane)
        == twice.at(lane) by {
        let batch = lane.take(n - 2);
        let row = lane[n - 2];
        let column = lane[n - 1];
        assert(0 <= row < dims[n - 2] && 0 <= column < dims[n - 1]);
        assert forall|d: int| 0 <= d < batch.len() implies 0 <= #[trigger] batch[d] < l1.dims[d]
            && batch[d] < r1.dims[d] by {
            assert(0 <= lane[d] < dims[d]);
        }
        tile::filled_at(
            dims,
            |l: Seq<int>|
                integer::wrapped::<A>(acc.at(l).number() + product_at::<E, L, R>(lhs, rhs, l)),
            lane,
        );
        tile::filled_at(
            dims,
            |l: Seq<int>|
                integer::wrapped::<A>(acc.at(l).number() + product_at::<E, L, R>(l1, r1, l)),
            lane,
        );
        tile::filled_at(
            dims,
            |l: Seq<int>|
                integer::wrapped::<A>(mid.at(l).number() + product_at::<E, L, R>(l2, r2, l)),
            lane,
        );
        dot_of_parts::<E, L, R>(l1, l2, r1, r2, batch, row, column, total);
        let a = acc.at(lane).number();
        let x = product_at::<E, L, R>(l1, r1, lane);
        let y = product_at::<E, L, R>(l2, r2, lane);
        let m = A::modulus_spec();
        A::modulus_is_in_range();
        integer::wrapped_has_the_remainder::<A>(a + x);
        vstd::arithmetic::div_mod::lemma_add_mod_noop(mid.at(lane).number(), y, m);
        vstd::arithmetic::div_mod::lemma_add_mod_noop(a + x, y, m);
        integer::remainder_tells_the_element::<A>(mid.at(lane).number() + y, a + x + y);
        assert(product_at::<E, L, R>(lhs, rhs, lane) == x + y);
    }
    tile::tiles_are_their_elements(once, twice);
}

} // verus!

//! Operations that run along one dimension of a tile.
use crate::dsl::arithmetic::{self, add_elements, max, min, multiply_elements};
use crate::dsl::element::ElementType;
use crate::dsl::integer::{self, wrap_wide, IntElement};
use crate::dsl::lanes::{self, find_lane};
use crate::dsl::reverse;
use crate::dsl::tile::{self, dims_fit, Shape, Tile, TileView};
use vstd::prelude::*;

verus! {

/// The elements along a dimension, at a position in the other dimensions.
pub open spec fn column<E>(tile: TileView<E>, dim: int, lane: Seq<int>) -> Seq<E> {
    Seq::new(tile.dims[dim] as nat, |j: int| tile.at(lane.insert(dim, j)))
}

/// Whether a function leads from a first value over elements through these values.
pub open spec fn is_trace<E, F: Fn(E, E) -> E>(
    f: F,
    identity: E,
    items: Seq<E>,
    trace: Seq<E>,
) -> bool {
    &&& trace.len() == items.len() + 1
    &&& trace[0] == identity
    &&& forall|j: int|
        0 <= j < items.len() ==> call_ensures(f, (trace[j], #[trigger] items[j]), trace[j + 1])
}

/// Whether a function leads from a first value over elements to a value.
pub open spec fn folds_to<E, F: Fn(E, E) -> E>(f: F, identity: E, items: Seq<E>, r: E) -> bool {
    exists|trace: Seq<E>| #[trigger] is_trace(f, identity, items, trace) && trace.last() == r
}

/// Whether a dimension of a tile can be reduced.
pub open spec fn reduces(dims: Seq<i32>, dim: int) -> bool {
    0 <= dim < dims.len() && tile::fits(dims.remove(dim))
}

proof fn column_is_inside(dims: Seq<i32>, dim: int, lane: Seq<int>, j: int)
    requires
        0 <= dim < dims.len(),
        lanes::inside(dims.remove(dim), lane),
        0 <= j < dims[dim],
    ensures
        lanes::inside(dims, lane.insert(dim, j)),
{
    let at = lane.insert(dim, j);
    let rest = dims.remove(dim);
    assert forall|k: int| 0 <= k < dims.len() implies 0 <= #[trigger] at[k] < dims[k] by {
        if k < dim {
            assert(at[k] == lane[k]);
            assert(0 <= lane[k] < rest[k]);
        } else if k > dim {
            assert(at[k] == lane[k - 1]);
            assert(0 <= lane[k - 1] < rest[k - 1]);
        }
    }
}

/// The element along a dimension of a tile, at a position in the other dimensions.
fn find_in_column<E: ElementType>(tile: &Tile<E>, dim: usize, lane: &Vec<i64>, j: i64) -> (r: E)
    requires
        tile@.wf(),
        dim < tile@.dims.len(),
        lanes::inside(tile@.dims.remove(dim as int), lanes::ints(lane@)),
        0 <= j < tile@.dims[dim as int],
    ensures
        r == column(tile@, dim as int, lanes::ints(lane@))[j as int],
{
    let ghost at = lanes::ints(lane@);
    let mut place: Vec<i64> = Vec::new();
    while place.len() <= lane.len()
        invariant
            place@.len() <= lane@.len() + 1,
            dim <= lane@.len(),
            at == lanes::ints(lane@),
            forall|k: int|
                0 <= k < place@.len() ==> #[trigger] place@[k] == at.insert(dim as int, j as int)[k],
        decreases lane@.len() + 1 - place@.len(),
    {
        let k: usize = place.len();
        if k < dim {
            place.push(lane[k]);
        } else if k == dim {
            place.push(j);
        } else {
            place.push(lane[k - 1]);
        }
    }
    assert(lanes::ints(place@) =~= at.insert(dim as int, j as int));
    proof {
        column_is_inside(tile@.dims, dim as int, at, j as int);
        lanes::position_is_an_element(tile@.dims, at.insert(dim as int, j as int));
    }
    match tile.get(&place) {
        Some(element) => element,
        None => {
            assert(false);
            tile.elements()[0]
        },
    }
}

fn check_reduced(dims: &Vec<i32>, dim: i32) -> (r: Option<Vec<i32>>)
    ensures
        r is Some <==> reduces(dims@, dim as int),
        r matches Some(rest) ==> rest@ == dims@.remove(dim as int),
{
    if dim < 0 || dim as u64 >= dims.len() as u64 {
        return None;
    }
    let along: usize = dim as usize;
    let mut rest: Vec<i32> = Vec::new();
    let mut k: usize = 0;
    while k < dims.len()
        invariant
            k <= dims@.len(),
            along == dim,
            along < dims@.len(),
            rest@ == (if k <= along {
                dims@.take(k as int)
            } else {
                dims@.take(k as int).remove(along as int)
            }),
        decreases dims@.len() - k,
    {
        if k != along {
            rest.push(dims[k]);
            if k < along {
                assert(rest@ =~= dims@.take(k + 1));
            } else {
                assert(rest@ =~= dims@.take(k + 1).remove(along as int));
            }
        } else {
            assert(rest@ =~= dims@.take(k + 1).remove(along as int));
        }
        k += 1;
    }
    assert(dims@.take(k as int) =~= dims@);
    match dims_fit(&rest) {
        Some(_) => Some(rest),
        None => None,
    }
}

/// Elements along a dimension from one to before another, in one of the two directions.
pub open spec fn stretch<E>(
    tile: TileView<E>,
    dim: int,
    lane: Seq<int>,
    first: int,
    end: int,
    backwards: bool,
) -> Seq<E> {
    let items = column(tile, dim, lane).subrange(first, end);
    if backwards {
        items.reverse()
    } else {
        items
    }
}

/// Runs a function over elements along a dimension.
fn fold_stretch<E: ElementType, F: Fn(E, E) -> E>(
    operand: &Tile<E>,
    dim: usize,
    lane: &Vec<i64>,
    first: i64,
    end: i64,
    backwards: bool,
    identity: E,
    f: &F,
) -> (r: E)
    requires
        operand@.wf(),
        dim < operand@.dims.len(),
        lanes::inside(operand@.dims.remove(dim as int), lanes::ints(lane@)),
        0 <= first <= end <= operand@.dims[dim as int],
        forall|a: E, b: E| #[trigger] call_requires(*f, (a, b)),
    ensures
        folds_to(
            *f,
            identity,
            stretch(operand@, dim as int, lanes::ints(lane@), first as int, end as int, backwards),
            r,
        ),
{
    let ghost items = stretch(
        operand@,
        dim as int,
        lanes::ints(lane@),
        first as int,
        end as int,
        backwards,
    );
    let mut value: E = identity;
    let ghost mut trace: Seq<E> = seq![identity];
    let mut j: i64 = 0;
    while j < end - first
        invariant
            operand@.wf(),
            dim < operand@.dims.len(),
            lanes::inside(operand@.dims.remove(dim as int), lanes::ints(lane@)),
            items == stretch(
                operand@,
                dim as int,
                lanes::ints(lane@),
                first as int,
                end as int,
                backwards,
            ),
            0 <= first <= end <= operand@.dims[dim as int],
            0 <= j <= end - first,
            items.len() == end - first,
            forall|a: E, b: E| #[trigger] call_requires(*f, (a, b)),
            is_trace(*f, identity, items.take(j as int), trace),
            trace.last() == value,
        decreases end - first - j,
    {
        let at: i64 = if backwards {
            end - 1 - j
        } else {
            first + j
        };
        let element = find_in_column(operand, dim, lane, at);
        assert(element == items[j as int]);
        assert(call_requires(*f, (value, element)));
        let next = (*f)(value, element);
        proof {
            let longer = items.take(j + 1);
            let before = trace;
            trace = trace.push(next);
            assert forall|k: int| 0 <= k < longer.len() implies call_ensures(
                *f,
                (trace[k], #[trigger] longer[k]),
                trace[k + 1],
            ) by {
                if k < j {
                    assert(items.take(j as int)[k] == longer[k]);
                    assert(trace[k] == before[k] && trace[k + 1] == before[k + 1]);
                } else {
                    assert(longer[k] == element);
                    assert(before[k] == before.last());
                }
            }
        }
        value = next;
        j += 1;
    }
    assert(items.take(j as int) =~= items);
    value
}

/// Runs a function along a dimension of a tile, and keeps what it comes to: the dimension is gone.
pub fn reduce<E: ElementType, F: Fn(E, E) -> E>(
    operand: &Tile<E>,
    dim: i32,
    identity: E,
    f: F,
) -> (r: Option<Tile<E>>)
    requires
        operand@.wf(),
        forall|a: E, b: E| #[trigger] call_requires(f, (a, b)),
    ensures
        r is Some <==> reduces(operand@.dims, dim as int),
        r matches Some(t) ==> t@.wf() && t@.dims == operand@.dims.remove(dim as int),
        r matches Some(t) ==> forall|i: int|
            0 <= i < t@.data.len() ==> folds_to(
                f,
                identity,
                column(operand@, dim as int, lanes::lane_of(t@.dims, i)),
                #[trigger] t@.data[i],
            ),
{
    let shape = operand.shape();
    let rest = match check_reduced(&shape.dims, dim) {
        Some(rest) => rest,
        None => return None,
    };
    let size: usize = match dims_fit(&rest) {
        Some(size) => size,
        None => return None,
    };
    let along: usize = dim as usize;
    let count: i64 = shape.dims[along] as i64;
    assert(operand@.dims[dim as int] >= 0);
    let mut data: Vec<E> = Vec::new();
    while data.len() < size
        invariant
            operand@.wf(),
            along == dim,
            along < operand@.dims.len(),
            rest@ == operand@.dims.remove(dim as int),
            tile::fits(rest@),
            size == lanes::size_of(rest@),
            0 <= count == operand@.dims[dim as int],
            data@.len() <= size,
            forall|a: E, b: E| #[trigger] call_requires(f, (a, b)),
            forall|i: int|
                0 <= i < data@.len() ==> folds_to(
                    f,
                    identity,
                    column(operand@, dim as int, lanes::lane_of(rest@, i)),
                    #[trigger] data@[i],
                ),
        decreases size - data@.len(),
    {
        let lane = find_lane(&rest, data.len());
        let value = fold_stretch(operand, along, &lane, 0, count, false, identity, &f);
        proof {
            let items = column(operand@, dim as int, lanes::ints(lane@));
            assert(items.subrange(0, count as int) =~= items);
        }
        data.push(value);
    }
    Some(Tile::build(Shape { dims: rest }, data))
}

/// The elements along a dimension that a scan has run over when it is at a position.
pub open spec fn run_to<E>(tile: TileView<E>, dim: int, backwards: bool, lane: Seq<int>) -> Seq<E> {
    if backwards {
        stretch(tile, dim, lane.remove(dim), lane[dim], tile.dims[dim] as int, true)
    } else {
        stretch(tile, dim, lane.remove(dim), 0, lane[dim] + 1, false)
    }
}

proof fn rest_is_inside(dims: Seq<i32>, dim: int, lane: Seq<int>)
    requires
        0 <= dim < dims.len(),
        lanes::inside(dims, lane),
    ensures
        lanes::inside(dims.remove(dim), lane.remove(dim)),
        0 <= lane[dim] < dims[dim],
{
    let rest = dims.remove(dim);
    let at = lane.remove(dim);
    assert(0 <= lane[dim] < dims[dim]);
    assert forall|k: int| 0 <= k < rest.len() implies 0 <= #[trigger] at[k] < rest[k] by {
        if k < dim {
            assert(0 <= lane[k] < dims[k]);
        } else {
            assert(0 <= lane[k + 1] < dims[k + 1]);
        }
    }
}

/// Runs a function along a dimension of a tile, and keeps what it has come to at each position.
pub fn scan<E: ElementType, R: reverse::Mode, F: Fn(E, E) -> E>(
    operand: &Tile<E>,
    dim: i32,
    reverse: R,
    identity: E,
    f: F,
) -> (r: Option<Tile<E>>)
    requires
        operand@.wf(),
        forall|a: E, b: E| #[trigger] call_requires(f, (a, b)),
    ensures
        r is Some <==> 0 <= dim < operand@.dims.len(),
        r matches Some(t) ==> t@.wf() && t@.dims == operand@.dims,
        r matches Some(t) ==> forall|i: int|
            0 <= i < t@.data.len() ==> folds_to(
                f,
                identity,
                run_to(operand@, dim as int, R::backwards_spec(), lanes::lane_of(t@.dims, i)),
                #[trigger] t@.data[i],
            ),
{
    let shape = operand.shape();
    if dim < 0 || dim as u64 >= shape.dims.len() as u64 {
        return None;
    }
    let along: usize = dim as usize;
    let count: i64 = shape.dims[along] as i64;
    let backwards: bool = R::backwards();
    let size: usize = operand.elements().len();
    let mut data: Vec<E> = Vec::new();
    while data.len() < size
        invariant
            operand@.wf(),
            along == dim,
            along < operand@.dims.len(),
            shape@ == operand@.dims,
            size == lanes::size_of(shape@),
            count == operand@.dims[dim as int],
            backwards == R::backwards_spec(),
            data@.len() <= size,
            forall|a: E, b: E| #[trigger] call_requires(f, (a, b)),
            forall|i: int|
                0 <= i < data@.len() ==> folds_to(
                    f,
                    identity,
                    run_to(operand@, dim as int, backwards, lanes::lane_of(shape@, i)),
                    #[trigger] data@[i],
                ),
        decreases size - data@.len(),
    {
        let mut lane = find_lane(&shape.dims, data.len());
        let ghost at = lanes::ints(lane@);
        proof {
            rest_is_inside(shape@, dim as int, at);
        }
        let here: i64 = lane[along];
        let ghost before = lane@;
        let _ = lane.remove(along);
        assert(lanes::ints(lane@) =~= at.remove(dim as int));
        let value = if backwards {
            fold_stretch(operand, along, &lane, here, count, true, identity, &f)
        } else {
            fold_stretch(operand, along, &lane, 0, here + 1, false, identity, &f)
        };
        data.push(value);
    }
    Some(Tile::build(shape, data))
}

// Sums and products.

/// The sum of the numbers of elements.
pub open spec fn total<E: IntElement>(items: Seq<E>) -> int
    decreases items.len(),
{
    if items.len() == 0 {
        0
    } else {
        total(items.drop_last()) + items.last().number()
    }
}

/// The product of the numbers of elements.
pub open spec fn product<E: IntElement>(items: Seq<E>) -> int
    decreases items.len(),
{
    if items.len() == 0 {
        1
    } else {
        product(items.drop_last()) * items.last().number()
    }
}

/// A tile with the sums along a dimension.
pub open spec fn summed<E: IntElement>(tile: TileView<E>, dim: int) -> TileView<E> {
    tile::filled(
        tile.dims.remove(dim),
        |lane: Seq<int>| integer::wrapped::<E>(total(column(tile, dim, lane))),
    )
}

/// A tile with the products along a dimension.
pub open spec fn multiplied<E: IntElement>(tile: TileView<E>, dim: int) -> TileView<E> {
    tile::filled(
        tile.dims.remove(dim),
        |lane: Seq<int>| integer::wrapped::<E>(product(column(tile, dim, lane))),
    )
}

/// A tile with the sums up to each position along a dimension.
pub open spec fn running_sums<E: IntElement>(
    tile: TileView<E>,
    dim: int,
    backwards: bool,
    identity: E,
) -> TileView<E> {
    tile::filled(
        tile.dims,
        |lane: Seq<int>|
            integer::wrapped::<E>(identity.number() + total(run_to(tile, dim, backwards, lane))),
    )
}

proof fn trace_of_sums<E: IntElement, F: Fn(E, E) -> E>(
    f: F,
    identity: E,
    items: Seq<E>,
    trace: Seq<E>,
    j: int,
)
    requires
        forall|a: E, b: E, r: E| #[trigger]
            call_ensures(f, (a, b), r) ==> r == arithmetic::sum_of(a, b),
        is_trace(f, identity, items, trace),
        0 <= j <= items.len(),
    ensures
        trace[j] == integer::wrapped::<E>(identity.number() + total(items.take(j))),
    decreases j,
{
    if j == 0 {
        integer::element_is_its_number(identity);
    } else {
        let m = E::modulus_spec();
        E::modulus_is_in_range();
        trace_of_sums(f, identity, items, trace, j - 1);
        let last = items[j - 1];
        assert(call_ensures(f, (trace[j - 1], items[j - 1]), trace[j - 1 + 1]));
        let before = identity.number() + total(items.take(j - 1));
        assert(items.take(j).drop_last() =~= items.take(j - 1));
        assert(items.take(j).last() == last);
        integer::wrapped_has_the_remainder::<E>(before);
        vstd::arithmetic::div_mod::lemma_add_mod_noop(trace[j - 1].number(), last.number(), m);
        vstd::arithmetic::div_mod::lemma_add_mod_noop(before, last.number(), m);
        integer::remainder_tells_the_element::<E>(
            trace[j - 1].number() + last.number(),
            before + last.number(),
        );
    }
}

proof fn trace_of_products<E: IntElement, F: Fn(E, E) -> E>(
    f: F,
    identity: E,
    items: Seq<E>,
    trace: Seq<E>,
    j: int,
)
    requires
        forall|a: E, b: E, r: E| #[trigger]
            call_ensures(f, (a, b), r) ==> r == arithmetic::product_of(a, b),
        is_trace(f, identity, items, trace),
        identity == integer::wrapped::<E>(1),
        0 <= j <= items.len(),
    ensures
        trace[j] == integer::wrapped::<E>(product(items.take(j))),
    decreases j,
{
    if j > 0 {
        let m = E::modulus_spec();
        E::modulus_is_in_range();
        trace_of_products(f, identity, items, trace, j - 1);
        let last = items[j - 1];
        assert(call_ensures(f, (trace[j - 1], items[j - 1]), trace[j - 1 + 1]));
        let before = product(items.take(j - 1));
        assert(items.take(j).drop_last() =~= items.take(j - 1));
        assert(items.take(j).last() == last);
        integer::wrapped_has_the_remainder::<E>(before);
        vstd::arithmetic::div_mod::lemma_mul_mod_noop_left(trace[j - 1].number(), last.number(), m);
        vstd::arithmetic::div_mod::lemma_mul_mod_noop_left(before, last.number(), m);
        integer::remainder_tells_the_element::<E>(
            trace[j - 1].number() * last.number(),
            before * last.number(),
        );
    }
}

/// Sums along a dimension.
pub fn reduce_sum<E: IntElement>(x: &Tile<E>, dim: i32) -> (r: Option<Tile<E>>)
    requires
        x@.wf(),
    ensures
        r is Some <==> reduces(x@.dims, dim as int),
        r matches Some(t) ==> t@.wf() && t@ == summed(x@, dim as int),
{
    let f = |a: E, b: E| -> (r: E)
        ensures
            r == arithmetic::sum_of(a, b),
        { add_elements(a, b) };
    let zero: E = wrap_wide(0);
    proof {
        E::modulus_is_in_range();
        integer::number_in_range_is_kept::<E>(0);
    }
    match reduce(x, dim, zero, f) {
        Some(t) => {
            proof {
                let want = summed(x@, dim as int);
                assert forall|i: int| 0 <= i < t@.data.len() implies t@.data[i] == want.data[i] by {
                    let items = column(x@, dim as int, lanes::lane_of(t@.dims, i));
                    assert(folds_to(f, zero, items, t@.data[i]));
                    let trace = choose|trace: Seq<E>| #[trigger]
                        is_trace(f, zero, items, trace) && trace.last() == t@.data[i];
                    trace_of_sums(f, zero, items, trace, items.len() as int);
                    assert(items.take(items.len() as int) =~= items);
                }
                assert(t@.data =~= want.data);
            }
            Some(t)
        },
        None => None,
    }
}

/// Products along a dimension.
pub fn reduce_prod<E: IntElement>(x: &Tile<E>, dim: i32) -> (r: Option<Tile<E>>)
    requires
        x@.wf(),
    ensures
        r is Some <==> reduces(x@.dims, dim as int),
        r matches Some(t) ==> t@.wf() && t@ == multiplied(x@, dim as int),
{
    let f = |a: E, b: E| -> (r: E)
        ensures
            r == arithmetic::product_of(a, b),
        { multiply_elements(a, b) };
    let one: E = wrap_wide(1);
    match reduce(x, dim, one, f) {
        Some(t) => {
            proof {
                let want = multiplied(x@, dim as int);
                assert forall|i: int| 0 <= i < t@.data.len() implies t@.data[i] == want.data[i] by {
                    let items = column(x@, dim as int, lanes::lane_of(t@.dims, i));
                    assert(folds_to(f, one, items, t@.data[i]));
                    let trace = choose|trace: Seq<E>| #[trigger]
                        is_trace(f, one, items, trace) && trace.last() == t@.data[i];
                    trace_of_products(f, one, items, trace, items.len() as int);
                    assert(items.take(items.len() as int) =~= items);
                }
                assert(t@.data =~= want.data);
            }
            Some(t)
        },
        None => None,
    }
}

/// Sums up to each position along a dimension.
pub fn scan_sum<E: IntElement, R: reverse::Mode>(
    operand: &Tile<E>,
    dim: i32,
    reverse: R,
    identity: E,
) -> (r: Option<Tile<E>>)
    requires
        operand@.wf(),
    ensures
        r is Some <==> 0 <= dim < operand@.dims.len(),
        r matches Some(t) ==> t@.wf() && t@ == running_sums(
            operand@,
            dim as int,
            R::backwards_spec(),
            identity,
        ),
{
    let f = |a: E, b: E| -> (r: E)
        ensures
            r == arithmetic::sum_of(a, b),
        { add_elements(a, b) };
    match scan(operand, dim, reverse, identity, f) {
        Some(t) => {
            proof {
                let backwards = R::backwards_spec();
                let want = running_sums(operand@, dim as int, backwards, identity);
                assert forall|i: int| 0 <= i < t@.data.len() implies t@.data[i] == want.data[i] by {
                    let items = run_to(operand@, dim as int, backwards, lanes::lane_of(t@.dims, i));
                    assert(folds_to(f, identity, items, t@.data[i]));
                    let trace = choose|trace: Seq<E>| #[trigger]
                        is_trace(f, identity, items, trace) && trace.last() == t@.data[i];
                    trace_of_sums(f, identity, items, trace, items.len() as int);
                    assert(items.take(items.len() as int) =~= items);
                }
                assert(t@.data =~= want.data);
            }
            Some(t)
        },
        None => None,
    }
}

/// The last of the running sums along a dimension is the sum.
pub proof fn running_sums_end_with_the_sum<E: IntElement>(
    tile: TileView<E>,
    dim: int,
    lane: Seq<int>,
)
    requires
        tile.wf(),
        0 <= dim < tile.dims.len(),
        tile.dims[dim] >= 1,
        lanes::inside(tile.dims.remove(dim), lane),
    ensures
        running_sums(tile, dim, false, integer::wrapped::<E>(0)).at(
            lane.insert(dim, tile.dims[dim] - 1),
        ) == summed(tile, dim).at(lane),
{
    let zero = integer::wrapped::<E>(0);
    let count = tile.dims[dim] as int;
    let at = lane.insert(dim, count - 1);
    let rest = tile.dims.remove(dim);
    E::modulus_is_in_range();
    integer::number_in_range_is_kept::<E>(0);
    column_is_inside(tile.dims, dim, lane, count - 1);
    assert(lanes::are_dims(rest)) by {
        assert forall|k: int| 0 <= k < rest.len() implies #[trigger] rest[k] >= 0 by {
            assert(0 <= lane[k] < rest[k]);
        }
    }
    tile::filled_at(
        tile.dims,
        |l: Seq<int>|
            integer::wrapped::<E>(zero.number() + total(run_to(tile, dim, false, l))),
        at,
    );
    tile::filled_at(
        rest,
        |l: Seq<int>| integer::wrapped::<E>(total(column(tile, dim, l))),
        lane,
    );
    assert(at.remove(dim) =~= lane);
    let items = column(tile, dim, lane);
    assert(items.subrange(0, count) =~= items);
}

// Extremes.

/// Whether an element is the least one.
pub open spec fn is_least<E: IntElement>(items: Seq<E>, element: E) -> bool {
    items.contains(element) && forall|j: int|
        0 <= j < items.len() ==> element.number() <= (#[trigger] items[j]).number()
}

proof fn trace_of_min<E: IntElement, F: Fn(E, E) -> E>(
    f: F,
    identity: E,
    items: Seq<E>,
    trace: Seq<E>,
    j: int,
)
    requires
        forall|a: E, b: E, r: E| #[trigger]
            call_ensures(f, (a, b), r) ==> r == arithmetic::lesser_of(a, b),
        is_trace(f, identity, items, trace),
        0 <= j <= items.len(),
    ensures
        trace[j] == identity || exists|k: int| 0 <= k < j && #[trigger] items[k] == trace[j],
        trace[j].number() <= identity.number(),
        forall|k: int| 0 <= k < j ==> trace[j].number() <= (#[trigger] items[k]).number(),
    decreases j,
{
    if j > 0 {
        trace_of_min(f, identity, items, trace, j - 1);
        assert(call_ensures(f, (trace[j - 1], items[j - 1]), trace[j - 1 + 1]));
        assert(trace[j] == trace[j - 1] || trace[j] == items[j - 1]);
    }
}

/// The element with the greatest number.
fn largest<E: IntElement>() -> (r: E)
    ensures
        forall|e: E| r.number() >= #[trigger] e.number(),
{
    proof {
        E::modulus_is_in_range();
    }
    let modulus: i128 = E::modulus() as i128;
    let number: i128 = if E::is_signed() {
        modulus / 2 - 1
    } else {
        modulus - 1
    };
    let r: E = wrap_wide(number);
    proof {
        integer::number_in_range_is_kept::<E>(number as int);
        assert forall|e: E| r.number() >= #[trigger] e.number() by {
            e.number_is_in_range();
        }
    }
    r
}

/// The least elements along a dimension that is not empty.
pub fn reduce_min<E: IntElement>(x: &Tile<E>, dim: i32) -> (r: Option<Tile<E>>)
    requires
        x@.wf(),
    ensures
        r is Some <==> reduces(x@.dims, dim as int) && x@.dims[dim as int] >= 1,
        r matches Some(t) ==> t@.wf() && t@.dims == x@.dims.remove(dim as int),
        r matches Some(t) ==> forall|i: int|
            0 <= i < t@.data.len() ==> is_least(
                column(x@, dim as int, lanes::lane_of(t@.dims, i)),
                #[trigger] t@.data[i],
            ),
{
    let shape = x.shape();
    if dim < 0 || dim as u64 >= shape.dims.len() as u64 || shape.dims[dim as usize] < 1 {
        return None;
    }
    let f = |a: E, b: E| -> (r: E)
        ensures
            r == arithmetic::lesser_of(a, b),
        { min(a, b) };
    let identity: E = largest();
    match reduce(x, dim, identity, f) {
        Some(t) => {
            proof {
                assert forall|i: int| 0 <= i < t@.data.len() implies is_least(
                    column(x@, dim as int, lanes::lane_of(t@.dims, i)),
                    #[trigger] t@.data[i],
                ) by {
                    let items = column(x@, dim as int, lanes::lane_of(t@.dims, i));
                    let found = t@.data[i];
                    assert(folds_to(f, identity, items, found));
                    let trace = choose|trace: Seq<E>| #[trigger]
                        is_trace(f, identity, items, trace) && trace.last() == found;
                    trace_of_min(f, identity, items, trace, items.len() as int);
                    if found == identity {
                        assert(found.number() <= items[0].number());
                        assert(found.number() >= items[0].number());
                        integer::element_is_its_number(found);
                        integer::element_is_its_number(items[0]);
                        assert(items[0] == found);
                    }
                }
            }
            Some(t)
        },
        None => None,
    }
}

/// Whether an element is the greatest one.
pub open spec fn is_greatest<E: IntElement>(items: Seq<E>, element: E) -> bool {
    items.contains(element) && forall|j: int|
        0 <= j < items.len() ==> element.number() >= (#[trigger] items[j]).number()
}

proof fn trace_of_max<E: IntElement, F: Fn(E, E) -> E>(
    f: F,
    identity: E,
    items: Seq<E>,
    trace: Seq<E>,
    j: int,
)
    requires
        forall|a: E, b: E, r: E| #[trigger]
            call_ensures(f, (a, b), r) ==> r == arithmetic::greater_of(a, b),
        is_trace(f, identity, items, trace),
        0 <= j <= items.len(),
    ensures
        trace[j] == identity || exists|k: int| 0 <= k < j && #[trigger] items[k] == trace[j],
        trace[j].number() >= identity.number(),
        forall|k: int| 0 <= k < j ==> trace[j].number() >= (#[trigger] items[k]).number(),
    decreases j,
{
    if j > 0 {
        trace_of_max(f, identity, items, trace, j - 1);
        assert(call_ensures(f, (trace[j - 1], items[j - 1]), trace[j - 1 + 1]));
        assert(trace[j] == trace[j - 1] || trace[j] == items[j - 1]);
    }
}

/// The element with the least number.
fn smallest<E: IntElement>() -> (r: E)
    ensures
        forall|e: E| r.number() <= #[trigger] e.number(),
{
    proof {
        E::modulus_is_in_range();
    }
    let modulus: i128 = E::modulus() as i128;
    let number: i128 = if E::is_signed() {
        -(modulus / 2)
    } else {
        0
    };
    let r: E = wrap_wide(number);
    proof {
        integer::number_in_range_is_kept::<E>(number as int);
        assert forall|e: E| r.number() <= #[trigger] e.number() by {
            e.number_is_in_range();
        }
    }
    r
}

/// The greatest elements along a dimension that is not empty.
pub fn reduce_max<E: IntElement>(x: &Tile<E>, dim: i32) -> (r: Option<Tile<E>>)
    requires
        x@.wf(),
    ensures
        r is Some <==> reduces(x@.dims, dim as int) && x@.dims[dim as int] >= 1,
        r matches Some(t) ==> t@.wf() && t@.dims == x@.dims.remove(dim as int),
        r matches Some(t) ==> forall|i: int|
            0 <= i < t@.data.len() ==> is_greatest(
                column(x@, dim as int, lanes::lane_of(t@.dims, i)),
                #[trigger] t@.data[i],
            ),
{
    let shape = x.shape();
    if dim < 0 || dim as u64 >= shape.dims.len() as u64 || shape.dims[dim as usize] < 1 {
        return None;
    }
    let f = |a: E, b: E| -> (r: E)
        ensures
            r == arithmetic::greater_of(a, b),
        { max(a, b) };
    let identity: E = smallest();
    match reduce(x, dim, identity, f) {
        Some(t) => {
            proof {
                assert forall|i: int| 0 <= i < t@.data.len() implies is_greatest(
                    column(x@, dim as int, lanes::lane_of(t@.dims, i)),
                    #[trigger] t@.data[i],
                ) by {
                    let items = column(x@, dim as int, lanes::lane_of(t@.dims, i));
                    let found = t@.data[i];
                    assert(folds_to(f, identity, items, found));
                    let trace = choose|trace: Seq<E>| #[trigger]
                        is_trace(f, identity, items, trace) && trace.last() == found;
                    trace_of_max(f, identity, items, trace, items.len() as int);
                    if found == identity {
                        assert(found.number() >= items[0].number());
                        assert(found.number() <= items[0].number());
                        integer::element_is_its_number(found);
                        integer::element_is_its_number(items[0]);
                        assert(items[0] == found);
                    }
                }
            }
            Some(t)
        },
        None => None,
    }
}

/// There is only one least element, and only one greatest.
pub proof fn extremes_are_unique<E: IntElement>(items: Seq<E>, a: E, b: E)
    ensures
        is_least(items, a) && is_least(items, b) ==> a == b,
        is_greatest(items, a) && is_greatest(items, b) ==> a == b,
{
    integer::element_is_its_number(a);
    integer::element_is_its_number(b);
    if items.contains(a) && items.contains(b) {
        let i = items.index_of(a);
        let j = items.index_of(b);
        assert(items[i] == a && items[j] == b);
    }
}

} // verus!

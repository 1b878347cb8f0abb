//! Operations that put the elements of tiles elsewhere.
use crate::dsl::element::ElementType;
use crate::dsl::integer::{self, wrap_wide, IntElement};
use crate::dsl::lanes::{self, find_lane};
use crate::dsl::partition::{self, check_order};
use crate::dsl::pointer::{self, make_single};
use crate::dsl::tile::{self, broadcast_scalar, dims_fit, Array, Shape, Tile, TileView};
use vstd::prelude::*;

verus! {

/// Takes each element of a new tile from a place in another.
fn gather<E: ElementType, G: Fn(Vec<i64>) -> Vec<i64>>(
    source: &Tile<E>,
    shape: Shape,
    find: G,
    Ghost(place): Ghost<spec_fn(Seq<int>) -> Seq<int>>,
) -> (r: Tile<E>)
    requires
        source@.wf(),
        tile::fits(shape@),
        forall|lane: Vec<i64>|
            lanes::inside(shape@, lanes::ints(lane@)) ==> #[trigger] call_requires(find, (lane,)),
        forall|lane: Vec<i64>, found: Vec<i64>|
            lanes::inside(shape@, lanes::ints(lane@)) && #[trigger] call_ensures(
                find,
                (lane,),
                found,
            ) ==> lanes::ints(found@) == place(lanes::ints(lane@)),
        forall|lane: Seq<int>|
            lanes::inside(shape@, lane) ==> lanes::inside(source@.dims, #[trigger] place(lane)),
    ensures
        r@.wf(),
        r@ == tile::filled(shape@, |lane: Seq<int>| source@.at(place(lane))),
{
    proof {
        lanes::size_is_a_count(shape@);
    }
    let size: usize = match dims_fit(&shape.dims) {
        Some(size) => size,
        None => 0,
    };
    let mut data: Vec<E> = Vec::new();
    while data.len() < size
        invariant
            source@.wf(),
            tile::fits(shape@),
            size == lanes::size_of(shape@),
            data@.len() <= size,
            forall|lane: Vec<i64>|
                lanes::inside(shape@, lanes::ints(lane@)) ==> #[trigger] call_requires(
                    find,
                    (lane,),
                ),
            forall|lane: Vec<i64>, found: Vec<i64>|
                lanes::inside(shape@, lanes::ints(lane@)) && #[trigger] call_ensures(
                    find,
                    (lane,),
                    found,
                ) ==> lanes::ints(found@) == place(lanes::ints(lane@)),
            forall|lane: Seq<int>|
                lanes::inside(shape@, lane) ==> lanes::inside(source@.dims, #[trigger] place(lane)),
            forall|i: int|
                0 <= i < data@.len() ==> #[trigger] data@[i] == source@.at(
                    place(lanes::lane_of(shape@, i)),
                ),
        decreases size - data@.len(),
    {
        let lane = find_lane(&shape.dims, data.len());
        let ghost at = lanes::ints(lane@);
        let found = find(lane);
        assert(lanes::ints(found@) == place(at));
        match source.get(&found) {
            Some(element) => data.push(element),
            None => {
                assert(false);
            },
        }
    }
    let r = Tile::build(shape, data);
    assert(r@.data =~= tile::filled(shape@, |lane: Seq<int>| source@.at(place(lane))).data);
    r
}

// Filling.

/// Broadcasts a tile to other dimensions, where they allow it.
pub fn broadcast<E: ElementType>(source: &Tile<E>, shape: &Shape) -> (r: Option<Tile<E>>)
    requires
        source@.wf(),
    ensures
        r is Some <==> tile::broadcasts(source@.dims, shape@) && tile::fits(shape@),
        r matches Some(t) ==> t@.wf() && t@ == tile::broadcast_view(source@, shape@),
{
    source.broadcast(shape)
}

/// Fills a tile of these dimensions with a value.
pub fn constant<E: ElementType>(value: E, shape: &Shape) -> (r: Option<Tile<E>>)
    ensures
        r is Some <==> tile::fits(shape@),
        r matches Some(t) ==> t@.wf() && t@ == tile::uniform(value, shape@),
{
    broadcast_scalar(value, shape)
}

/// The numbers from zero on.
pub open spec fn counted<E: IntElement>(count: int) -> TileView<E> {
    TileView {
        dims: seq![count as i32],
        data: Seq::new(count as nat, |i: int| integer::wrapped::<E>(i)),
    }
}

/// A tile of one dimension with the numbers from zero on.
pub fn iota<E: IntElement>(shape: &Shape) -> (r: Option<Tile<E>>)
    ensures
        r is Some <==> shape@.len() == 1 && tile::fits(shape@),
        r matches Some(t) ==> t@.wf() && t@ == counted::<E>(shape@[0] as int),
{
    if shape.dims.len() != 1 {
        return None;
    }
    let size: usize = match dims_fit(&shape.dims) {
        Some(size) => size,
        None => return None,
    };
    proof {
        reveal_with_fuel(lanes::size_of, 2);
        assert(1 * shape@[0] == shape@[0]);
    }
    let mut data: Vec<E> = Vec::new();
    while data.len() < size
        invariant
            data@.len() <= size,
            size <= i32::MAX,
            forall|i: int| 0 <= i < data@.len() ==> #[trigger] data@[i] == integer::wrapped::<E>(i),
        decreases size - data@.len(),
    {
        let i: usize = data.len();
        data.push(wrap_wide(i as i128));
    }
    let t = Tile::build(shape.dup(), data);
    assert(t@.dims =~= counted::<E>(shape@[0] as int).dims);
    assert(t@.data =~= counted::<E>(shape@[0] as int).data);
    Some(t)
}

/// The tile of no dimensions that holds a scalar.
pub fn scalar_to_tile<E: ElementType>(scalar: E) -> (r: Tile<E>)
    ensures
        r@.wf(),
        r@ == pointer::single(scalar),
{
    make_single(scalar)
}

/// The scalar in a tile of no dimensions.
pub fn tile_to_scalar<E: ElementType>(tile: &Tile<E>) -> (r: E)
    requires
        tile@.wf(),
        tile@.dims.len() == 0,
    ensures
        tile@ == pointer::single(r),
{
    assert(lanes::size_of(tile@.dims) == 1);
    let r: E = tile.elements()[0];
    assert(tile@.data =~= pointer::single(r).data);
    assert(tile@.dims =~= pointer::single(r).dims);
    r
}

// Reshaping.

/// The same elements in other dimensions.
pub open spec fn reshaped<E>(tile: TileView<E>, dims: Seq<i32>) -> TileView<E> {
    TileView { dims, data: tile.data }
}

/// Whether a tile can be given other dimensions: it has as many elements.
pub open spec fn reshapes<E>(tile: TileView<E>, dims: Seq<i32>) -> bool {
    tile::fits(dims) && lanes::size_of(dims) == tile.data.len()
}

/// Gives a tile other dimensions, where it has as many elements.
pub fn reshape<E: ElementType>(source: &Tile<E>, shape: &Shape) -> (r: Option<Tile<E>>)
    requires
        source@.wf(),
    ensures
        r is Some <==> reshapes(source@, shape@),
        r matches Some(t) ==> t@.wf() && t@ == reshaped(source@, shape@),
{
    source.reshape(shape)
}

impl<E: ElementType> Tile<E> {
    /// Gives the tile other dimensions, where it has as many elements.
    pub fn reshape(&self, shape: &Shape) -> (r: Option<Tile<E>>)
        requires
            self@.wf(),
        ensures
            r is Some <==> reshapes(self@, shape@),
            r matches Some(t) ==> t@.wf() && t@ == reshaped(self@, shape@),
    {
        let from = self.elements();
        let mut data: Vec<E> = Vec::new();
        while data.len() < from.len()
            invariant
                from@ == self@.data,
                data@.len() <= from@.len(),
                forall|i: int| 0 <= i < data@.len() ==> #[trigger] data@[i] == from@[i],
            decreases from@.len() - data@.len(),
        {
            let i: usize = data.len();
            data.push(from[i]);
        }
        assert(data@ =~= self@.data);
        Tile::from_elements(shape.dup(), data)
    }
}

/// A tile that is reshaped and reshaped back is the same.
pub proof fn reshaped_back<E>(tile: TileView<E>, dims: Seq<i32>)
    requires
        tile.wf(),
        reshapes(tile, dims),
    ensures
        reshapes(reshaped(tile, dims), tile.dims),
        reshaped(reshaped(tile, dims), tile.dims) == tile,
{
}

// Permuting.

/// The dimensions in another order.
pub open spec fn reordered(dims: Seq<i32>, order: Seq<i32>) -> Seq<i32> {
    Seq::new(order.len(), |k: int| dims[order[k] as int])
}

/// The position in a tile that a position in its permuted form takes its element from.
pub open spec fn unordered(order: Seq<i32>, lane: Seq<int>) -> Seq<int> {
    Seq::new(order.len(), |d: int| lane[partition::runs_along(order, d)])
}

/// A tile with its dimensions in another order.
pub open spec fn permuted<E>(tile: TileView<E>, order: Seq<i32>) -> TileView<E> {
    tile::filled(
        reordered(tile.dims, order),
        |lane: Seq<int>| tile.at(unordered(order, lane)),
    )
}

proof fn size_without(dims: Seq<i32>, k: int)
    requires
        0 <= k < dims.len(),
    ensures
        lanes::size_of(dims) == dims[k] * lanes::size_of(dims.remove(k)),
    decreases dims.len(),
{
    let last = dims.last() as int;
    if k == dims.len() - 1 {
        assert(dims.remove(k) =~= dims.drop_last());
        let rest = lanes::size_of(dims.drop_last());
        assert(rest * last == last * rest) by (nonlinear_arith);
    } else {
        let front = dims.drop_last();
        size_without(front, k);
        assert(front[k] == dims[k]);
        assert(dims.remove(k).drop_last() =~= front.remove(k));
        assert(dims.remove(k).last() == dims.last());
        let x = dims[k] as int;
        let rest = lanes::size_of(front.remove(k));
        assert((x * rest) * last == x * (rest * last)) by (nonlinear_arith);
    }
}

/// An array has as many elements whatever the order of its dimensions.
pub proof fn order_keeps_the_size(dims: Seq<i32>, order: Seq<i32>)
    requires
        partition::is_order(order, dims.len()),
    ensures
        lanes::size_of(reordered(dims, order)) == lanes::size_of(dims),
    decreases dims.len(),
{
    if dims.len() == 0 {
        assert(reordered(dims, order) =~= dims);
    } else {
        let d = dims.len() - 1;
        partition::every_dimension_is_run_along(order, d);
        let k = partition::runs_along(order, d);
        let to = reordered(dims, order);
        let rest = order.remove(k);
        let front = dims.drop_last();
        size_without(to, k);
        assert(partition::is_order(rest, front.len())) by {
            assert forall|j: int| 0 <= j < rest.len() implies 0 <= #[trigger] rest[j]
                < front.len() by {
                let i = if j < k {
                    j
                } else {
                    j + 1
                };
                assert(rest[j] == order[i]);
                assert(0 <= order[i] < dims.len());
                if i < k {
                    assert(order[i] != order[k]);
                } else {
                    assert(order[k] != order[i]);
                }
            }
            assert forall|i: int, j: int| 0 <= i < j < rest.len() implies #[trigger] rest[i]
                != #[trigger] rest[j] by {
                let a = if i < k {
                    i
                } else {
                    i + 1
                };
                let b = if j < k {
                    j
                } else {
                    j + 1
                };
                assert(rest[i] == order[a] && rest[j] == order[b]);
                assert(order[a] != order[b]);
            }
        }
        order_keeps_the_size(front, rest);
        assert(to.remove(k) =~= reordered(front, rest)) by {
            assert forall|j: int| 0 <= j < rest.len() implies to.remove(k)[j] == reordered(
                front,
                rest,
            )[j] by {
                let i = if j < k {
                    j
                } else {
                    j + 1
                };
                assert(rest[j] == order[i]);
                assert(0 <= rest[j] < front.len());
            }
        }
        let size = lanes::size_of(front);
        let last = dims.last() as int;
        assert(last * size == size * last) by (nonlinear_arith);
    }
}

proof fn unordered_is_inside(dims: Seq<i32>, order: Seq<i32>, lane: Seq<int>)
    requires
        partition::is_order(order, dims.len()),
        lanes::inside(reordered(dims, order), lane),
    ensures
        lanes::inside(dims, unordered(order, lane)),
{
    let from = unordered(order, lane);
    assert forall|d: int| 0 <= d < dims.len() implies 0 <= #[trigger] from[d] < dims[d] by {
        partition::every_dimension_is_run_along(order, d);
        let k = partition::runs_along(order, d);
        assert(0 <= lane[k] < reordered(dims, order)[k]);
    }
}

proof fn permuted_fits(dims: Seq<i32>, order: Seq<i32>)
    requires
        tile::fits(dims),
        partition::is_order(order, dims.len()),
    ensures
        tile::fits(reordered(dims, order)),
        lanes::size_of(reordered(dims, order)) == lanes::size_of(dims),
{
    order_keeps_the_size(dims, order);
    let to = reordered(dims, order);
    assert forall|k: int| 0 <= k < to.len() implies #[trigger] to[k] >= 0 by {
        assert(0 <= order[k] < dims.len());
        assert(dims[order[k] as int] >= 0);
    }
}

/// Puts each position of a tile back where it was before the dimensions were reordered.
fn find_unordered(order: &Vec<i32>, lane: &Vec<i64>) -> (r: Vec<i64>)
    requires
        partition::is_order(order@, order@.len()),
        lane@.len() == order@.len(),
    ensures
        lanes::ints(r@) == unordered(order@, lanes::ints(lane@)),
{
    let mut found: Vec<i64> = Vec::new();
    let rank: usize = order.len();
    while found.len() < rank
        invariant
            found@.len() <= rank,
            rank == order@.len() == lane@.len(),
            partition::is_order(order@, order@.len()),
            forall|d: int|
                0 <= d < found@.len() ==> #[trigger] found@[d] == lane@[partition::runs_along(
                    order@,
                    d,
                )],
        decreases rank - found@.len(),
    {
        let d: usize = found.len();
        let ghost wanted = partition::runs_along(order@, d as int);
        proof {
            partition::every_dimension_is_run_along(order@, d as int);
        }
        let mut k: usize = 0;
        while order[k] as i64 != d as i64
            invariant
                k <= wanted < rank,
                rank == order@.len(),
                d < rank,
                partition::is_order(order@, order@.len()),
                order@[wanted] == d,
            decreases rank - k,
        {
            k += 1;
        }
        assert(k == wanted) by {
            if k < wanted {
                assert(order@[k as int] != order@[wanted]);
            }
        }
        found.push(lane[k]);
    }
    assert forall|d: int| 0 <= d < rank implies lanes::ints(found@)[d] == unordered(
        order@,
        lanes::ints(lane@),
    )[d] by {
        partition::every_dimension_is_run_along(order@, d);
        assert(found@[d] == lane@[partition::runs_along(order@, d)]);
    }
    assert(lanes::ints(found@) =~= unordered(order@, lanes::ints(lane@)));
    found
}

/// Puts the dimensions of a tile in another order, where it is one.
pub fn permute<E: ElementType>(source: &Tile<E>, permutation: &Array) -> (r: Option<Tile<E>>)
    requires
        source@.wf(),
    ensures
        r is Some <==> partition::is_order(permutation@, source@.dims.len()),
        r matches Some(t) ==> t@.wf() && t@ == permuted(source@, permutation@),
{
    let shape = source.shape();
    if !check_order(&permutation.dims, shape.dims.len()) {
        return None;
    }
    let to = match permute_array(&shape.dims, permutation) {
        Some(to) => to,
        None => return None,
    };
    let ghost order = permutation@;
    let ghost dims = source@.dims;
    proof {
        permuted_fits(dims, order);
        assert forall|lane: Seq<int>| lanes::inside(to@, lane) implies lanes::inside(
            dims,
            #[trigger] unordered(order, lane),
        ) by {
            unordered_is_inside(dims, order, lane);
        }
    }
    let find = |lane: Vec<i64>| -> (found: Vec<i64>)
        requires
            lane@.len() == permutation@.len(),
        ensures
            lanes::ints(found@) == unordered(permutation@, lanes::ints(lane@)),
        { find_unordered(&permutation.dims, &lane) };
    let t = gather(
        source,
        Shape { dims: to },
        find,
        Ghost(|lane: Seq<int>| unordered(order, lane)),
    );
    assert(t@.data =~= permuted(source@, permutation@).data);
    Some(t)
}

/// Puts numbers in another order, where it is one.
pub fn permute_array(source: &Vec<i32>, permutation: &Array) -> (r: Option<Vec<i32>>)
    ensures
        r is Some <==> partition::is_order(permutation@, source@.len()),
        r matches Some(to) ==> to@ == reordered(source@, permutation@),
{
    if !check_order(&permutation.dims, source.len()) {
        return None;
    }
    let mut to: Vec<i32> = Vec::new();
    while to.len() < permutation.dims.len()
        invariant
            to@.len() <= permutation@.len(),
            partition::is_order(permutation@, source@.len()),
            forall|k: int|
                0 <= k < to@.len() ==> #[trigger] to@[k] == source@[permutation@[k] as int],
        decreases permutation@.len() - to@.len(),
    {
        let k: usize = to.len();
        assert(0 <= permutation@[k as int] < source@.len());
        let d: i32 = permutation.dims[k];
        to.push(source[d as usize]);
    }
    assert(to@ =~= reordered(source@, permutation@));
    Some(to)
}

/// Exchanging the two dimensions of a tile is putting them in the other order.
pub proof fn transposing_is_permuting<E>(tile: TileView<E>)
    requires
        tile.wf(),
        tile.dims.len() == 2,
    ensures
        permuted(tile, seq![1i32, 0i32]) == tile::transposed(tile),
{
    let order = seq![1i32, 0i32];
    let to = reordered(tile.dims, order);
    assert(to =~= seq![tile.dims[1], tile.dims[0]]);
    assert(partition::is_order(order, 2));
    permuted_fits(tile.dims, order);
    lanes::size_is_a_count(to);
    let a = permuted(tile, order);
    let b = tile::transposed(tile);
    assert forall|lane: Seq<int>| lanes::inside(to, lane) implies #[trigger] a.at(lane) == b.at(
        lane,
    ) by {
        tile::filled_at(to, |l: Seq<int>| tile.at(unordered(order, l)), lane);
        tile::filled_at(to, |l: Seq<int>| tile.at(seq![l[1], l[0]]), lane);
        partition::every_dimension_is_run_along(order, 0);
        partition::every_dimension_is_run_along(order, 1);
        assert(unordered(order, lane) =~= seq![lane[1], lane[0]]);
    }
    tile::tiles_are_their_elements(a, b);
}

/// Putting the dimensions back in the order in which they were gives the tile back.
pub proof fn permuted_back<E>(tile: TileView<E>, order: Seq<i32>, inverse: Seq<i32>)
    requires
        tile.wf(),
        partition::is_order(order, tile.dims.len()),
        partition::is_order(inverse, tile.dims.len()),
        forall|k: int| 0 <= k < order.len() ==> inverse[#[trigger] order[k] as int] == k,
    ensures
        permuted(permuted(tile, order), inverse) == tile,
{
    let dims = tile.dims;
    let once = permuted(tile, order);
    let twice = permuted(once, inverse);
    let to = reordered(dims, order);
    permuted_fits(dims, order);
    permuted_fits(to, inverse);
    lanes::size_is_a_count(dims);
    assert forall|d: int| 0 <= d < dims.len() implies order[inverse[d] as int] == d by {
        partition::every_dimension_is_run_along(order, d);
        let k = partition::runs_along(order, d);
        assert(inverse[order[k] as int] == k);
    }
    assert(reordered(to, inverse) =~= dims) by {
        assert forall|d: int| 0 <= d < dims.len() implies reordered(to, inverse)[d] == dims[d] by {
            assert(0 <= inverse[d] < dims.len());
            assert(order[inverse[d] as int] == d);
        }
    }
    assert forall|lane: Seq<int>| lanes::inside(dims, lane) implies #[trigger] twice.at(lane)
        == tile.at(lane) by {
        let mid = unordered(inverse, lane);
        unordered_is_inside(to, inverse, lane);
        tile::filled_at(dims, |l: Seq<int>| once.at(unordered(inverse, l)), lane);
        tile::filled_at(to, |l: Seq<int>| tile.at(unordered(order, l)), mid);
        assert(unordered(order, mid) =~= lane) by {
            assert forall|d: int| 0 <= d < dims.len() implies unordered(order, mid)[d]
                == lane[d] by {
                partition::every_dimension_is_run_along(order, d);
                let k = partition::runs_along(order, d);
                assert(inverse[order[k] as int] == k);
                partition::every_dimension_is_run_along(inverse, k);
                let e = partition::runs_along(inverse, k);
                assert(inverse[e] == k && inverse[d] == k);
                if e < d {
                    assert(inverse[e] != inverse[d]);
                } else if d < e {
                    assert(inverse[d] != inverse[e]);
                }
            }
        }
    }
    tile::tiles_are_their_elements(twice, tile);
}

// Choosing.

/// At each position the element of one of two tiles.
pub open spec fn selected<E>(cond: TileView<bool>, a: TileView<E>, b: TileView<E>) -> TileView<E> {
    TileView {
        dims: cond.dims,
        data: Seq::new(
            cond.data.len(),
            |i: int|
                if cond.data[i] {
                    a.data[i]
                } else {
                    b.data[i]
                },
        ),
    }
}

/// Takes an element from the first tile where the condition holds, and else from the second.
pub fn select<E: ElementType>(
    cond: &Tile<bool>,
    val_if_true: &Tile<E>,
    val_if_false: &Tile<E>,
) -> (r: Tile<E>)
    requires
        cond@.wf(),
        val_if_true@.wf(),
        val_if_false@.wf(),
        cond@.dims == val_if_true@.dims,
        cond@.dims == val_if_false@.dims,
    ensures
        r@.wf(),
        r@ == selected(cond@, val_if_true@, val_if_false@),
{
    let tests = cond.elements();
    let a = val_if_true.elements();
    let b = val_if_false.elements();
    let mut data: Vec<E> = Vec::new();
    while data.len() < tests.len()
        invariant
            tests@ == cond@.data,
            a@ == val_if_true@.data,
            b@ == val_if_false@.data,
            tests@.len() == a@.len() == b@.len(),
            data@.len() <= tests@.len(),
            forall|i: int|
                0 <= i < data@.len() ==> #[trigger] data@[i] == (if tests@[i] {
                    a@[i]
                } else {
                    b@[i]
                }),
        decreases tests@.len() - data@.len(),
    {
        let i: usize = data.len();
        if tests[i] {
            data.push(a[i]);
        } else {
            data.push(b[i]);
        }
    }
    let r = Tile::build(cond.shape(), data);
    assert(r@.data =~= selected(cond@, val_if_true@, val_if_false@).data);
    r
}

// Taking apart and putting together.

/// Whether a tile is divided evenly by smaller dimensions, and an index names one of its parts.
pub open spec fn names_part(dims: Seq<i32>, part: Seq<i32>, index: Seq<i32>) -> bool {
    &&& part.len() == dims.len()
    &&& index.len() == dims.len()
    &&& forall|k: int|
        0 <= k < dims.len() ==> {
            &&& 1 <= #[trigger] part[k]
            &&& dims[k] as int % part[k] as int == 0
            &&& 0 <= index[k] < dims[k] as int / part[k] as int
        }
}

/// The position in a tile of a position in one of its parts.
pub open spec fn part_place(part: Seq<i32>, index: Seq<i32>, lane: Seq<int>) -> Seq<int> {
    Seq::new(part.len(), |k: int| index[k] * part[k] + lane[k])
}

/// One of the parts of a tile.
pub open spec fn extracted<E>(tile: TileView<E>, part: Seq<i32>, index: Seq<i32>) -> TileView<E> {
    tile::filled(part, |lane: Seq<int>| tile.at(part_place(part, index, lane)))
}

proof fn place_is_along(whole: int, part: int, index: int, at: int)
    requires
        1 <= part,
        whole % part == 0,
        0 <= index < whole / part,
        0 <= at < part,
    ensures
        0 <= index * part + at < whole,
        0 <= index * part <= whole,
{
    vstd::arithmetic::div_mod::lemma_fundamental_div_mod(whole, part);
    let count = whole / part;
    assert(0 <= index * part && (index + 1) * part <= part * count && (index + 1) * part == index
        * part + part) by (nonlinear_arith)
        requires
            0 <= index,
            index + 1 <= count,
            part >= 1,
    ;
}

proof fn part_is_inside(dims: Seq<i32>, part: Seq<i32>, index: Seq<i32>, lane: Seq<int>)
    requires
        names_part(dims, part, index),
        lanes::inside(part, lane),
    ensures
        lanes::inside(dims, part_place(part, index, lane)),
{
    let at = part_place(part, index, lane);
    assert forall|k: int| 0 <= k < dims.len() implies 0 <= #[trigger] at[k] < dims[k] by {
        assert(1 <= part[k]);
        assert(0 <= lane[k] < part[k]);
        place_is_along(dims[k] as int, part[k] as int, index[k] as int, lane[k]);
    }
}

/// Whether an index names a part of a tile.
fn check_part(dims: &Vec<i32>, part: &Vec<i32>, index: &Vec<i32>) -> (r: bool)
    requires
        lanes::are_dims(dims@),
    ensures
        r == names_part(dims@, part@, index@),
{
    if part.len() != dims.len() || index.len() != dims.len() {
        return false;
    }
    let mut k: usize = 0;
    while k < dims.len()
        invariant
            k <= dims@.len(),
            part@.len() == dims@.len(),
            index@.len() == dims@.len(),
            lanes::are_dims(dims@),
            forall|j: int|
                0 <= j < k ==> {
                    &&& 1 <= #[trigger] part@[j]
                    &&& dims@[j] as int % part@[j] as int == 0
                    &&& 0 <= index@[j] < dims@[j] as int / part@[j] as int
                },
        decreases dims@.len() - k,
    {
        assert(dims@[k as int] >= 0);
        if part[k] < 1 || index[k] < 0 {
            assert(!(1 <= part@[k as int] && 0 <= index@[k as int]));
            return false;
        }
        let whole: u32 = dims[k] as u32;
        let size: u32 = part[k] as u32;
        if whole % size != 0 || index[k] as u32 >= whole / size {
            assert(1 <= part@[k as int]);
            return false;
        }
        k += 1;
    }
    true
}

/// Takes one of the parts of a tile, where it is divided evenly and the index names one.
pub fn extract<E: ElementType>(source: &Tile<E>, indices: &Vec<i32>, shape: &Shape) -> (r: Option<
    Tile<E>,
>)
    requires
        source@.wf(),
    ensures
        r is Some <==> names_part(source@.dims, shape@, indices@) && tile::fits(shape@),
        r matches Some(t) ==> t@.wf() && t@ == extracted(source@, shape@, indices@),
{
    let dims = source.shape();
    if !check_part(&dims.dims, &shape.dims, indices) {
        return None;
    }
    match dims_fit(&shape.dims) {
        Some(_) => {},
        None => return None,
    }
    let ghost part = shape@;
    let ghost index = indices@;
    proof {
        assert forall|lane: Seq<int>| lanes::inside(part, lane) implies lanes::inside(
            source@.dims,
            #[trigger] part_place(part, index, lane),
        ) by {
            part_is_inside(source@.dims, part, index, lane);
        }
    }
    let find = |lane: Vec<i64>| -> (found: Vec<i64>)
        requires
            lanes::inside(shape@, lanes::ints(lane@)),
        ensures
            lanes::ints(found@) == part_place(shape@, indices@, lanes::ints(lane@)),
        { find_part_place(&dims.dims, &shape.dims, indices, &lane) };
    let t = gather(
        source,
        shape.dup(),
        find,
        Ghost(|lane: Seq<int>| part_place(part, index, lane)),
    );
    assert(t@.data =~= extracted(source@, shape@, indices@).data);
    Some(t)
}

fn find_part_place(dims: &Vec<i32>, part: &Vec<i32>, index: &Vec<i32>, lane: &Vec<i64>) -> (r: Vec<
    i64,
>)
    requires
        names_part(dims@, part@, index@),
        lanes::inside(part@, lanes::ints(lane@)),
    ensures
        lanes::ints(r@) == part_place(part@, index@, lanes::ints(lane@)),
{
    let mut found: Vec<i64> = Vec::new();
    let ghost at = lanes::ints(lane@);
    while found.len() < part.len()
        invariant
            found@.len() <= part@.len(),
            names_part(dims@, part@, index@),
            at == lanes::ints(lane@),
            lanes::inside(part@, at),
            forall|k: int|
                0 <= k < found@.len() ==> #[trigger] found@[k] == part_place(part@, index@, at)[k],
        decreases part@.len() - found@.len(),
    {
        let k: usize = found.len();
        assert(1 <= part@[k as int]);
        assert(0 <= at[k as int] < part@[k as int]);
        assert(at[k as int] == lane@[k as int]);
        proof {
            place_is_along(
                dims@[k as int] as int,
                part@[k as int] as int,
                index@[k as int] as int,
                at[k as int],
            );
        }
        found.push(index[k] as i64 * part[k] as i64 + lane[k]);
    }
    assert(lanes::ints(found@) =~= part_place(part@, index@, at));
    found
}

/// Whether two tiles can be put together along a dimension: the others are the same.
pub open spec fn joins(a: Seq<i32>, b: Seq<i32>, dim: int) -> bool {
    &&& a.len() == b.len()
    &&& 0 <= dim < a.len()
    &&& a[dim] + b[dim] <= i32::MAX
    &&& forall|k: int| 0 <= k < a.len() && k != dim ==> #[trigger] a[k] == b[k]
}

/// The dimensions of two tiles that are put together.
pub open spec fn joined_dims(a: Seq<i32>, b: Seq<i32>, dim: int) -> Seq<i32> {
    a.update(dim, (a[dim] + b[dim]) as i32)
}

/// The position in the second of two tiles of a position in both together.
pub open spec fn second_lane(first: Seq<i32>, dim: int, lane: Seq<int>) -> Seq<int> {
    lane.update(dim, lane[dim] - first[dim])
}

/// Two tiles, one after the other along a dimension.
pub open spec fn concatenated<E>(lhs: TileView<E>, rhs: TileView<E>, dim: int) -> TileView<E> {
    tile::filled(
        joined_dims(lhs.dims, rhs.dims, dim),
        |lane: Seq<int>|
            if lane[dim] < lhs.dims[dim] {
                lhs.at(lane)
            } else {
                rhs.at(second_lane(lhs.dims, dim, lane))
            },
    )
}

proof fn lane_is_in_one(a: Seq<i32>, b: Seq<i32>, dim: int, lane: Seq<int>)
    requires
        joins(a, b, dim),
        lanes::are_dims(a),
        lanes::are_dims(b),
        lanes::inside(joined_dims(a, b, dim), lane),
    ensures
        lane[dim] < a[dim] ==> lanes::inside(a, lane),
        lane[dim] >= a[dim] ==> lanes::inside(b, second_lane(a, dim, lane)),
{
    let to = joined_dims(a, b, dim);
    assert(a[dim] >= 0 && b[dim] >= 0);
    assert(0 <= lane[dim] < to[dim]);
    if lane[dim] < a[dim] {
        assert forall|k: int| 0 <= k < a.len() implies 0 <= #[trigger] lane[k] < a[k] by {
            assert(0 <= lane[k] < to[k]);
        }
    } else {
        let at = second_lane(a, dim, lane);
        assert forall|k: int| 0 <= k < b.len() implies 0 <= #[trigger] at[k] < b[k] by {
            assert(0 <= lane[k] < to[k]);
            if k != dim {
                assert(a[k] == b[k]);
            }
        }
    }
}

fn check_joined(a: &Vec<i32>, b: &Vec<i32>, dim: i32) -> (r: Option<Vec<i32>>)
    requires
        lanes::are_dims(a@),
        lanes::are_dims(b@),
    ensures
        r is Some <==> joins(a@, b@, dim as int),
        r matches Some(to) ==> to@ == joined_dims(a@, b@, dim as int),
{
    if a.len() != b.len() || dim < 0 || dim as u64 >= a.len() as u64 {
        return None;
    }
    let along: usize = dim as usize;
    assert(a@[dim as int] >= 0 && b@[dim as int] >= 0);
    let sum: i64 = a[along] as i64 + b[along] as i64;
    if sum > i32::MAX as i64 {
        return None;
    }
    let mut to: Vec<i32> = Vec::new();
    while to.len() < a.len()
        invariant
            to@.len() <= a@.len(),
            a@.len() == b@.len(),
            along == dim,
            along < a@.len(),
            sum == a@[dim as int] + b@[dim as int],
            0 <= sum <= i32::MAX,
            forall|k: int| 0 <= k < to@.len() && k != dim ==> #[trigger] a@[k] == b@[k],
            forall|k: int|
                0 <= k < to@.len() ==> #[trigger] to@[k] == joined_dims(a@, b@, dim as int)[k],
        decreases a@.len() - to@.len(),
    {
        let k: usize = to.len();
        if k == along {
            to.push(sum as i32);
        } else {
            if a[k] != b[k] {
                assert(a@[k as int] != b@[k as int]);
                return None;
            }
            to.push(a[k]);
        }
    }
    assert(to@ =~= joined_dims(a@, b@, dim as int));
    Some(to)
}

/// Puts two tiles together along a dimension, where the others are the same.
pub fn cat<E: ElementType>(lhs: &Tile<E>, rhs: &Tile<E>, dim: i32) -> (r: Option<Tile<E>>)
    requires
        lhs@.wf(),
        rhs@.wf(),
    ensures
        r is Some <==> joins(lhs@.dims, rhs@.dims, dim as int) && tile::fits(
            joined_dims(lhs@.dims, rhs@.dims, dim as int),
        ),
        r matches Some(t) ==> t@.wf() && t@ == concatenated(lhs@, rhs@, dim as int),
{
    let a = lhs.shape();
    let b = rhs.shape();
    let to = match check_joined(&a.dims, &b.dims, dim) {
        Some(to) => to,
        None => return None,
    };
    let size: usize = match dims_fit(&to) {
        Some(size) => size,
        None => return None,
    };
    let along: usize = dim as usize;
    let mut data: Vec<E> = Vec::new();
    let ghost whole = concatenated(lhs@, rhs@, dim as int);
    while data.len() < size
        invariant
            lhs@.wf(),
            rhs@.wf(),
            a@ == lhs@.dims,
            b@ == rhs@.dims,
            joins(a@, b@, dim as int),
            along == dim,
            to@ == joined_dims(a@, b@, dim as int),
            tile::fits(to@),
            size == lanes::size_of(to@),
            whole == concatenated(lhs@, rhs@, dim as int),
            data@.len() <= size,
            forall|i: int| 0 <= i < data@.len() ==> #[trigger] data@[i] == whole.data[i],
        decreases size - data@.len(),
    {
        let mut lane = find_lane(&to, data.len());
        let ghost at = lanes::ints(lane@);
        proof {
            lane_is_in_one(a@, b@, dim as int, at);
            assert(0 <= at[dim as int] < to@[dim as int]);
            assert(a@[dim as int] >= 0);
        }
        let first: i64 = a.dims[along] as i64;
        let found = if lane[along] < first {
            lhs.get(&lane)
        } else {
            let inner: i64 = lane[along] - first;
            lane.set(along, inner);
            assert(lanes::ints(lane@) =~= second_lane(a@, dim as int, at));
            rhs.get(&lane)
        };
        match found {
            Some(element) => data.push(element),
            None => {
                assert(false);
            },
        }
    }
    let t = Tile::build(Shape { dims: to }, data);
    assert(t@.data =~= whole.data);
    Some(t)
}

/// The index of a part that is the first or the second along one dimension, and the first along
/// the others.
pub open spec fn half_index(rank: nat, dim: int, half: i32) -> Seq<i32> {
    Seq::new(
        rank,
        |k: int|
            if k == dim {
                half
            } else {
                0
            },
    )
}

/// The halves of two tiles that were put together are the two tiles.
pub proof fn halves_are_taken_back<E>(lhs: TileView<E>, rhs: TileView<E>, dim: int)
    requires
        lhs.wf(),
        rhs.wf(),
        lhs.dims == rhs.dims,
        0 <= dim < lhs.dims.len(),
        lhs.dims[dim] * 2 <= i32::MAX,
        forall|k: int| 0 <= k < lhs.dims.len() ==> #[trigger] lhs.dims[k] >= 1,
    ensures
        extracted(
            concatenated(lhs, rhs, dim),
            lhs.dims,
            half_index(lhs.dims.len(), dim, 0),
        ) == lhs,
        extracted(
            concatenated(lhs, rhs, dim),
            lhs.dims,
            half_index(lhs.dims.len(), dim, 1),
        ) == rhs,
{
    let dims = lhs.dims;
    let whole = concatenated(lhs, rhs, dim);
    let to = joined_dims(dims, dims, dim);
    lanes::size_is_a_count(dims);
    assert(dims[dim] >= 1);
    let element = |lane: Seq<int>|
        if lane[dim] < lhs.dims[dim] {
            lhs.at(lane)
        } else {
            rhs.at(second_lane(lhs.dims, dim, lane))
        };
    assert forall|half: i32| half == 0 || half == 1 implies extracted(
        whole,
        dims,
        #[trigger] half_index(dims.len(), dim, half),
    ) == (if half == 0 {
        lhs
    } else {
        rhs
    }) by {
        let index = half_index(dims.len(), dim, half);
        let part = extracted(whole, dims, index);
        let wanted = if half == 0 {
            lhs
        } else {
            rhs
        };
        assert forall|lane: Seq<int>| lanes::inside(dims, lane) implies #[trigger] part.at(lane)
            == wanted.at(lane) by {
            let at = part_place(dims, index, lane);
            tile::filled_at(dims, |l: Seq<int>| whole.at(part_place(dims, index, l)), lane);
            assert forall|k: int| 0 <= k < to.len() implies 0 <= #[trigger] at[k] < to[k] by {
                assert(0 <= lane[k] < dims[k]);
                assert(0 * dims[k] == 0 && 1 * dims[k] == dims[k]);
            }
            assert(lanes::are_dims(to));
            tile::filled_at(to, element, at);
            assert(0 <= lane[dim] < dims[dim]);
            assert(0 * dims[dim] == 0 && 1 * dims[dim] == dims[dim]);
            if half == 0 {
                assert(at =~= lane) by {
                    assert forall|k: int| 0 <= k < dims.len() implies at[k] == lane[k] by {
                        assert(0 * dims[k] == 0);
                    }
                }
            } else {
                assert(second_lane(dims, dim, at) =~= lane) by {
                    assert forall|k: int| 0 <= k < dims.len() implies second_lane(dims, dim, at)[k]
                        == lane[k] by {
                        assert(0 * dims[k] == 0);
                    }
                }
            }
        }
        tile::tiles_are_their_elements(part, wanted);
    }
    assert(extracted(whole, dims, half_index(dims.len(), dim, 0)) == lhs);
    assert(extracted(whole, dims, half_index(dims.len(), dim, 1)) == rhs);
}

} // verus!

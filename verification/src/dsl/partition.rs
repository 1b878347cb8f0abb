//! Tensors, and the tiles that they are loaded and stored by.
use crate::dsl::element::{ElementType, Token};
use crate::dsl::lanes::{self, find_flat, find_lane};
use crate::dsl::tile::{self, dims_fit, Array, Shape, Tile, TileView};
use vstd::prelude::*;

verus! {

/// Why a tile is not loaded or stored.
#[derive(Clone, Copy, Debug, PartialEq, Eq, Structural)]
pub enum AccessError {
    /// The index names no tile of the partition.
    OutOfBounds,
    /// The number of dimensions is not one that the operation is for.
    Rank,
    /// The dimensions of the tile are not those that are stored.
    Shape,
}

/// Memory that tiles are loaded from and stored to.
pub struct Tensor<E> {
    /// The dimensions of the memory.
    extents: Shape,
    data: Vec<E>,
    /// The dimensions that a kernel sees: for what it writes, those of one block.
    shape: Shape,
}

/// A tensor's memory, and the dimensions that a kernel sees.
pub struct TensorView<E> {
    pub memory: TileView<E>,
    pub shape: Seq<i32>,
}

impl<E> View for Tensor<E> {
    type V = TensorView<E>;

    closed spec fn view(&self) -> TensorView<E> {
        TensorView {
            memory: TileView { dims: self.extents@, data: self.data@ },
            shape: self.shape@,
        }
    }
}

impl<E> TensorView<E> {
    pub open spec fn wf(self) -> bool {
        self.memory.wf() && self.shape.len() == self.memory.dims.len()
    }
}

/// Whether numbers are an order of so many dimensions.
pub open spec fn is_order(order: Seq<i32>, rank: nat) -> bool {
    &&& order.len() == rank
    &&& forall|k: int| 0 <= k < rank ==> 0 <= #[trigger] order[k] < rank
    &&& forall|j: int, k: int| 0 <= j < k < rank ==> #[trigger] order[j] != #[trigger] order[k]
}

/// The order in which every dimension stays where it is.
pub open spec fn same_order(rank: nat) -> Seq<i32> {
    Seq::new(rank, |k: int| k as i32)
}

/// How a tensor is divided into tiles: the dimensions of a tile, and along which dimension of the
/// tensor each of them runs.
pub struct Tiling {
    pub tile: Seq<i32>,
    pub order: Seq<i32>,
}

/// Whether tiles divide an array: their dimensions are not empty, and there is one along each
/// dimension of the array.
pub open spec fn divides(t: Tiling, extents: Seq<i32>) -> bool {
    &&& t.tile.len() == extents.len()
    &&& is_order(t.order, extents.len())
    &&& forall|k: int| 0 <= k < t.tile.len() ==> #[trigger] t.tile[k] >= 1
    &&& tile::fits(t.tile)
}

/// The number of parts of a size that a number has, the last of which may be smaller.
pub open spec fn parts(whole: int, part: int) -> int {
    (whole + part - 1) / part
}

/// A whole has no more parts than elements.
pub proof fn parts_are_no_more(whole: int, part: int)
    requires
        0 <= whole,
        1 <= part,
    ensures
        0 <= parts(whole, part) <= whole,
{
    let q = parts(whole, part);
    vstd::arithmetic::div_mod::lemma_fundamental_div_mod(whole + part - 1, part);
    vstd::arithmetic::div_mod::lemma_mod_bound(whole + part - 1, part);
    assert(0 <= q) by (nonlinear_arith)
        requires
            whole + part - 1 == part * q + (whole + part - 1) % part,
            (whole + part - 1) % part < part,
            0 <= whole,
            1 <= part,
    ;
    assert(q <= whole) by (nonlinear_arith)
        requires
            whole + part - 1 == part * q + (whole + part - 1) % part,
            0 <= (whole + part - 1) % part,
            0 <= whole,
            1 <= part,
    ;
}

/// The number of tiles along a dimension of the partition.
pub open spec fn tiles_along(t: Tiling, extents: Seq<i32>, k: int) -> int {
    parts(extents[t.order[k] as int] as int, t.tile[k] as int)
}

/// Whether an index names a tile of the partition.
pub open spec fn names_tile(t: Tiling, extents: Seq<i32>, index: Seq<int>) -> bool {
    index.len() == t.tile.len() && forall|k: int|
        0 <= k < index.len() ==> 0 <= #[trigger] index[k] < tiles_along(t, extents, k)
}

/// Where along its dimension of the tensor a lane of a tile is.
pub open spec fn place_along(t: Tiling, index: Seq<int>, lane: Seq<int>, k: int) -> int {
    index[k] * t.tile[k] + lane[k]
}

/// The dimension of a tile that runs along a dimension of the tensor.
pub open spec fn runs_along(order: Seq<i32>, d: int) -> int {
    choose|k: int| 0 <= k < order.len() && #[trigger] order[k] == d
}

/// The position in the tensor of a lane of a tile.
pub open spec fn place(t: Tiling, index: Seq<int>, lane: Seq<int>) -> Seq<int> {
    Seq::new(t.order.len(), |d: int| place_along(t, index, lane, runs_along(t.order, d)))
}

/// The element at a position of the tensor; a position outside of it reads as zero.
pub open spec fn padded<E: ElementType>(memory: TileView<E>, at: Seq<int>) -> E {
    if lanes::inside(memory.dims, at) {
        memory.at(at)
    } else {
        E::zero_spec()
    }
}

/// A tile of a tensor, with zeros where it sticks out.
pub open spec fn loaded<E: ElementType>(
    memory: TileView<E>,
    t: Tiling,
    index: Seq<int>,
) -> TileView<E> {
    tile::filled(t.tile, |lane: Seq<int>| padded(memory, place(t, index, lane)))
}

/// Whether a tile is one of a tensor: it has what the tensor has at every lane that lies in it. What
/// it has at lanes that stick out is open.
pub open spec fn is_tile_of<E>(
    tile: TileView<E>,
    memory: TileView<E>,
    t: Tiling,
    index: Seq<int>,
) -> bool {
    &&& tile.wf()
    &&& tile.dims == t.tile
    &&& forall|lane: Seq<int>|
        lanes::inside(t.tile, lane) && lanes::inside(memory.dims, place(t, index, lane))
            ==> #[trigger] tile.at(lane) == memory.at(place(t, index, lane))
}

/// A tile that is loaded with zeros is one of the tensor.
pub proof fn padded_tile_is_of_the_tensor<E: ElementType>(
    memory: TileView<E>,
    t: Tiling,
    index: Seq<int>,
)
    requires
        divides(t, memory.dims),
        loaded(memory, t, index).wf(),
    ensures
        is_tile_of(loaded(memory, t, index), memory, t, index),
{
    let tile = loaded(memory, t, index);
    assert forall|lane: Seq<int>|
        lanes::inside(t.tile, lane) && lanes::inside(
            memory.dims,
            place(t, index, lane),
        ) implies #[trigger] tile.at(lane) == memory.at(place(t, index, lane)) by {
        tile::filled_at(t.tile, |l: Seq<int>| padded(memory, place(t, index, l)), lane);
    }
}

/// An index as whole numbers.
pub open spec fn index_of(index: Seq<i32>) -> Seq<int> {
    index.map_values(|x: i32| x as int)
}

/// Whether a tile lies in the tensor as a whole.
pub open spec fn lies_inside(t: Tiling, extents: Seq<i32>, index: Seq<int>) -> bool {
    index.len() == t.tile.len() && forall|k: int|
        0 <= k < index.len() ==> 0 <= #[trigger] index[k] && index[k] * t.tile[k] + t.tile[k]
            <= extents[t.order[k] as int]
}

/// A tensor's memory with a tile stored in it.
pub open spec fn stored<E>(
    memory: TileView<E>,
    t: Tiling,
    index: Seq<int>,
    tile: TileView<E>,
) -> TileView<E> {
    tile::filled(
        memory.dims,
        |at: Seq<int>|
            {
                let lane = lane_at(t, index, at);
                if lanes::inside(t.tile, lane) {
                    tile.at(lane)
                } else {
                    memory.at(at)
                }
            },
    )
}

/// The lane of a tile that is at a position of the tensor.
pub open spec fn lane_at(t: Tiling, index: Seq<int>, at: Seq<int>) -> Seq<int> {
    Seq::new(t.tile.len(), |k: int| at[t.order[k] as int] - index[k] * t.tile[k])
}

proof fn order_is_a_choice(order: Seq<i32>, k: int)
    requires
        is_order(order, order.len()),
        0 <= k < order.len(),
    ensures
        runs_along(order, order[k] as int) == k,
{
    let j = runs_along(order, order[k] as int);
    assert(order[k] == order[k] as int);
    assert(0 <= j < order.len() && order[j] == order[k] as int);
    if j < k {
        assert(order[j] != order[k]);
    } else if k < j {
        assert(order[k] != order[j]);
    }
}

/// All lanes of a tile that lies in the tensor as a whole lie in it.
pub proof fn place_lies_inside(t: Tiling, extents: Seq<i32>, index: Seq<int>, lane: Seq<int>)
    requires
        divides(t, extents),
        lies_inside(t, extents, index),
        lanes::inside(t.tile, lane),
    ensures
        lanes::inside(extents, place(t, index, lane)),
{
    let at = place(t, index, lane);
    assert forall|d: int| 0 <= d < extents.len() implies 0 <= #[trigger] at[d] < extents[d] by {
        every_dimension_is_run_along(t.order, d);
        let k = runs_along(t.order, d);
        assert(0 <= lane[k] < t.tile[k]);
        assert(0 <= index[k]);
        assert(at[d] == index[k] * t.tile[k] + lane[k]);
        assert(0 <= index[k] * t.tile[k]) by (nonlinear_arith)
            requires
                0 <= index[k],
                0 <= t.tile[k],
        ;
    }
}

/// What is stored in a tile is loaded from it.
pub proof fn stored_tile_is_loaded<E: ElementType>(
    memory: TileView<E>,
    t: Tiling,
    index: Seq<int>,
    tile: TileView<E>,
)
    requires
        memory.wf(),
        tile.wf(),
        tile.dims == t.tile,
        divides(t, memory.dims),
        lies_inside(t, memory.dims, index),
    ensures
        stored(memory, t, index, tile).wf(),
        loaded(stored(memory, t, index, tile), t, index) == tile,
{
    let after = stored(memory, t, index, tile);
    let back = loaded(after, t, index);
    lanes::size_is_a_count(memory.dims);
    lanes::size_is_a_count(t.tile);
    assert forall|lane: Seq<int>| lanes::inside(t.tile, lane) implies #[trigger] back.at(lane)
        == tile.at(lane) by {
        tile::filled_at(
            t.tile,
            |l: Seq<int>| padded(after, place(t, index, l)),
            lane,
        );
        let at = place(t, index, lane);
        place_lies_inside(t, memory.dims, index, lane);
        tile::filled_at(
            memory.dims,
            |p: Seq<int>|
                {
                    let l = lane_at(t, index, p);
                    if lanes::inside(t.tile, l) {
                        tile.at(l)
                    } else {
                        memory.at(p)
                    }
                },
            at,
        );
        assert(lane_at(t, index, at) =~= lane) by {
            assert forall|k: int| 0 <= k < lane.len() implies lane_at(t, index, at)[k] == lane[k] by {
                order_is_a_choice(t.order, k);
                let d = t.order[k] as int;
                assert(at[d] == place_along(t, index, lane, k));
            }
        }
    }
    tile::tiles_are_their_elements(back, tile);
}

/// A lane of a tile that lies in the tensor is stored, whether the rest of the tile does or not.
pub proof fn lane_inside_is_stored<E>(
    memory: TileView<E>,
    t: Tiling,
    index: Seq<int>,
    tile: TileView<E>,
    lane: Seq<int>,
)
    requires
        memory.wf(),
        divides(t, memory.dims),
        index.len() == t.tile.len(),
        lanes::inside(t.tile, lane),
        lanes::inside(memory.dims, place(t, index, lane)),
    ensures
        stored(memory, t, index, tile).at(place(t, index, lane)) == tile.at(lane),
{
    let at = place(t, index, lane);
    tile::filled_at(
        memory.dims,
        |p: Seq<int>|
            {
                let l = lane_at(t, index, p);
                if lanes::inside(t.tile, l) {
                    tile.at(l)
                } else {
                    memory.at(p)
                }
            },
        at,
    );
    assert(lane_at(t, index, at) =~= lane) by {
        assert forall|k: int| 0 <= k < lane.len() implies lane_at(t, index, at)[k] == lane[k] by {
            order_is_a_choice(t.order, k);
            let d = t.order[k] as int;
            assert(at[d] == place_along(t, index, lane, k));
        }
    }
}

/// Every dimension of the tensor has a dimension of the tile that runs along it.
pub proof fn every_dimension_is_run_along(order: Seq<i32>, d: int)
    requires
        is_order(order, order.len()),
        0 <= d < order.len(),
    ensures
        0 <= runs_along(order, d) < order.len(),
        order[runs_along(order, d)] == d,
{
    let indices = Seq::new(order.len(), |k: int| order[k] as int);
    assert(indices.no_duplicates()) by {
        assert forall|i: int, j: int|
            0 <= i < indices.len() && 0 <= j < indices.len() && i != j implies indices[i]
            != indices[j] by {
            if i < j {
                assert(order[i] != order[j]);
            } else {
                assert(order[j] != order[i]);
            }
        }
    }
    let hit = indices.to_set();
    indices.unique_seq_to_set();
    vstd::set_lib::lemma_int_range(0, order.len() as int);
    let range = vstd::set_lib::set_int_range(0, order.len() as int);
    assert(hit.subset_of(range)) by {
        assert forall|x: int| hit.contains(x) implies range.contains(x) by {
            let k = indices.index_of(x);
            assert(indices[k] == x);
            assert(0 <= order[k] < order.len());
        }
    }
    vstd::set_lib::lemma_subset_equality(hit, range);
    assert(hit.contains(d));
    let k = indices.index_of(d);
    assert(order[k] == d);
}

/// A store changes nothing outside of its tile.
pub proof fn store_leaves_the_rest<E>(
    memory: TileView<E>,
    t: Tiling,
    index: Seq<int>,
    tile: TileView<E>,
    at: Seq<int>,
)
    requires
        memory.wf(),
        lanes::inside(memory.dims, at),
        !lanes::inside(t.tile, lane_at(t, index, at)),
    ensures
        stored(memory, t, index, tile).at(at) == memory.at(at),
{
    tile::filled_at(
        memory.dims,
        |p: Seq<int>|
            {
                let l = lane_at(t, index, p);
                if lanes::inside(t.tile, l) {
                    tile.at(l)
                } else {
                    memory.at(p)
                }
            },
        at,
    );
}

/// What is stored in a tile does not reach into another tile.
pub proof fn other_tiles_stay<E: ElementType>(
    memory: TileView<E>,
    t: Tiling,
    index: Seq<int>,
    other: Seq<int>,
    tile: TileView<E>,
)
    requires
        memory.wf(),
        divides(t, memory.dims),
        index.len() == t.tile.len(),
        other.len() == t.tile.len(),
        index != other,
    ensures
        loaded(stored(memory, t, other, tile), t, index) == loaded(memory, t, index),
{
    let after = stored(memory, t, other, tile);
    let k = choose|k: int| 0 <= k < index.len() && index[k] != other[k];
    assert(0 <= k < index.len() && index[k] != other[k]) by {
        if forall|k: int| 0 <= k < index.len() ==> index[k] == other[k] {
            assert(index =~= other);
        }
    }
    lanes::size_is_a_count(t.tile);
    let now = loaded(after, t, index);
    let before = loaded(memory, t, index);
    assert forall|lane: Seq<int>| lanes::inside(t.tile, lane) implies #[trigger] now.at(lane)
        == before.at(lane) by {
        tile::filled_at(t.tile, |l: Seq<int>| padded(after, place(t, index, l)), lane);
        tile::filled_at(t.tile, |l: Seq<int>| padded(memory, place(t, index, l)), lane);
        let at = place(t, index, lane);
        if lanes::inside(memory.dims, at) {
            order_is_a_choice(t.order, k);
            let d = t.order[k] as int;
            assert(at[d] == place_along(t, index, lane, k));
            let moved = lane_at(t, other, at)[k];
            assert(moved == index[k] * t.tile[k] + lane[k] - other[k] * t.tile[k]);
            assert(0 <= lane[k] < t.tile[k]);
            assert(!(0 <= moved < t.tile[k])) by (nonlinear_arith)
                requires
                    moved == index[k] * t.tile[k] + lane[k] - other[k] * t.tile[k],
                    0 <= lane[k] < t.tile[k],
                    index[k] != other[k],
            ;
            assert(!lanes::inside(t.tile, lane_at(t, other, at)));
            store_leaves_the_rest(memory, t, other, tile, at);
        }
    }
    tile::tiles_are_their_elements(now, before);
}

// Loading and storing.

/// The position in the tensor of a lane of a tile.
fn find_place(tile: &Vec<i32>, order: &Vec<i32>, index: &Vec<i32>, lane: &Vec<i64>) -> (r: Vec<i64>)
    requires
        is_order(order@, order@.len()),
        tile@.len() == order@.len(),
        index@.len() == order@.len(),
        lanes::inside(tile@, lanes::ints(lane@)),
    ensures
        lanes::ints(r@) == place(
            Tiling { tile: tile@, order: order@ },
            index_of(index@),
            lanes::ints(lane@),
        ),
{
    let ghost t = Tiling { tile: tile@, order: order@ };
    let ghost wanted = index_of(index@);
    let ghost at = lanes::ints(lane@);
    let rank: usize = order.len();
    let mut place: Vec<i64> = Vec::new();
    while place.len() < rank
        invariant
            place@.len() <= rank,
        decreases rank - place@.len(),
    {
        place.push(0);
    }
    let mut k: usize = 0;
    while k < rank
        invariant
            k <= rank,
            rank == order@.len(),
            tile@.len() == rank,
            index@.len() == rank,
            place@.len() == rank,
            is_order(order@, rank as nat),
            t == (Tiling { tile: tile@, order: order@ }),
            wanted == index_of(index@),
            at == lanes::ints(lane@),
            lanes::inside(tile@, at),
            forall|j: int|
                0 <= j < k ==> place@[#[trigger] order@[j] as int] == place_along(t, wanted, at, j),
        decreases rank - k,
    {
        assert(0 <= at[k as int] < tile@[k as int]);
        assert(0 <= order@[k as int] < rank);
        assert(at[k as int] == lane@[k as int]);
        assert(wanted[k as int] == index@[k as int]);
        let i: i64 = index[k] as i64;
        let w: i64 = tile[k] as i64;
        assert(-0x4000_0000_0000_0000 <= i * w <= 0x4000_0000_0000_0000) by (nonlinear_arith)
            requires
                -0x8000_0000 <= i < 0x8000_0000,
                0 <= w < 0x8000_0000,
        ;
        let ghost before = place@;
        place.set(order[k] as usize, i * w + lane[k]);
        assert forall|j: int| 0 <= j < k + 1 implies place@[#[trigger] order@[j] as int] == place_along(
            t,
            wanted,
            at,
            j,
        ) by {
            if j < k {
                assert(order@[j] != order@[k as int]);
                assert(place@[order@[j] as int] == before[order@[j] as int]);
            }
        }
        k += 1;
    }
    proof {
        let expected = crate::dsl::partition::place(t, wanted, at);
        assert forall|d: int| 0 <= d < rank implies lanes::ints(place@)[d] == expected[d] by {
            every_dimension_is_run_along(order@, d);
            let j = runs_along(order@, d);
            assert(place@[order@[j] as int] == place_along(t, wanted, at, j));
        }
        assert(lanes::ints(place@) =~= expected);
    }
    place
}

/// The lane of a tile that is at a position of the tensor.
fn find_lane_at(
    tile: &Vec<i32>,
    order: &Vec<i32>,
    index: &Vec<i32>,
    at: &Vec<i64>,
    extents: &Vec<i32>,
) -> (r: Vec<i64>)
    requires
        is_order(order@, order@.len()),
        tile@.len() == order@.len(),
        index@.len() == order@.len(),
        lanes::inside(extents@, lanes::ints(at@)),
        extents@.len() == order@.len(),
        forall|k: int| 0 <= k < tile@.len() ==> #[trigger] tile@[k] >= 1,
    ensures
        lanes::ints(r@) == lane_at(
            Tiling { tile: tile@, order: order@ },
            index_of(index@),
            lanes::ints(at@),
        ),
{
    let ghost t = Tiling { tile: tile@, order: order@ };
    let ghost wanted = index_of(index@);
    let ghost position = lanes::ints(at@);
    let rank: usize = order.len();
    let mut lane: Vec<i64> = Vec::new();
    while lane.len() < rank
        invariant
            lane@.len() <= rank,
            rank == order@.len(),
            tile@.len() == rank,
            index@.len() == rank,
            extents@.len() == rank,
            is_order(order@, rank as nat),
            t == (Tiling { tile: tile@, order: order@ }),
            wanted == index_of(index@),
            position == lanes::ints(at@),
            lanes::inside(extents@, position),
            forall|k: int| 0 <= k < tile@.len() ==> #[trigger] tile@[k] >= 1,
            forall|k: int|
                0 <= k < lane@.len() ==> #[trigger] lane@[k] == lane_at(t, wanted, position)[k],
        decreases rank - lane@.len(),
    {
        let k: usize = lane.len();
        assert(0 <= order@[k as int] < rank);
        assert(tile@[k as int] >= 1);
        assert(wanted[k as int] == index@[k as int]);
        let d: usize = order[k] as usize;
        assert(0 <= position[d as int] < extents@[d as int]);
        assert(position[d as int] == at@[d as int]);
        let i: i64 = index[k] as i64;
        let w: i64 = tile[k] as i64;
        assert(-0x4000_0000_0000_0000 <= i * w <= 0x4000_0000_0000_0000) by (nonlinear_arith)
            requires
                -0x8000_0000 <= i < 0x8000_0000,
                0 <= w < 0x8000_0000,
        ;
        lane.push(at[d] - i * w);
    }
    assert(lanes::ints(lane@) =~= lane_at(t, wanted, position));
    lane
}

fn dup_numbers(numbers: &Vec<i32>) -> (r: Vec<i32>)
    ensures
        r@ == numbers@,
{
    let copy = numbers.clone();
    assert(copy@ =~= numbers@);
    copy
}

/// The order in which every dimension stays where it is.
fn keep_order(rank: usize) -> (r: Vec<i32>)
    requires
        rank <= i32::MAX,
    ensures
        r@ == same_order(rank as nat),
{
    let mut order: Vec<i32> = Vec::new();
    while order.len() < rank
        invariant
            order@.len() <= rank <= i32::MAX,
            forall|k: int| 0 <= k < order@.len() ==> #[trigger] order@[k] == k,
        decreases rank - order@.len(),
    {
        order.push(order.len() as i32);
    }
    assert(order@ =~= same_order(rank as nat));
    order
}

/// Whether numbers are an order of so many dimensions.
pub(crate) fn check_order(order: &Vec<i32>, rank: usize) -> (r: bool)
    ensures
        r == is_order(order@, rank as nat),
{
    if order.len() != rank {
        return false;
    }
    let mut k: usize = 0;
    while k < rank
        invariant
            k <= rank,
            rank == order@.len(),
            forall|j: int| 0 <= j < k ==> 0 <= #[trigger] order@[j] < rank,
            forall|i: int, j: int| 0 <= i < j < k ==> #[trigger] order@[i] != #[trigger] order@[j],
        decreases rank - k,
    {
        if order[k] < 0 || order[k] as u64 >= rank as u64 {
            assert(!(0 <= order@[k as int] < rank));
            return false;
        }
        let mut j: usize = 0;
        while j < k
            invariant
                j <= k < rank,
                rank == order@.len(),
                forall|i: int| 0 <= i < j ==> #[trigger] order@[i] != order@[k as int],
            decreases k - j,
        {
            if order[j] == order[k] {
                return false;
            }
            j += 1;
        }
        k += 1;
    }
    true
}

/// Whether tiles divide an array.
fn check_tiling(tile: &Vec<i32>, order: &Vec<i32>, extents: &Vec<i32>) -> (r: bool)
    ensures
        r == divides(Tiling { tile: tile@, order: order@ }, extents@),
{
    if tile.len() != extents.len() || !check_order(order, extents.len()) {
        return false;
    }
    let mut k: usize = 0;
    while k < tile.len()
        invariant
            k <= tile@.len(),
            forall|j: int| 0 <= j < k ==> #[trigger] tile@[j] >= 1,
        decreases tile@.len() - k,
    {
        if tile[k] < 1 {
            return false;
        }
        k += 1;
    }
    dims_fit(tile).is_some()
}

/// Whether an index names a tile of the partition.
fn check_index(tile: &Vec<i32>, order: &Vec<i32>, extents: &Vec<i32>, index: &Vec<i32>) -> (r: bool)
    requires
        divides(Tiling { tile: tile@, order: order@ }, extents@),
        lanes::are_dims(extents@),
    ensures
        r == names_tile(Tiling { tile: tile@, order: order@ }, extents@, index_of(index@)),
{
    let ghost t = Tiling { tile: tile@, order: order@ };
    let ghost wanted = index_of(index@);
    if index.len() != tile.len() {
        return false;
    }
    let mut k: usize = 0;
    while k < index.len()
        invariant
            k <= index@.len(),
            index@.len() == tile@.len(),
            t == (Tiling { tile: tile@, order: order@ }),
            wanted == index_of(index@),
            divides(t, extents@),
            lanes::are_dims(extents@),
            forall|j: int| 0 <= j < k ==> 0 <= #[trigger] wanted[j] < tiles_along(t, extents@, j),
        decreases index@.len() - k,
    {
        assert(0 <= order@[k as int] < extents@.len());
        assert(tile@[k as int] >= 1);
        assert(extents@[order@[k as int] as int] >= 0);
        assert(wanted[k as int] == index@[k as int]);
        let whole: i64 = extents[order[k] as usize] as i64;
        let part: i64 = tile[k] as i64;
        let count: i64 = (whole + part - 1) / part;
        assert(count == tiles_along(t, extents@, k as int));
        if index[k] < 0 || index[k] as i64 >= count {
            return false;
        }
        k += 1;
    }
    true
}

impl<E: ElementType> Tensor<E> {
    /// A tensor over these elements, of which a kernel sees some dimensions.
    pub fn from_elements(extents: Shape, data: Vec<E>, shape: Shape) -> (r: Option<Tensor<E>>)
        ensures
            r is Some <==> tile::fits(extents@) && data@.len() == lanes::size_of(extents@)
                && shape@.len() == extents@.len(),
            r matches Some(tensor) ==> tensor@.wf() && tensor@ == (TensorView {
                memory: TileView { dims: extents@, data: data@ },
                shape: shape@,
            }),
    {
        if shape.dims.len() != extents.dims.len() {
            return None;
        }
        match dims_fit(&extents.dims) {
            Some(size) => {
                if size == data.len() {
                    Some(Tensor { extents, data, shape })
                } else {
                    None
                }
            },
            None => None,
        }
    }

    /// The elements, the last dimension running fastest.
    pub fn elements(&self) -> (r: &Vec<E>)
        ensures
            r@ == self@.memory.data,
    {
        &self.data
    }

    /// The dimensions that a kernel sees.
    pub fn shape(&self) -> (r: Shape)
        ensures
            r@ == self@.shape,
    {
        self.shape.dup()
    }

    fn read_tile(&self, tile: &Shape, order: &Vec<i32>, index: &Vec<i32>) -> (r: Tile<E>)
        requires
            self@.wf(),
            divides(Tiling { tile: tile@, order: order@ }, self@.memory.dims),
            index@.len() == tile@.len(),
        ensures
            r@.wf(),
            r@ == loaded(
                self@.memory,
                Tiling { tile: tile@, order: order@ },
                index_of(index@),
            ),
    {
        let ghost t = Tiling { tile: tile@, order: order@ };
        let ghost wanted = index_of(index@);
        proof {
            lanes::size_is_a_count(tile@);
        }
        let size: usize = match dims_fit(&tile.dims) {
            Some(size) => size,
            None => {
                assert(false);
                0
            },
        };
        let mut data: Vec<E> = Vec::new();
        while data.len() < size
            invariant
                self@.wf(),
                self@.memory == (TileView { dims: self.extents.dims@, data: self.data@ }),
                t == (Tiling { tile: tile@, order: order@ }),
                wanted == index_of(index@),
                divides(t, self@.memory.dims),
                index@.len() == tile@.len(),
                size == lanes::size_of(tile@),
                data@.len() <= size,
                forall|i: int|
                    0 <= i < data@.len() ==> #[trigger] data@[i] == padded(
                        self@.memory,
                        place(t, wanted, lanes::lane_of(tile@, i)),
                    ),
            decreases size - data@.len(),
        {
            let lane = find_lane(&tile.dims, data.len());
            let at = find_place(&tile.dims, order, index, &lane);
            match find_flat(&self.extents.dims, &at) {
                Some(flat) => {
                    proof {
                        lanes::position_is_an_element(self@.memory.dims, lanes::ints(at@));
                    }
                    data.push(self.data[flat]);
                },
                None => data.push(E::zero()),
            }
        }
        assert(data@ =~= loaded(self@.memory, t, wanted).data);
        Tile::build(tile.dup(), data)
    }

    fn write_tile(&mut self, tile: &Tile<E>, order: &Vec<i32>, index: &Vec<i32>)
        requires
            old(self)@.wf(),
            tile@.wf(),
            divides(Tiling { tile: tile@.dims, order: order@ }, old(self)@.memory.dims),
            index@.len() == tile@.dims.len(),
        ensures
            final(self)@.wf(),
            final(self)@ == (TensorView {
                memory: stored(
                    old(self)@.memory,
                    Tiling { tile: tile@.dims, order: order@ },
                    index_of(index@),
                    tile@,
                ),
                ..old(self)@
            }),
    {
        let shape = tile.shape();
        let ghost t = Tiling { tile: tile@.dims, order: order@ };
        let ghost wanted = index_of(index@);
        let ghost memory = self@.memory;
        proof {
            lanes::size_is_a_count(memory.dims);
        }
        let size: usize = self.data.len();
        let mut data: Vec<E> = Vec::new();
        while data.len() < size
            invariant
                self@ == old(self)@,
                self@.wf(),
                self@.memory == (TileView { dims: self.extents.dims@, data: self.data@ }),
                memory == self@.memory,
                tile@.wf(),
                shape@ == tile@.dims,
                t == (Tiling { tile: tile@.dims, order: order@ }),
                wanted == index_of(index@),
                divides(t, memory.dims),
                index@.len() == tile@.dims.len(),
                size == memory.data.len(),
                data@.len() <= size,
                forall|i: int|
                    0 <= i < data@.len() ==> #[trigger] data@[i] == ({
                        let at = lanes::lane_of(memory.dims, i);
                        let lane = lane_at(t, wanted, at);
                        if lanes::inside(t.tile, lane) {
                            tile@.at(lane)
                        } else {
                            memory.at(at)
                        }
                    }),
            decreases size - data@.len(),
        {
            let flat: usize = data.len();
            let at = find_lane(&self.extents.dims, flat);
            proof {
                lanes::element_has_a_position(memory.dims, flat as int);
            }
            let lane = find_lane_at(&shape.dims, order, index, &at, &self.extents.dims);
            match tile.get(&lane) {
                Some(element) => data.push(element),
                None => data.push(self.data[flat]),
            }
        }
        self.data = data;
        assert(self@.memory.data =~= stored(memory, t, wanted, tile@).data);
    }

    /// Divides the tensor into tiles for loading, where it can be divided so.
    pub fn partition(&self, tile: &Shape) -> (r: Option<Partition<'_, E>>)
        requires
            self@.wf(),
        ensures
            r is Some <==> self@.memory.dims.len() <= i32::MAX && divides(
                Tiling { tile: tile@, order: same_order(self@.memory.dims.len()) },
                self@.memory.dims,
            ),
            r matches Some(p) ==> p.wf() && p.memory() == self@.memory && p.tiling() == (Tiling {
                tile: tile@,
                order: same_order(self@.memory.dims.len()),
            }),
    {
        let rank: usize = self.extents.dims.len();
        if rank as u64 > i32::MAX as u64 {
            return None;
        }
        let order = keep_order(rank);
        self.partition_permuted(tile, &Array { dims: order })
    }

    /// Divides the tensor into tiles whose dimensions run along others of the tensor.
    pub fn partition_permuted(&self, tile: &Shape, dim_map: &Array) -> (r: Option<Partition<'_, E>>)
        requires
            self@.wf(),
        ensures
            r is Some <==> divides(Tiling { tile: tile@, order: dim_map@ }, self@.memory.dims),
            r matches Some(p) ==> p.wf() && p.memory() == self@.memory && p.tiling() == (Tiling {
                tile: tile@,
                order: dim_map@,
            }),
    {
        if !check_tiling(&tile.dims, &dim_map.dims, &self.extents.dims) {
            return None;
        }
        Some(Partition { tensor: self, tile: tile.dup(), order: dup_numbers(&dim_map.dims) })
    }

    /// Loads the tile at an index, with zeros where it sticks out.
    pub fn load_tile(&self, shape: &Shape, idx: &Vec<i32>) -> (r: Option<Tile<E>>)
        requires
            self@.wf(),
        ensures
            r is Some <==> self@.memory.dims.len() <= i32::MAX && divides(
                Tiling { tile: shape@, order: same_order(self@.memory.dims.len()) },
                self@.memory.dims,
            ) && idx@.len() == shape@.len(),
            r matches Some(tile) ==> tile@.wf() && tile@ == loaded(
                self@.memory,
                Tiling { tile: shape@, order: same_order(self@.memory.dims.len()) },
                index_of(idx@),
            ),
    {
        let rank: usize = self.extents.dims.len();
        if rank as u64 > i32::MAX as u64 || idx.len() != shape.dims.len() {
            return None;
        }
        let order = keep_order(rank);
        if !check_tiling(&shape.dims, &order, &self.extents.dims) {
            return None;
        }
        Some(self.read_tile(shape, &order, idx))
    }
}

// Partitions.

/// A tensor divided into tiles for loading.
pub struct Partition<'a, E> {
    tensor: &'a Tensor<E>,
    tile: Shape,
    order: Vec<i32>,
}

impl<'a, E> Partition<'a, E> {
    pub closed spec fn memory(&self) -> TileView<E> {
        self.tensor@.memory
    }

    pub closed spec fn tiling(&self) -> Tiling {
        Tiling { tile: self.tile@, order: self.order@ }
    }

    pub closed spec fn wf(&self) -> bool {
        self.tensor@.wf() && divides(self.tiling(), self.memory().dims)
    }

    /// The tiles of a partition divide its tensor.
    pub proof fn partition_divides(&self)
        requires
            self.wf(),
        ensures
            self.memory().wf(),
            divides(self.tiling(), self.memory().dims),
    {
    }
}

impl<'a, E: ElementType> Partition<'a, E> {
    /// Loads the tile of an index, where the partition has it; lanes outside of the tensor are zero.
    pub fn load(&self, index: &Vec<i32>) -> (r: Result<Tile<E>, AccessError>)
        requires
            self.wf(),
        ensures
            match r {
                Ok(tile) => {
                    &&& names_tile(self.tiling(), self.memory().dims, index_of(index@))
                    &&& tile@.wf()
                    &&& tile@ == loaded(self.memory(), self.tiling(), index_of(index@))
                },
                Err(error) => {
                    &&& error == AccessError::OutOfBounds
                    &&& !names_tile(self.tiling(), self.memory().dims, index_of(index@))
                },
            },
    {
        if !check_index(&self.tile.dims, &self.order, &self.tensor.extents.dims, index) {
            return Err(AccessError::OutOfBounds);
        }
        Ok(self.tensor.read_tile(&self.tile, &self.order, index))
    }

    /// The number of tiles along a dimension of the partition.
    fn count_along(&self, axis: usize) -> (r: i32)
        requires
            self.wf(),
            axis < self.tiling().tile.len(),
        ensures
            r == tiles_along(self.tiling(), self.memory().dims, axis as int),
            r >= 0,
    {
        let ghost t = self.tiling();
        let ghost dims = self.memory().dims;
        assert(0 <= t.order[axis as int] < dims.len());
        assert(t.tile[axis as int] >= 1);
        assert(dims[t.order[axis as int] as int] >= 0);
        let along: usize = self.order[axis] as usize;
        let whole: i64 = self.tensor.extents.dims[along] as i64;
        let part: i64 = self.tile.dims[axis] as i64;
        proof {
            parts_are_no_more(whole as int, part as int);
        }
        ((whole + part - 1) / part) as i32
    }

    /// Loads the tile of an index that a schedule made.
    pub fn load_index(&self, index: &PartitionIndex) -> (r: Result<Tile<E>, AccessError>)
        requires
            self.wf(),
        ensures
            match r {
                Ok(tile) => {
                    &&& names_tile(self.tiling(), self.memory().dims, index_of(index@))
                    &&& tile@.wf()
                    &&& tile@ == loaded(self.memory(), self.tiling(), index_of(index@))
                },
                Err(error) => {
                    &&& error == AccessError::OutOfBounds
                    &&& !names_tile(self.tiling(), self.memory().dims, index_of(index@))
                },
            },
    {
        self.load(&index.coords())
    }

    /// Ties the two axes of a partition to dimensions.
    pub fn with_bounds<A: IntoDim, B: IntoDim>(self, bounds: (A, B)) -> (r: BoundedPartition<'a, E>)
        requires
            self.wf(),
            self.tiling().tile.len() == 2,
        ensures
            r.wf(),
            r.partition() == self,
            r.bounds() == (bounds.0.dim_spec(), bounds.1.dim_spec()),
    {
        let first = bounds.0.into_dim();
        let second = bounds.1.into_dim();
        BoundedPartition { part: self, first, second }
    }
}

// Indices.

/// An index that a schedule made.
#[derive(Debug)]
pub struct PartitionIndex {
    coords: Vec<i32>,
}

impl View for PartitionIndex {
    type V = Seq<i32>;

    closed spec fn view(&self) -> Seq<i32> {
        self.coords@
    }
}

impl PartitionIndex {
    /// The index as numbers.
    pub fn coords(&self) -> (r: Vec<i32>)
        ensures
            r@ == self@,
    {
        dup_numbers(&self.coords)
    }

    /// The two numbers of an index of a partition of two dimensions.
    pub fn components(&self) -> (r: (i32, i32))
        requires
            self@.len() == 2,
        ensures
            r == (self@[0], self@[1]),
    {
        (self.coords[0], self.coords[1])
    }
}

/// A dimension of a partition, whose indices are those below its size.
#[derive(Clone, Copy, Debug)]
pub struct Dim {
    size: i32,
}

impl Dim {
    /// The size.
    pub closed spec fn size_spec(self) -> i32 {
        self.size
    }

    pub fn new(size: i32) -> (r: Dim)
        ensures
            r.size_spec() == size,
    {
        Dim { size }
    }

    pub fn value(self) -> (r: i32)
        ensures
            r == self.size_spec(),
    {
        self.size
    }

    /// The indices of the dimension, in order.
    pub fn indices(self) -> (r: DimIter)
        ensures
            r@ == indices_below(self.size_spec()),
    {
        let mut indices: Vec<i32> = Vec::new();
        let mut i: i32 = 0;
        while i < self.size
            invariant
                0 <= i,
                i <= self.size || self.size < 0,
                self.size < 0 ==> i == 0,
                indices@.len() == i,
                forall|k: int| 0 <= k < i ==> #[trigger] indices@[k] == k,
            decreases self.size - i,
        {
            indices.push(i);
            i += 1;
        }
        assert(indices@ =~= indices_below(self.size));
        DimIter { indices }
    }
}

/// The numbers from zero up to a size.
pub open spec fn indices_below(size: i32) -> Seq<i32> {
    Seq::new(
        if size < 0 {
            0
        } else {
            size as nat
        },
        |k: int| k as i32,
    )
}

/// The indices of a dimension.
#[derive(Debug)]
pub struct DimIter {
    pub indices: Vec<i32>,
}

impl View for DimIter {
    type V = Seq<i32>;

    open spec fn view(&self) -> Seq<i32> {
        self.indices@
    }
}

/// What can be read as a dimension.
pub trait IntoDim: Sized {
    spec fn dim_spec(self) -> i32;

    fn into_dim(self) -> (r: Dim)
        ensures
            r.size_spec() == self.dim_spec(),
    ;
}

impl IntoDim for Dim {
    open spec fn dim_spec(self) -> i32 {
        self.size_spec()
    }

    fn into_dim(self) -> Dim {
        self
    }
}

impl IntoDim for i32 {
    open spec fn dim_spec(self) -> i32 {
        self
    }

    fn into_dim(self) -> Dim {
        Dim::new(self)
    }
}

impl From<i32> for Dim {
    fn from(value: i32) -> (r: Dim) {
        Dim::new(value)
    }
}

impl vstd::std_specs::convert::FromSpecImpl<i32> for Dim {
    open spec fn obeys_from_spec() -> bool {
        true
    }

    closed spec fn from_spec(value: i32) -> Dim {
        Dim { size: value }
    }
}

/// A dimension made of a number has it as its size.
pub proof fn number_is_the_size(value: i32)
    ensures
        <Dim as vstd::std_specs::convert::FromSpec<i32>>::from_spec(value).size_spec() == value,
{
}

/// A position in a partition of two dimensions.
#[derive(Clone, Copy, Debug)]
pub struct Coord2 {
    row: i32,
    column: i32,
}

impl Coord2 {
    /// The position as numbers.
    pub closed spec fn pair(self) -> (i32, i32) {
        (self.row, self.column)
    }
}

pub fn coord(index: (i32, i32)) -> (r: Coord2)
    ensures
        r.pair() == index,
{
    Coord2 { row: index.0, column: index.1 }
}

/// A partition of two dimensions whose axes are tied to dimensions.
pub struct BoundedPartition<'a, E> {
    part: Partition<'a, E>,
    first: Dim,
    second: Dim,
}

impl<'a, E> BoundedPartition<'a, E> {
    pub closed spec fn partition(&self) -> Partition<'a, E> {
        self.part
    }

    pub closed spec fn bounds(&self) -> (i32, i32) {
        (self.first.size_spec(), self.second.size_spec())
    }

    pub open spec fn wf(&self) -> bool {
        self.partition().wf() && self.partition().tiling().tile.len() == 2
    }

    /// Whether a position is below both dimensions and names a tile.
    pub open spec fn allows(&self, at: (i32, i32)) -> bool {
        &&& 0 <= at.0 < self.bounds().0
        &&& 0 <= at.1 < self.bounds().1
        &&& names_tile(
            self.partition().tiling(),
            self.partition().memory().dims,
            seq![at.0 as int, at.1 as int],
        )
    }
}

impl<'a, E: ElementType> BoundedPartition<'a, E> {
    /// Loads the tile at a position, where it lies below both dimensions.
    pub fn load(&self, index: Coord2) -> (r: Result<Tile<E>, AccessError>)
        requires
            self.wf(),
        ensures
            match r {
                Ok(tile) => {
                    &&& self.allows(index.pair())
                    &&& tile@.wf()
                    &&& tile@ == loaded(
                        self.partition().memory(),
                        self.partition().tiling(),
                        seq![index.pair().0 as int, index.pair().1 as int],
                    )
                },
                Err(error) => error == AccessError::OutOfBounds && !self.allows(index.pair()),
            },
    {
        let below = 0 <= index.row && index.row < self.first.value() && 0 <= index.column
            && index.column < self.second.value();
        if !below {
            return Err(AccessError::OutOfBounds);
        }
        let mut at: Vec<i32> = Vec::new();
        at.push(index.row);
        at.push(index.column);
        assert(index_of(at@) =~= seq![index.pair().0 as int, index.pair().1 as int]);
        self.part.load(&at)
    }
}

// Schedules.

/// The indices that a block handles.
pub struct PartitionIndices {
    pub indices: Vec<PartitionIndex>,
}

impl View for PartitionIndices {
    type V = Seq<Seq<i32>>;

    open spec fn view(&self) -> Seq<Seq<i32>> {
        self.indices@.map_values(|index: PartitionIndex| index@)
    }
}

/// The index of a tile that is counted from the first, in a grid of so many columns.
spec fn grid_index(id: int, columns: int) -> Seq<i32> {
    seq![(id / columns) as i32, (id % columns) as i32]
}

/// A tensor whose tiles are stored by the indices of a schedule.
pub struct MappedPartitionMut<E> {
    tensor: Tensor<E>,
    tile: Shape,
}

impl<E> MappedPartitionMut<E> {
    pub closed spec fn memory(&self) -> TileView<E> {
        self.tensor@.memory
    }

    pub closed spec fn tile_dims(&self) -> Seq<i32> {
        self.tile@
    }

    pub open spec fn tiling(&self) -> Tiling {
        Tiling { tile: self.tile_dims(), order: same_order(2) }
    }

    pub closed spec fn whole(&self) -> TensorView<E> {
        self.tensor@
    }

    pub closed spec fn wf(&self) -> bool {
        self.tensor@.wf() && self.tensor@.memory.dims.len() == 2 && divides(
            self.tiling(),
            self.memory().dims,
        )
    }

    /// The indices that a block handles of all that so many blocks share, in an order that is the
    /// partition's own.
    pub closed spec fn schedule(&self, block: int, blocks: int) -> Seq<Seq<i32>> {
        handled_from(block, blocks, self.rows() * self.columns()).map_values(
            |id: int| grid_index(id, self.columns()),
        )
    }

    /// The number of rows of the grid of tiles.
    pub open spec fn rows(&self) -> int {
        tiles_along(self.tiling(), self.memory().dims, 0)
    }

    /// The number of columns of the grid of tiles.
    pub open spec fn columns(&self) -> int {
        tiles_along(self.tiling(), self.memory().dims, 1)
    }
}

/// The numbers of the tiles that a block handles, from one of its own on.
spec fn handled_from(id: int, blocks: int, total: int) -> Seq<int>
    decreases total + blocks - id,
{
    if blocks <= 0 || id >= total {
        Seq::empty()
    } else {
        seq![id] + handled_from(id + blocks, blocks, total)
    }
}

proof fn number_is_handled_once(id: int, block: int, blocks: int, total: int)
    requires
        0 <= id < total,
        0 <= block < blocks,
    ensures
        handled_from(block, blocks, total).contains(id) <==> block == id % blocks,
        handled_from(block, blocks, total).no_duplicates(),
{
    handled_are_multiples(block, blocks, total);
    vstd::arithmetic::div_mod::lemma_small_mod(block as nat, blocks as nat);
    if id < block {
        vstd::arithmetic::div_mod::lemma_small_mod(id as nat, blocks as nat);
    } else if id % blocks == block {
        handled_are_all(id, block, blocks, total);
    }
}

proof fn handled_are_multiples(start: int, blocks: int, total: int)
    requires
        0 <= start,
        0 < blocks,
    ensures
        handled_from(start, blocks, total).no_duplicates(),
        forall|x: int| #[trigger]
            handled_from(start, blocks, total).contains(x) ==> start <= x < total && x % blocks
                == start % blocks,
    decreases total + blocks - start,
{
    if start < total {
        handled_are_multiples(start + blocks, blocks, total);
        let rest = handled_from(start + blocks, blocks, total);
        let all = handled_from(start, blocks, total);
        assert(all == seq![start] + rest);
        vstd::arithmetic::div_mod::lemma_mod_add_multiples_vanish(start, blocks);
        assert((start + blocks) % blocks == start % blocks);
        assert forall|x: int| #[trigger] all.contains(x) implies start <= x < total && x % blocks
            == start % blocks by {
            let k = all.index_of(x);
            assert(all[k] == x);
            if k > 0 {
                assert(rest[k - 1] == x);
                assert(rest.contains(x));
            }
        }
        assert forall|i: int, j: int|
            0 <= i < all.len() && 0 <= j < all.len() && i != j implies all[i] != all[j] by {
            if i > 0 {
                assert(rest[i - 1] == all[i]);
                assert(rest.contains(all[i]));
            }
            if j > 0 {
                assert(rest[j - 1] == all[j]);
                assert(rest.contains(all[j]));
            }
        }
    }
}

proof fn handled_are_all(id: int, start: int, blocks: int, total: int)
    requires
        0 <= start,
        start <= id < total,
        0 < blocks,
        id % blocks == start % blocks,
    ensures
        handled_from(start, blocks, total).contains(id),
    decreases total + blocks - start,
{
    let rest = handled_from(start + blocks, blocks, total);
    let all = handled_from(start, blocks, total);
    assert(all == seq![start] + rest);
    if id == start {
        assert(all[0] == id);
    } else {
        vstd::arithmetic::div_mod::lemma_mod_add_multiples_vanish(start, blocks);
        assert((start + blocks) % blocks == start % blocks);
        assert(start + blocks <= id) by (nonlinear_arith)
            requires
                0 <= start < id,
                0 < blocks,
                id % blocks == start % blocks,
        {
            let q = id / blocks;
            let p = start / blocks;
            vstd::arithmetic::div_mod::lemma_fundamental_div_mod(id, blocks);
            vstd::arithmetic::div_mod::lemma_fundamental_div_mod(start, blocks);
            assert(id - start == blocks * (q - p));
            assert(q - p >= 1);
        }
        handled_are_all(id, start + blocks, blocks, total);
        let k = rest.index_of(id);
        assert(all[k + 1] == id);
    }
}

proof fn grid_indices_differ(a: int, b: int, rows: int, columns: int)
    requires
        0 <= a < rows * columns,
        0 <= b < rows * columns,
        a != b,
        1 <= columns <= i32::MAX,
        rows <= i32::MAX,
    ensures
        grid_index(a, columns) != grid_index(b, columns),
{
    row_is_in_range(a, rows, columns);
    row_is_in_range(b, rows, columns);
    assert(grid_index(a, columns)[0] == a / columns && grid_index(a, columns)[1] == a % columns);
    assert(grid_index(b, columns)[0] == b / columns && grid_index(b, columns)[1] == b % columns);
    vstd::arithmetic::div_mod::lemma_fundamental_div_mod(a, columns);
    vstd::arithmetic::div_mod::lemma_fundamental_div_mod(b, columns);
}

proof fn row_is_in_range(id: int, rows: int, columns: int)
    requires
        0 <= id < rows * columns,
        1 <= columns,
    ensures
        0 <= id / columns < rows,
        0 <= id % columns < columns,
{
    vstd::arithmetic::div_mod::lemma_fundamental_div_mod(id, columns);
    vstd::arithmetic::div_mod::lemma_mod_bound(id, columns);
    let q = id / columns;
    let x = id % columns;
    assert(0 <= q < rows) by (nonlinear_arith)
        requires
            id == columns * q + x,
            0 <= x < columns,
            0 <= id < rows * columns,
    ;
}

impl<E> MappedPartitionMut<E> {
    proof fn grid_is_small(&self)
        requires
            self.wf(),
        ensures
            0 <= self.rows() <= i32::MAX,
            0 <= self.columns() <= i32::MAX,
    {
        let t = self.tiling();
        assert(t.order[0] == 0 && t.order[1] == 1);
        assert(t.tile[0] >= 1 && t.tile[1] >= 1);
        assert(self.memory().dims[0] >= 0 && self.memory().dims[1] >= 0);
        parts_are_no_more(self.memory().dims[0] as int, t.tile[0] as int);
        parts_are_no_more(self.memory().dims[1] as int, t.tile[1] as int);
    }

    /// What a block handles are tiles, and none of them twice.
    pub proof fn scheduled_indices_are_tiles(&self, block: int, blocks: int)
        requires
            self.wf(),
            0 <= block < blocks,
        ensures
            self.schedule(block, blocks).no_duplicates(),
            forall|k: int|
                0 <= k < self.schedule(block, blocks).len() ==> names_tile(
                    self.tiling(),
                    self.memory().dims,
                    index_of(#[trigger] self.schedule(block, blocks)[k]),
                ),
    {
        self.grid_is_small();
        let rows = self.rows();
        let columns = self.columns();
        let ids = handled_from(block, blocks, rows * columns);
        let all = self.schedule(block, blocks);
        handled_are_multiples(block, blocks, rows * columns);
        assert forall|k: int| 0 <= k < all.len() implies names_tile(
            self.tiling(),
            self.memory().dims,
            index_of(#[trigger] all[k]),
        ) by {
            assert(ids.contains(ids[k]));
            columns_are_some(ids[k], rows, columns);
            row_is_in_range(ids[k], rows, columns);
            let wanted = index_of(all[k]);
            assert(all[k] == grid_index(ids[k], columns));
            assert(wanted[0] == ids[k] / columns && wanted[1] == ids[k] % columns);
            assert(wanted.len() == self.tiling().tile.len());
            assert forall|j: int| 0 <= j < wanted.len() implies 0 <= #[trigger] wanted[j]
                < tiles_along(self.tiling(), self.memory().dims, j) by {}
        }
        assert forall|i: int, j: int|
            0 <= i < all.len() && 0 <= j < all.len() && i != j implies all[i] != all[j] by {
            assert(ids.contains(ids[i]));
            assert(ids.contains(ids[j]));
            assert(ids[i] != ids[j]);
            columns_are_some(ids[i], rows, columns);
            grid_indices_differ(ids[i], ids[j], rows, columns);
        }
    }

    /// Every tile is handled by exactly one of the blocks, so no two of them store to one tile.
    pub proof fn every_tile_is_handled_once(&self, blocks: int, index: Seq<i32>)
        requires
            self.wf(),
            0 < blocks,
            names_tile(self.tiling(), self.memory().dims, index_of(index)),
        ensures
            exists|block: int|
                0 <= block < blocks && #[trigger] self.schedule(block, blocks).contains(index),
            forall|a: int, b: int|
                0 <= a < blocks && 0 <= b < blocks && #[trigger] self.schedule(a, blocks).contains(
                    index,
                ) && #[trigger] self.schedule(b, blocks).contains(index) ==> a == b,
    {
        self.grid_is_small();
        let rows = self.rows();
        let columns = self.columns();
        let total = rows * columns;
        let wanted = index_of(index);
        assert(wanted.len() == 2);
        assert(wanted[0] == index[0] && wanted[1] == index[1]);
        assert(0 <= wanted[0] < rows);
        assert(0 <= wanted[1] < columns);
        let id = index[0] * columns + index[1];
        let q = index[0] as int;
        let x = index[1] as int;
        assert(0 <= q * columns + x < rows * columns) by (nonlinear_arith)
            requires
                0 <= q < rows,
                0 <= x < columns,
        ;
        vstd::arithmetic::div_mod::lemma_fundamental_div_mod_converse(id, columns, q, x);
        assert(grid_index(id, columns) =~= index);
        let block = id % blocks;
        vstd::arithmetic::div_mod::lemma_mod_bound(id, blocks);
        number_is_handled_once(id, block, blocks, total);
        let ids = handled_from(block, blocks, total);
        let k = ids.index_of(id);
        assert(self.schedule(block, blocks)[k] == index);
        assert(self.schedule(block, blocks).contains(index));
        assert forall|a: int|
            0 <= a < blocks && #[trigger] self.schedule(a, blocks).contains(index) implies a
            == block by {
            let all = self.schedule(a, blocks);
            let j = all.index_of(index);
            let other = handled_from(a, blocks, total)[j];
            assert(all[j] == index && all[j] == grid_index(other, columns));
            handled_are_multiples(a, blocks, total);
            assert(handled_from(a, blocks, total).contains(other));
            if other != id {
                grid_indices_differ(other, id, rows, columns);
            }
            number_is_handled_once(id, a, blocks, total);
        }
    }
}

proof fn columns_are_some(id: int, rows: int, columns: int)
    by (nonlinear_arith)
    requires
        0 <= id < rows * columns,
        0 <= columns,
    ensures
        columns >= 1,
{
}

impl<E: ElementType> MappedPartitionMut<E> {
    /// Divides a tensor of two dimensions into tiles that a schedule stores.
    pub fn new(tensor: Tensor<E>, tile: Shape) -> (r: Option<MappedPartitionMut<E>>)
        requires
            tensor@.wf(),
        ensures
            r is Some <==> tensor@.memory.dims.len() == 2 && divides(
                Tiling { tile: tile@, order: same_order(2) },
                tensor@.memory.dims,
            ),
            r matches Some(p) ==> p.wf() && p.whole() == tensor@ && p.memory() == tensor@.memory
                && p.tile_dims() == tile@,
    {
        if tensor.extents.dims.len() != 2 {
            return None;
        }
        let order = keep_order(2);
        if !check_tiling(&tile.dims, &order, &tensor.extents.dims) {
            return None;
        }
        Some(MappedPartitionMut { tensor, tile })
    }

    /// The tensor with what has been stored in it.
    pub fn into_tensor(self) -> (r: Tensor<E>)
        requires
            self.wf(),
        ensures
            r@.wf(),
            r@ == self.whole(),
            r@.memory == self.memory(),
    {
        self.tensor
    }

    fn count_along(&self, axis: usize) -> (r: i64)
        requires
            self.wf(),
            axis < 2,
        ensures
            r == tiles_along(self.tiling(), self.memory().dims, axis as int),
            0 <= r <= 0x7fff_ffff,
    {
        let ghost t = self.tiling();
        assert(t.order[axis as int] == axis);
        assert(t.tile[axis as int] >= 1);
        assert(self.memory().dims[axis as int] >= 0);
        let whole: i64 = self.tensor.extents.dims[axis] as i64;
        let part: i64 = self.tile.dims[axis] as i64;
        proof {
            parts_are_no_more(whole as int, part as int);
        }
        (whole + part - 1) / part
    }

    /// The indices that a block handles.
    pub fn iter_indices(&self, block: i32, blocks: i32) -> (r: PartitionIndices)
        requires
            self.wf(),
            0 <= block < blocks,
        ensures
            r@ == self.schedule(block as int, blocks as int),
    {
        let rows: i64 = self.count_along(0);
        let columns: i64 = self.count_along(1);
        assert(0 <= rows * columns <= 0x3fff_ffff_ffff_ffff) by (nonlinear_arith)
            requires
                0 <= rows <= 0x7fff_ffff,
                0 <= columns <= 0x7fff_ffff,
        ;
        let total: i64 = rows * columns;
        let mut id: i64 = block as i64;
        let mut indices: Vec<PartitionIndex> = Vec::new();
        let ghost all = handled_from(block as int, blocks as int, total as int);
        let ghost mut done: Seq<int> = Seq::empty();
        assert(done + all =~= all);
        assert(indices@.map_values(|index: PartitionIndex| index@) =~= done.map_values(
            |id: int| grid_index(id, columns as int),
        ));
        while id < total
            invariant
                self.wf(),
                rows == self.rows(),
                columns == self.columns(),
                total == rows * columns,
                0 <= columns <= 0x7fff_ffff,
                0 <= rows <= 0x7fff_ffff,
                total <= 0x3fff_ffff_ffff_ffff,
                0 <= block < blocks,
                0 <= id,
                id < total + blocks || id == block,
                all == done + handled_from(id as int, blocks as int, total as int),
                indices@.map_values(|index: PartitionIndex| index@) == done.map_values(
                    |id: int| grid_index(id, columns as int),
                ),
            decreases total + blocks - id,
        {
            assert(columns >= 1) by (nonlinear_arith)
                requires
                    0 <= id < rows * columns,
                    0 <= columns,
            ;
            proof {
                row_is_in_range(id as int, rows as int, columns as int);
            }
            let row: i64 = id / columns;
            let column: i64 = id % columns;
            let mut coords: Vec<i32> = Vec::new();
            coords.push(row as i32);
            coords.push(column as i32);
            let index = PartitionIndex { coords };
            assert(index@ =~= grid_index(id as int, columns as int));
            let ghost before = indices@;
            indices.push(index);
            proof {
                let now = done.push(id as int);
                assert(indices@.map_values(|index: PartitionIndex| index@) =~= before.map_values(
                    |index: PartitionIndex| index@,
                ).push(index@));
                assert(now.map_values(|id: int| grid_index(id, columns as int)) =~= done.map_values(
                    |id: int| grid_index(id, columns as int),
                ).push(grid_index(id as int, columns as int)));
                let rest = handled_from(id + blocks, blocks as int, total as int);
                assert(handled_from(id as int, blocks as int, total as int) == seq![id as int] + rest);
                assert(done + (seq![id as int] + rest) =~= now + rest);
                done = now;
            }
            id = id + blocks as i64;
        }
        proof {
            assert(handled_from(id as int, blocks as int, total as int) == Seq::<int>::empty());
            assert(done + Seq::<int>::empty() =~= done);
        }
        PartitionIndices { indices }
    }

    /// Stores a tile at an index that a schedule made; what of it sticks out of the tensor is not
    /// stored.
    pub fn store(
        &mut self,
        tile: &Tile<E>,
        index: &PartitionIndex,
    ) -> (r: Result<Token, AccessError>)
        requires
            old(self).wf(),
            tile@.wf(),
        ensures
            final(self).wf(),
            final(self).tile_dims() == old(self).tile_dims(),
            final(self).whole().shape == old(self).whole().shape,
            final(self).memory().dims == old(self).memory().dims,
            forall|block: int, blocks: int| #[trigger]
                final(self).schedule(block, blocks) == old(self).schedule(block, blocks),
            match r {
                Ok(_) => {
                    &&& tile@.dims == old(self).tile_dims()
                    &&& names_tile(old(self).tiling(), old(self).memory().dims, index_of(index@))
                    &&& final(self).memory() == stored(
                        old(self).memory(),
                        old(self).tiling(),
                        index_of(index@),
                        tile@,
                    )
                },
                Err(AccessError::Shape) => tile@.dims != old(self).tile_dims()
                    && final(self).memory() == old(self).memory(),
                Err(AccessError::OutOfBounds) => tile@.dims == old(self).tile_dims() && !names_tile(
                    old(self).tiling(),
                    old(self).memory().dims,
                    index_of(index@),
                ) && final(self).memory() == old(self).memory(),
                Err(_) => false,
            },
    {
        let shape = tile.shape();
        if !same_numbers(&shape.dims, &self.tile.dims) {
            return Err(AccessError::Shape);
        }
        let order = keep_order(2);
        if !check_index(&self.tile.dims, &order, &self.tensor.extents.dims, &index.coords) {
            return Err(AccessError::OutOfBounds);
        }
        self.tensor.write_tile(tile, &order, &index.coords);
        Ok(Token {  })
    }
}

fn same_numbers(a: &Vec<i32>, b: &Vec<i32>) -> (r: bool)
    ensures
        r == (a@ == b@),
{
    if a.len() != b.len() {
        return false;
    }
    let mut i: usize = 0;
    while i < a.len()
        invariant
            i <= a@.len(),
            a@.len() == b@.len(),
            forall|k: int| 0 <= k < i ==> a@[k] == b@[k],
        decreases a@.len() - i,
    {
        if a[i] != b[i] {
            return false;
        }
        i += 1;
    }
    assert(a@ =~= b@);
    true
}

// The current block.

/// The number of a block in each of three dimensions.
#[derive(Clone, Copy, Debug)]
pub struct BlockId {
    pub x: i32,
    pub y: i32,
    pub z: i32,
}

/// The index of the tile of a block, in so many dimensions.
pub open spec fn block_index(block: BlockId, rank: nat) -> Seq<int> {
    if rank == 1 {
        seq![block.x as int]
    } else if rank == 2 {
        seq![block.x as int, block.y as int]
    } else {
        seq![block.x as int, block.y as int, block.z as int]
    }
}

fn find_block_index(block: BlockId, rank: usize) -> (r: Vec<i32>)
    requires
        1 <= rank <= 3,
    ensures
        index_of(r@) == block_index(block, rank as nat),
        r@.len() == rank,
{
    let mut index: Vec<i32> = Vec::new();
    index.push(block.x);
    if rank >= 2 {
        index.push(block.y);
    }
    if rank >= 3 {
        index.push(block.z);
    }
    assert(index_of(index@) =~= block_index(block, rank as nat));
    index
}

/// How a tensor that a kernel writes is divided among its blocks.
pub open spec fn block_tiling<E>(tensor: TensorView<E>) -> Tiling {
    Tiling { tile: tensor.shape, order: same_order(tensor.shape.len()) }
}

/// Why a block has no tile, where it has none: a tile that sticks out is one too.
pub open spec fn block_refusal<E>(tensor: TensorView<E>, block: BlockId) -> Option<AccessError> {
    let rank = tensor.shape.len();
    if !(1 <= rank <= 3) {
        Some(AccessError::Rank)
    } else if !divides(block_tiling(tensor), tensor.memory.dims) {
        Some(AccessError::Shape)
    } else if !names_tile(block_tiling(tensor), tensor.memory.dims, block_index(block, rank)) {
        Some(AccessError::OutOfBounds)
    } else {
        None
    }
}

fn check_block<E: ElementType>(
    y: &Tensor<E>,
    block: BlockId,
) -> (r: Result<(Vec<i32>, Vec<i32>), AccessError>)
    requires
        y@.wf(),
    ensures
        match r {
            Ok((order, index)) => {
                &&& block_refusal(y@, block) is None
                &&& order@ == same_order(y@.shape.len())
                &&& index_of(index@) == block_index(block, y@.shape.len())
                &&& index@.len() == y@.shape.len()
            },
            Err(error) => block_refusal(y@, block) == Some(error),
        },
{
    let rank: usize = y.shape.dims.len();
    if rank < 1 || rank > 3 {
        return Err(AccessError::Rank);
    }
    let order = keep_order(rank);
    if !check_tiling(&y.shape.dims, &order, &y.extents.dims) {
        return Err(AccessError::Shape);
    }
    let index = find_block_index(block, rank);
    if !check_index(&y.shape.dims, &order, &y.extents.dims, &index) {
        return Err(AccessError::OutOfBounds);
    }
    Ok((order, index))
}

/// Loads the tile of the current block from what the kernel writes.
pub fn load_tile_mut<Y: LoadTileMutAtCurrentBlock>(
    y: &Y,
    block: BlockId,
) -> (r: Result<Y::Out, AccessError>)
    requires
        y.is_loadable(),
    ensures
        y.loads(block, r),
{
    y.load(block)
}

/// Stores a result where the current block is.
pub fn store_tile<Y: StoreTileAtCurrentBlock<R>, R>(
    y: &mut Y,
    result: &R,
    block: BlockId,
) -> (r: Result<(), AccessError>)
    requires
        old(y).takes(*result),
    ensures
        Y::stores(*old(y), *result, block, r, *final(y)),
{
    y.store(result, block)
}

/// Loads the tile that is where the current block's tile of something else is.
pub fn load_tile_like<X: LoadTileLike<Y>, Y>(
    x: &X,
    y: &Y,
    block: BlockId,
) -> (r: Result<X::Out, AccessError>)
    requires
        x.is_loadable_like(*y),
    ensures
        x.loads_like(*y, block, r),
{
    x.load_tile_like(y, block)
}

/// What a block stores it loads again, at every lane that lies in the tensor; a tile that lies in
/// the tensor as a whole is loaded as it was stored.
pub proof fn block_loads_what_it_stored<E: ElementType>(
    y: TensorView<E>,
    tile: TileView<E>,
    block: BlockId,
    again: TileView<E>,
)
    requires
        y.wf(),
        tile.wf(),
        tile.dims == y.shape,
        block_refusal(y, block) is None,
        is_tile_of(
            again,
            stored(y.memory, block_tiling(y), block_index(block, y.shape.len()), tile),
            block_tiling(y),
            block_index(block, y.shape.len()),
        ),
    ensures
        forall|lane: Seq<int>|
            lanes::inside(y.shape, lane) && lanes::inside(
                y.memory.dims,
                place(block_tiling(y), block_index(block, y.shape.len()), lane),
            ) ==> #[trigger] again.at(lane) == tile.at(lane),
        lies_inside(block_tiling(y), y.memory.dims, block_index(block, y.shape.len())) ==> again
            == tile,
{
    let t = block_tiling(y);
    let index = block_index(block, y.shape.len());
    let after = stored(y.memory, t, index, tile);
    assert forall|lane: Seq<int>|
        lanes::inside(y.shape, lane) && lanes::inside(
            y.memory.dims,
            place(t, index, lane),
        ) implies #[trigger] again.at(lane) == tile.at(lane) by {
        lane_inside_is_stored(y.memory, t, index, tile, lane);
        assert(again.at(lane) == after.at(place(t, index, lane)));
    }
    if lies_inside(t, y.memory.dims, index) {
        assert forall|lane: Seq<int>| lanes::inside(y.shape, lane) implies #[trigger] again.at(lane)
            == tile.at(lane) by {
            place_lies_inside(t, y.memory.dims, index, lane);
        }
        tile::tiles_are_their_elements(again, tile);
    }
}

/// What a tile is loaded from where the current block is.
pub trait LoadTileMutAtCurrentBlock {
    type Out;

    spec fn is_loadable(&self) -> bool;

    /// Whether a block gets this when it loads.
    spec fn loads(&self, block: BlockId, r: Result<Self::Out, AccessError>) -> bool;

    fn load(&self, block: BlockId) -> (r: Result<Self::Out, AccessError>)
        requires
            self.is_loadable(),
        ensures
            self.loads(block, r),
    ;
}

impl<E: ElementType> LoadTileMutAtCurrentBlock for Tensor<E> {
    type Out = Tile<E>;

    open spec fn is_loadable(&self) -> bool {
        self@.wf()
    }

    open spec fn loads(&self, block: BlockId, r: Result<Tile<E>, AccessError>) -> bool {
        match r {
            Ok(tile) => {
                &&& block_refusal(self@, block) is None
                &&& is_tile_of(
                    tile@,
                    self@.memory,
                    block_tiling(self@),
                    block_index(block, self@.shape.len()),
                )
            },
            Err(error) => block_refusal(self@, block) == Some(error),
        }
    }

    fn load(&self, block: BlockId) -> Result<Tile<E>, AccessError> {
        let (order, index) = match check_block(self, block) {
            Ok(found) => found,
            Err(error) => return Err(error),
        };
        let tile = self.read_tile(&self.shape, &order, &index);
        proof {
            padded_tile_is_of_the_tensor(
                self@.memory,
                block_tiling(self@),
                block_index(block, self@.shape.len()),
            );
        }
        Ok(tile)
    }
}

/// What a result is stored to where the current block is.
pub trait StoreTileAtCurrentBlock<R>: Sized {
    spec fn takes(&self, result: R) -> bool;

    /// Whether a block leaves this when it stores a result.
    spec fn stores(
        before: Self,
        result: R,
        block: BlockId,
        r: Result<(), AccessError>,
        after: Self,
    ) -> bool;

    fn store(&mut self, result: &R, block: BlockId) -> (r: Result<(), AccessError>)
        requires
            old(self).takes(*result),
        ensures
            Self::stores(*old(self), *result, block, r, *final(self)),
    ;
}

impl<E: ElementType> StoreTileAtCurrentBlock<Tile<E>> for Tensor<E> {
    open spec fn takes(&self, result: Tile<E>) -> bool {
        self@.wf() && result@.wf() && result@.dims == self@.shape
    }

    open spec fn stores(
        before: Tensor<E>,
        result: Tile<E>,
        block: BlockId,
        r: Result<(), AccessError>,
        after: Tensor<E>,
    ) -> bool {
        &&& after@.wf()
        &&& match block_refusal(before@, block) {
            None => r == Ok::<(), AccessError>(()) && after@ == (TensorView {
                memory: stored(
                    before@.memory,
                    block_tiling(before@),
                    block_index(block, before@.shape.len()),
                    result@,
                ),
                ..before@
            }),
            Some(error) => r == Err::<(), AccessError>(error) && after@ == before@,
        }
    }

    /// What of the tile sticks out of the tensor is not stored.
    fn store(&mut self, result: &Tile<E>, block: BlockId) -> Result<(), AccessError> {
        let (order, index) = match check_block(self, block) {
            Ok(found) => found,
            Err(error) => return Err(error),
        };
        self.write_tile(result, &order, &index);
        Ok(())
    }
}

/// What a tile is loaded from where the current block's tile of something else is.
pub trait LoadTileLike<Y> {
    type Out;

    spec fn is_loadable_like(&self, y: Y) -> bool;

    /// Whether a block gets this when it loads.
    spec fn loads_like(&self, y: Y, block: BlockId, r: Result<Self::Out, AccessError>) -> bool;

    fn load_tile_like(&self, y: &Y, block: BlockId) -> (r: Result<Self::Out, AccessError>)
        requires
            self.is_loadable_like(*y),
        ensures
            self.loads_like(*y, block, r),
    ;
}

impl<E: ElementType, F: ElementType> LoadTileLike<Tensor<F>> for Tensor<E> {
    type Out = Tile<E>;

    open spec fn is_loadable_like(&self, y: Tensor<F>) -> bool {
        self@.wf()
    }

    open spec fn loads_like(
        &self,
        y: Tensor<F>,
        block: BlockId,
        r: Result<Tile<E>, AccessError>,
    ) -> bool {
        let fits_rank = 1 <= y@.shape.len() <= 3;
        let fits_shape = divides(block_tiling(y@), self@.memory.dims);
        match r {
            Ok(tile) => {
                &&& fits_rank && fits_shape
                &&& tile@.wf()
                &&& tile@ == loaded(
                    self@.memory,
                    block_tiling(y@),
                    block_index(block, y@.shape.len()),
                )
            },
            Err(AccessError::Rank) => !fits_rank,
            Err(AccessError::Shape) => fits_rank && !fits_shape,
            Err(_) => false,
        }
    }

    /// The tile has zeros where it sticks out.
    fn load_tile_like(&self, y: &Tensor<F>, block: BlockId) -> Result<Tile<E>, AccessError> {
        let shape = y.shape();
        let rank: usize = shape.dims.len();
        if rank < 1 || rank > 3 {
            return Err(AccessError::Rank);
        }
        let order = keep_order(rank);
        if !check_tiling(&shape.dims, &order, &self.extents.dims) {
            return Err(AccessError::Shape);
        }
        let index = find_block_index(block, rank);
        Ok(self.read_tile(&shape, &order, &index))
    }
}

// Partitions for storing.

/// A tensor divided into tiles for loading and storing, and how far indices are moved.
pub struct PartitionMut<E> {
    tensor: Tensor<E>,
    tile: Shape,
    offset: Vec<i64>,
}

/// An index that is moved along every dimension.
pub open spec fn moved(offset: Seq<int>, index: Seq<int>) -> Seq<int> {
    Seq::new(index.len(), |k: int| offset[k] + index[k])
}

/// How far indices are moved that stay where they are.
pub open spec fn no_offset(rank: nat) -> Seq<int> {
    Seq::new(rank, |k: int| 0int)
}

/// Whether the tile of a block is divided into tiles without a rest.
pub open spec fn nests(outer: Seq<i32>, tile: Seq<i32>) -> bool {
    outer.len() == tile.len() && forall|k: int|
        0 <= k < tile.len() ==> 1 <= #[trigger] tile[k] && 1 <= outer[k] && outer[k] % tile[k] == 0
}

/// The number of tiles along a dimension of the tile of a block.
pub open spec fn nested_along(outer: Seq<i32>, tile: Seq<i32>, k: int) -> int {
    outer[k] as int / tile[k] as int
}

/// The index of the first tile in the tile of a block.
pub open spec fn block_offset(block: BlockId, outer: Seq<i32>, tile: Seq<i32>) -> Seq<int> {
    Seq::new(
        tile.len(),
        |k: int| block_index(block, tile.len())[k] * nested_along(outer, tile, k),
    )
}

impl<E> PartitionMut<E> {
    pub closed spec fn memory(&self) -> TileView<E> {
        self.tensor@.memory
    }

    pub closed spec fn tile_dims(&self) -> Seq<i32> {
        self.tile@
    }

    pub open spec fn tiling(&self) -> Tiling {
        Tiling { tile: self.tile_dims(), order: same_order(self.memory().dims.len()) }
    }

    pub closed spec fn whole(&self) -> TensorView<E> {
        self.tensor@
    }

    pub closed spec fn offset(&self) -> Seq<int> {
        offset_of(self.offset@)
    }

    /// The tile of the tensor that an index is that of.
    pub open spec fn tile_index(&self, index: Seq<i32>) -> Seq<int> {
        moved(self.offset(), index_of(index))
    }

    pub closed spec fn wf(&self) -> bool {
        &&& self.tensor@.wf()
        &&& self.tensor@.memory.dims.len() <= i32::MAX
        &&& divides(self.tiling(), self.memory().dims)
        &&& self.offset@.len() == self.tile@.len()
        &&& are_small(self.offset@)
    }
}

spec fn offset_of(offset: Seq<i64>) -> Seq<int> {
    offset.map_values(|x: i64| x as int)
}

spec fn are_small(offset: Seq<i64>) -> bool {
    forall|k: int|
        0 <= k < offset.len() ==> -0x4000_0000_0000_0000 <= #[trigger] offset[k]
            <= 0x4000_0000_0000_0000
}

/// The index that an index is moved to, where it is small enough for there to be a tile.
fn move_index(offset: &Vec<i64>, index: &Vec<i32>) -> (r: Option<Vec<i32>>)
    requires
        are_small(offset@),
    ensures
        match r {
            Some(at) => index@.len() == offset@.len() && index_of(at@) == moved(
                offset_of(offset@),
                index_of(index@),
            ),
            None => index@.len() != offset@.len() || exists|k: int|
                0 <= k < index@.len() && !(i32::MIN <= #[trigger] moved(
                    offset_of(offset@),
                    index_of(index@),
                )[k] <= i32::MAX),
        },
{
    if index.len() != offset.len() {
        return None;
    }
    let ghost wanted = moved(offset_of(offset@), index_of(index@));
    let mut at: Vec<i32> = Vec::new();
    while at.len() < index.len()
        invariant
            index@.len() == offset@.len(),
            at@.len() <= index@.len(),
            are_small(offset@),
            wanted == moved(offset_of(offset@), index_of(index@)),
            forall|k: int| 0 <= k < at@.len() ==> #[trigger] at@[k] == wanted[k],
        decreases index@.len() - at@.len(),
    {
        let k: usize = at.len();
        let sum: i64 = offset[k] + index[k] as i64;
        assert(wanted[k as int] == sum);
        if sum < i32::MIN as i64 || sum > i32::MAX as i64 {
            return None;
        }
        at.push(sum as i32);
    }
    assert(index_of(at@) =~= wanted);
    Some(at)
}

/// The number of a tile is never too large for a 32-bit integer.
proof fn tiles_have_small_numbers(t: Tiling, extents: Seq<i32>, index: Seq<int>)
    requires
        divides(t, extents),
        lanes::are_dims(extents),
        names_tile(t, extents, index),
    ensures
        forall|k: int| 0 <= k < index.len() ==> 0 <= #[trigger] index[k] <= i32::MAX,
{
    assert forall|k: int| 0 <= k < index.len() implies 0 <= #[trigger] index[k] <= i32::MAX by {
        assert(0 <= index[k] < tiles_along(t, extents, k));
        assert(t.tile[k] >= 1);
        assert(0 <= t.order[k] < extents.len());
        assert(extents[t.order[k] as int] >= 0);
        parts_are_no_more(extents[t.order[k] as int] as int, t.tile[k] as int);
    }
}

impl<E: ElementType> Tensor<E> {
    /// Divides the whole tensor into tiles for loading and storing, where it can be divided so.
    pub fn partition_full_mut(self, tile: Shape) -> (r: Option<PartitionMut<E>>)
        requires
            self@.wf(),
        ensures
            r is Some <==> self@.memory.dims.len() <= i32::MAX && divides(
                Tiling { tile: tile@, order: same_order(self@.memory.dims.len()) },
                self@.memory.dims,
            ),
            r matches Some(p) ==> p.wf() && p.whole() == self@ && p.memory() == self@.memory
                && p.tile_dims() == tile@ && p.offset() == no_offset(tile@.len()),
    {
        let rank: usize = self.extents.dims.len();
        if rank as u64 > i32::MAX as u64 {
            return None;
        }
        let order = keep_order(rank);
        if !check_tiling(&tile.dims, &order, &self.extents.dims) {
            return None;
        }
        let mut offset: Vec<i64> = Vec::new();
        while offset.len() < tile.dims.len()
            invariant
                offset@.len() <= tile.dims@.len(),
                forall|k: int| 0 <= k < offset@.len() ==> #[trigger] offset@[k] == 0,
            decreases tile.dims@.len() - offset@.len(),
        {
            offset.push(0);
        }
        assert(offset_of(offset@) =~= no_offset(tile@.len()));
        Some(PartitionMut { tensor: self, tile, offset })
    }

    /// Divides the tile of a block into smaller tiles for loading and storing, where there is no
    /// rest; an index is that of a tile in the tile of the block.
    pub fn partition_mut(self, tile: Shape, block: BlockId) -> (r: Result<
        PartitionMut<E>,
        AccessError,
    >)
        requires
            self@.wf(),
        ensures
            match r {
                Ok(p) => {
                    &&& nested_refusal(self@, tile@) is None
                    &&& p.wf()
                    &&& p.whole() == self@
                    &&& p.memory() == self@.memory
                    &&& p.tile_dims() == tile@
                    &&& p.offset() == block_offset(block, self@.shape, tile@)
                },
                Err(error) => nested_refusal(self@, tile@) == Some(error),
            },
    {
        let rank: usize = self.extents.dims.len();
        if rank < 1 || rank > 3 {
            return Err(AccessError::Rank);
        }
        let order = keep_order(rank);
        if !check_tiling(&tile.dims, &order, &self.extents.dims) {
            return Err(AccessError::Shape);
        }
        let index = find_block_index(block, rank);
        let outer = &self.shape.dims;
        let ghost wanted = block_offset(block, outer@, tile@);
        let mut offset: Vec<i64> = Vec::new();
        while offset.len() < rank
            invariant
                1 <= rank <= 3,
                rank == self@.memory.dims.len(),
                rank == tile.dims@.len(),
                rank == outer@.len(),
                outer@ == self@.shape,
                rank == index@.len(),
                tile.dims@ == tile@,
                wanted == block_offset(block, outer@, tile@),
                index_of(index@) == block_index(block, rank as nat),
                offset@.len() <= rank,
                are_small(offset@),
                forall|k: int| 0 <= k < rank ==> #[trigger] tile@[k] >= 1,
                forall|k: int|
                    0 <= k < offset@.len() ==> 1 <= #[trigger] tile@[k] && 1 <= outer@[k]
                        && outer@[k] % tile@[k] == 0,
                forall|k: int| 0 <= k < offset@.len() ==> #[trigger] offset@[k] == wanted[k],
            decreases rank - offset@.len(),
        {
            let k: usize = offset.len();
            assert(tile@[k as int] >= 1);
            if outer[k] < 1 || outer[k] % tile.dims[k] != 0 {
                assert(!nests(self@.shape, tile@));
                return Err(AccessError::Shape);
            }
            let count: i64 = (outer[k] / tile.dims[k]) as i64;
            assert(index_of(index@)[k as int] == index@[k as int]);
            proof {
                nested_count_is_small(outer@[k as int] as int, tile@[k as int] as int);
                product_is_small(index@[k as int] as int, count as int);
            }
            let product: i64 = index[k] as i64 * count;
            assert(product == wanted[k as int]);
            offset.push(product);
        }
        assert(offset_of(offset@) =~= wanted);
        Ok(PartitionMut { tensor: self, tile, offset })
    }
}

proof fn nested_count_is_small(outer: int, tile: int)
    requires
        1 <= outer,
        1 <= tile,
    ensures
        0 <= outer / tile <= outer,
{
    vstd::arithmetic::div_mod::lemma_div_pos_is_pos(outer, tile);
    vstd::arithmetic::div_mod::lemma_div_is_ordered_by_denominator(outer, 1, tile);
}

proof fn product_is_small(a: int, b: int)
    by (nonlinear_arith)
    requires
        -0x8000_0000 <= a <= 0x7fff_ffff,
        0 <= b <= 0x7fff_ffff,
    ensures
        -0x4000_0000_0000_0000 <= a * b <= 0x4000_0000_0000_0000,
{
}

/// Why the tile of a block is not divided into smaller tiles, where it is not.
pub open spec fn nested_refusal<E>(tensor: TensorView<E>, tile: Seq<i32>) -> Option<AccessError> {
    let rank = tensor.memory.dims.len();
    if !(1 <= rank <= 3) {
        Some(AccessError::Rank)
    } else if !divides(Tiling { tile, order: same_order(rank) }, tensor.memory.dims) || !nests(
        tensor.shape,
        tile,
    ) {
        Some(AccessError::Shape)
    } else {
        None
    }
}

impl<E: ElementType> PartitionMut<E> {
    /// The tile of the tensor that an index is that of, where there is one.
    fn find_tile(&self, index: &Vec<i32>) -> (r: Option<Vec<i32>>)
        requires
            self.wf(),
        ensures
            r is Some <==> names_tile(
                self.tiling(),
                self.memory().dims,
                self.tile_index(index@),
            ),
            r matches Some(at) ==> index_of(at@) == self.tile_index(index@),
    {
        let at = match move_index(&self.offset, index) {
            Some(at) => at,
            None => {
                proof {
                    if names_tile(self.tiling(), self.memory().dims, self.tile_index(index@)) {
                        tiles_have_small_numbers(
                            self.tiling(),
                            self.memory().dims,
                            self.tile_index(index@),
                        );
                    }
                }
                return None;
            },
        };
        let order = keep_order(self.tensor.extents.dims.len());
        if check_index(&self.tile.dims, &order, &self.tensor.extents.dims, &at) {
            Some(at)
        } else {
            None
        }
    }

    /// Loads the tile of an index, where the partition has it.
    pub fn load(&self, index: &Vec<i32>) -> (r: Result<Tile<E>, AccessError>)
        requires
            self.wf(),
        ensures
            match r {
                Ok(tile) => {
                    &&& names_tile(self.tiling(), self.memory().dims, self.tile_index(index@))
                    &&& is_tile_of(
                        tile@,
                        self.memory(),
                        self.tiling(),
                        self.tile_index(index@),
                    )
                },
                Err(error) => error == AccessError::OutOfBounds && !names_tile(
                    self.tiling(),
                    self.memory().dims,
                    self.tile_index(index@),
                ),
            },
    {
        let order = keep_order(self.tensor.extents.dims.len());
        let at = match self.find_tile(index) {
            Some(at) => at,
            None => return Err(AccessError::OutOfBounds),
        };
        let tile = self.tensor.read_tile(&self.tile, &order, &at);
        proof {
            padded_tile_is_of_the_tensor(
                self.memory(),
                self.tiling(),
                self.tile_index(index@),
            );
        }
        Ok(tile)
    }

    /// Stores a tile at an index, where the partition has it; what of it sticks out of the tensor
    /// is not stored.
    pub fn store(&mut self, tile: &Tile<E>, index: &Vec<i32>) -> (r: Result<Token, AccessError>)
        requires
            old(self).wf(),
            tile@.wf(),
        ensures
            final(self).wf(),
            final(self).tile_dims() == old(self).tile_dims(),
            final(self).offset() == old(self).offset(),
            final(self).whole().shape == old(self).whole().shape,
            final(self).memory().dims == old(self).memory().dims,
            match r {
                Ok(_) => {
                    &&& tile@.dims == old(self).tile_dims()
                    &&& names_tile(old(self).tiling(), old(self).memory().dims, old(self).tile_index(index@))
                    &&& final(self).memory() == stored(
                        old(self).memory(),
                        old(self).tiling(),
                        old(self).tile_index(index@),
                        tile@,
                    )
                },
                Err(AccessError::Shape) => tile@.dims != old(self).tile_dims()
                    && final(self).memory() == old(self).memory(),
                Err(AccessError::OutOfBounds) => tile@.dims == old(self).tile_dims() && !names_tile(
                    old(self).tiling(),
                    old(self).memory().dims,
                    old(self).tile_index(index@),
                ) && final(self).memory() == old(self).memory(),
                Err(_) => false,
            },
    {
        let shape = tile.shape();
        if !same_numbers(&shape.dims, &self.tile.dims) {
            return Err(AccessError::Shape);
        }
        let order = keep_order(self.tensor.extents.dims.len());
        let at = match self.find_tile(index) {
            Some(at) => at,
            None => return Err(AccessError::OutOfBounds),
        };
        self.tensor.write_tile(tile, &order, &at);
        Ok(Token {  })
    }

    /// Stores a tile at an index that a schedule made.
    pub fn store_index(
        &mut self,
        tile: &Tile<E>,
        index: &PartitionIndex,
    ) -> (r: Result<Token, AccessError>)
        requires
            old(self).wf(),
            tile@.wf(),
        ensures
            final(self).wf(),
            final(self).tile_dims() == old(self).tile_dims(),
            final(self).offset() == old(self).offset(),
            final(self).whole().shape == old(self).whole().shape,
            final(self).memory().dims == old(self).memory().dims,
            match r {
                Ok(_) => {
                    &&& tile@.dims == old(self).tile_dims()
                    &&& names_tile(old(self).tiling(), old(self).memory().dims, old(self).tile_index(index@))
                    &&& final(self).memory() == stored(
                        old(self).memory(),
                        old(self).tiling(),
                        old(self).tile_index(index@),
                        tile@,
                    )
                },
                Err(AccessError::Shape) => tile@.dims != old(self).tile_dims()
                    && final(self).memory() == old(self).memory(),
                Err(AccessError::OutOfBounds) => tile@.dims == old(self).tile_dims() && !names_tile(
                    old(self).tiling(),
                    old(self).memory().dims,
                    old(self).tile_index(index@),
                ) && final(self).memory() == old(self).memory(),
                Err(_) => false,
            },
    {
        self.store(tile, &index.coords)
    }

    /// The tensor with what has been stored in it.
    pub fn into_tensor(self) -> (r: Tensor<E>)
        requires
            self.wf(),
        ensures
            r@.wf(),
            r@ == self.whole(),
            r@.memory == self.memory(),
    {
        self.tensor
    }
}

/// An index that is moved nowhere stays.
pub proof fn unmoved_index_stays(index: Seq<int>)
    ensures
        moved(no_offset(index.len()), index) == index,
{
    assert(moved(no_offset(index.len()), index) =~= index);
}

/// A tile in the tile of a block lies in it: each of its lanes is one of the block's.
pub proof fn nested_tile_is_the_blocks(
    block: BlockId,
    outer: Seq<i32>,
    tile: Seq<i32>,
    index: Seq<int>,
    lane: Seq<int>,
    k: int,
)
    requires
        1 <= tile.len() <= 3,
        nests(outer, tile),
        index.len() == tile.len(),
        forall|k: int|
            0 <= k < index.len() ==> 0 <= #[trigger] index[k] < nested_along(outer, tile, k),
        lanes::inside(tile, lane),
        0 <= k < tile.len(),
    ensures
        place_along(
            Tiling { tile, order: same_order(tile.len()) },
            moved(block_offset(block, outer, tile), index),
            lane,
            k,
        ) == block_index(block, tile.len())[k] * outer[k] + (index[k] * tile[k] + lane[k]),
        0 <= index[k] * tile[k] + lane[k] < outer[k],
{
    let b = block_index(block, tile.len())[k];
    let n = nested_along(outer, tile, k);
    let t = tile[k] as int;
    assert(1 <= tile[k] && 1 <= outer[k] && outer[k] % tile[k] == 0);
    assert(0 <= index[k] < n);
    assert(0 <= lane[k] < tile[k]);
    vstd::arithmetic::div_mod::lemma_fundamental_div_mod(outer[k] as int, t);
    assert(outer[k] == t * n);
    assert((b * n + index[k]) * t + lane[k] == b * (t * n) + (index[k] * t + lane[k]))
        by (nonlinear_arith);
    assert(0 <= index[k] * t + lane[k] < t * n) by (nonlinear_arith)
        requires
            0 <= index[k] < n,
            0 <= lane[k] < t,
    ;
}

/// Tiles in the tiles of two blocks are not the same.
pub proof fn nested_tiles_differ(
    a: BlockId,
    b: BlockId,
    outer: Seq<i32>,
    tile: Seq<i32>,
    i: Seq<int>,
    j: Seq<int>,
)
    requires
        1 <= tile.len() <= 3,
        nests(outer, tile),
        block_index(a, tile.len()) != block_index(b, tile.len()),
        i.len() == tile.len(),
        j.len() == tile.len(),
        forall|k: int| 0 <= k < i.len() ==> 0 <= #[trigger] i[k] < nested_along(outer, tile, k),
        forall|k: int| 0 <= k < j.len() ==> 0 <= #[trigger] j[k] < nested_along(outer, tile, k),
    ensures
        moved(block_offset(a, outer, tile), i) != moved(block_offset(b, outer, tile), j),
{
    let p = block_index(a, tile.len());
    let q = block_index(b, tile.len());
    let k = choose|k: int| 0 <= k < p.len() && p[k] != q[k];
    assert(0 <= k < p.len() && p[k] != q[k]) by {
        if forall|k: int| 0 <= k < p.len() ==> p[k] == q[k] {
            assert(p =~= q);
        }
    }
    let n = nested_along(outer, tile, k);
    assert(0 <= i[k] < n);
    assert(0 <= j[k] < n);
    assert(p[k] * n + i[k] != q[k] * n + j[k]) by (nonlinear_arith)
        requires
            p[k] != q[k],
            0 <= i[k] < n,
            0 <= j[k] < n,
    ;
    assert(moved(block_offset(a, outer, tile), i)[k] == p[k] * n + i[k]);
    assert(moved(block_offset(b, outer, tile), j)[k] == q[k] * n + j[k]);
}

// Questions about partitions.

/// The number of tiles along each dimension of a partition.
pub open spec fn index_space(t: Tiling, extents: Seq<i32>) -> Seq<int> {
    Seq::new(t.tile.len(), |k: int| tiles_along(t, extents, k))
}

/// The number of tiles along a dimension of a partition, where it has the dimension.
pub fn num_tiles<E: ElementType>(view: &Partition<'_, E>, axis: i32) -> (r: Option<i32>)
    requires
        view.wf(),
    ensures
        r is Some <==> 0 <= axis < view.tiling().tile.len(),
        r matches Some(count) ==> count == tiles_along(
            view.tiling(),
            view.memory().dims,
            axis as int,
        ),
{
    if axis < 0 || axis as u64 >= view.tile.dims.len() as u64 {
        return None;
    }
    Some(view.count_along(axis as usize))
}

/// The number of tiles along each dimension of a partition.
pub fn get_index_space_shape<E: ElementType>(src: &Partition<'_, E>) -> (r: Vec<i32>)
    requires
        src.wf(),
    ensures
        index_of(r@) == index_space(src.tiling(), src.memory().dims),
{
    let mut counts: Vec<i32> = Vec::new();
    while counts.len() < src.tile.dims.len()
        invariant
            src.wf(),
            counts@.len() <= src.tiling().tile.len(),
            forall|k: int|
                0 <= k < counts@.len() ==> #[trigger] counts@[k] == tiles_along(
                    src.tiling(),
                    src.memory().dims,
                    k,
                ),
        decreases src.tiling().tile.len() - counts@.len(),
    {
        counts.push(src.count_along(counts.len()));
    }
    assert(index_of(counts@) =~= index_space(src.tiling(), src.memory().dims));
    counts
}

/// Whether an index names a tile of a partition.
pub fn check_partition_access<E: ElementType>(
    part: &Partition<'_, E>,
    index: &Vec<i32>,
) -> (r: Result<(), AccessError>)
    requires
        part.wf(),
    ensures
        r == (if names_tile(part.tiling(), part.memory().dims, index_of(index@)) {
            Ok(())
        } else {
            Err(AccessError::OutOfBounds)
        }),
{
    if check_index(&part.tile.dims, &part.order, &part.tensor.extents.dims, index) {
        Ok(())
    } else {
        Err(AccessError::OutOfBounds)
    }
}

/// An index names a tile exactly where it is below the number of tiles along every dimension.
pub proof fn index_space_holds_the_tiles(t: Tiling, extents: Seq<i32>, index: Seq<int>)
    requires
        divides(t, extents),
        index.len() == t.tile.len(),
    ensures
        names_tile(t, extents, index) <==> forall|k: int|
            0 <= k < index.len() ==> 0 <= #[trigger] index[k] < index_space(t, extents)[k],
{
    if names_tile(t, extents, index) {
        assert forall|k: int| 0 <= k < index.len() implies 0 <= #[trigger] index[k] < index_space(
            t,
            extents,
        )[k] by {
            assert(0 <= index[k] < tiles_along(t, extents, k));
        }
    }
    if forall|k: int|
        0 <= k < index.len() ==> 0 <= #[trigger] index[k] < index_space(t, extents)[k] {
        assert forall|k: int| 0 <= k < index.len() implies 0 <= #[trigger] index[k] < tiles_along(
            t,
            extents,
            k,
        ) by {
            assert(0 <= index[k] < index_space(t, extents)[k]);
        }
    }
}

} // verus!

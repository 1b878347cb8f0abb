//! Tiles: arrays that a kernel computes with.
use crate::dsl::element::ElementType;
use crate::dsl::lanes::{self, checked_size, find_flat, find_lane};
use vstd::prelude::*;

verus! {

/// The dimensions of a tile or a tensor.
#[derive(Debug)]
pub struct Shape {
    pub dims: Vec<i32>,
}

/// A list of numbers, such as an order of dimensions.
#[derive(Debug)]
pub struct Array {
    pub dims: Vec<i32>,
}

impl View for Shape {
    type V = Seq<i32>;

    open spec fn view(&self) -> Seq<i32> {
        self.dims@
    }
}

impl View for Array {
    type V = Seq<i32>;

    open spec fn view(&self) -> Seq<i32> {
        self.dims@
    }
}

impl Shape {
    pub fn new(dims: Vec<i32>) -> (r: Shape)
        ensures
            r@ == dims@,
    {
        Shape { dims }
    }

    pub fn dup(&self) -> (r: Shape)
        ensures
            r@ == self@,
    {
        let dims = self.dims.clone();
        assert(dims@ =~= self.dims@);
        Shape { dims }
    }

    /// One of the dimensions.
    pub fn index(&self, index: usize) -> (r: i32)
        requires
            index < self@.len(),
        ensures
            r == self@[index as int],
    {
        self.dims[index]
    }
}

impl Array {
    pub fn new(dims: Vec<i32>) -> (r: Array)
        ensures
            r@ == dims@,
    {
        Array { dims }
    }
}

/// An array in registers.
pub struct Tile<E> {
    shape: Shape,
    data: Vec<E>,
}

/// A tile's dimensions and its elements, the last dimension running fastest.
pub struct TileView<E> {
    pub dims: Seq<i32>,
    pub data: Seq<E>,
}

impl<E> View for Tile<E> {
    type V = TileView<E>;

    closed spec fn view(&self) -> TileView<E> {
        TileView { dims: self.shape@, data: self.data@ }
    }
}

/// Whether so many dimensions are those of an array that fits in memory.
pub open spec fn fits(dims: Seq<i32>) -> bool {
    lanes::are_dims(dims) && lanes::size_of(dims) <= i64::MAX && lanes::size_of(dims) <= usize::MAX
}

impl<E> TileView<E> {
    /// There is one element at every position.
    pub open spec fn wf(self) -> bool {
        fits(self.dims) && self.data.len() == lanes::size_of(self.dims)
    }

    /// The element at a position.
    pub open spec fn at(self, lane: Seq<int>) -> E {
        self.data[lanes::flat_of(self.dims, lane)]
    }
}

/// The tile with an element for every position.
pub open spec fn filled<E>(dims: Seq<i32>, element: spec_fn(Seq<int>) -> E) -> TileView<E> {
    TileView {
        dims,
        data: Seq::new(lanes::size_of(dims) as nat, |i: int| element(lanes::lane_of(dims, i))),
    }
}

/// A tile has at a position what it was filled with.
pub proof fn filled_at<E>(dims: Seq<i32>, element: spec_fn(Seq<int>) -> E, lane: Seq<int>)
    requires
        lanes::are_dims(dims),
        lanes::inside(dims, lane),
    ensures
        filled(dims, element).at(lane) == element(lane),
{
    lanes::position_is_an_element(dims, lane);
}

/// Two tiles of the same dimensions with the same element at every position are the same tile.
pub proof fn tiles_are_their_elements<E>(a: TileView<E>, b: TileView<E>)
    requires
        a.wf(),
        b.wf(),
        a.dims == b.dims,
        forall|lane: Seq<int>| lanes::inside(a.dims, lane) ==> #[trigger] a.at(lane) == b.at(lane),
    ensures
        a == b,
{
    assert forall|i: int| 0 <= i < a.data.len() implies a.data[i] == b.data[i] by {
        lanes::element_has_a_position(a.dims, i);
        let lane = lanes::lane_of(a.dims, i);
        assert(a.at(lane) == b.at(lane));
    }
    assert(a.data =~= b.data);
}

// Broadcasting.

/// Whether a tile can be broadcast to other dimensions: each is the same, or was one.
pub open spec fn broadcasts(from: Seq<i32>, to: Seq<i32>) -> bool {
    from.len() == to.len() && forall|k: int|
        0 <= k < from.len() ==> #[trigger] from[k] == to[k] || from[k] == 1
}

/// The position in a tile that a position in its broadcast form takes its element from.
pub open spec fn source_lane(from: Seq<i32>, lane: Seq<int>) -> Seq<int> {
    Seq::new(
        lane.len(),
        |k: int|
            if from[k] == 1 {
                0
            } else {
                lane[k]
            },
    )
}

/// A tile broadcast to other dimensions.
pub open spec fn broadcast_view<E>(tile: TileView<E>, to: Seq<i32>) -> TileView<E> {
    filled(to, |lane: Seq<int>| tile.at(source_lane(tile.dims, lane)))
}

proof fn source_is_inside(from: Seq<i32>, to: Seq<i32>, lane: Seq<int>)
    requires
        broadcasts(from, to),
        lanes::inside(to, lane),
    ensures
        lanes::inside(from, source_lane(from, lane)),
{
    assert forall|k: int| 0 <= k < from.len() implies 0 <= #[trigger] source_lane(from, lane)[k]
        < from[k] by {
        assert(0 <= lane[k] < to[k]);
        assert(from[k] == to[k] || from[k] == 1);
    }
}

/// A tile that is broadcast to its own dimensions is the same.
pub proof fn broadcast_to_itself<E>(tile: TileView<E>)
    requires
        tile.wf(),
    ensures
        broadcasts(tile.dims, tile.dims),
        broadcast_view(tile, tile.dims) == tile,
{
    let after = broadcast_view(tile, tile.dims);
    lanes::size_is_a_count(tile.dims);
    assert forall|lane: Seq<int>| lanes::inside(tile.dims, lane) implies #[trigger] after.at(lane)
        == tile.at(lane) by {
        filled_at(
            tile.dims,
            |lane: Seq<int>| tile.at(source_lane(tile.dims, lane)),
            lane,
        );
        assert(source_lane(tile.dims, lane) =~= lane) by {
            assert forall|k: int| 0 <= k < lane.len() implies source_lane(tile.dims, lane)[k]
                == lane[k] by {
                assert(0 <= lane[k] < tile.dims[k]);
            }
        }
    }
    tiles_are_their_elements(after, tile);
}

/// Broadcasting in two steps is broadcasting in one.
pub proof fn broadcast_in_steps<E>(tile: TileView<E>, mid: Seq<i32>, to: Seq<i32>)
    requires
        tile.wf(),
        fits(mid),
        fits(to),
        broadcasts(tile.dims, mid),
        broadcasts(mid, to),
    ensures
        broadcasts(tile.dims, to),
        broadcast_view(broadcast_view(tile, mid), to) == broadcast_view(tile, to),
{
    let first = broadcast_view(tile, mid);
    let twice = broadcast_view(first, to);
    let once = broadcast_view(tile, to);
    lanes::size_is_a_count(to);
    lanes::size_is_a_count(mid);
    assert forall|k: int| 0 <= k < tile.dims.len() implies #[trigger] tile.dims[k] == to[k]
        || tile.dims[k] == 1 by {
        assert(tile.dims[k] == mid[k] || tile.dims[k] == 1);
        assert(mid[k] == to[k] || mid[k] == 1);
    }
    assert forall|lane: Seq<int>| lanes::inside(to, lane) implies #[trigger] twice.at(lane)
        == once.at(lane) by {
        filled_at(to, |l: Seq<int>| first.at(source_lane(mid, l)), lane);
        filled_at(to, |l: Seq<int>| tile.at(source_lane(tile.dims, l)), lane);
        source_is_inside(mid, to, lane);
        filled_at(mid, |l: Seq<int>| tile.at(source_lane(tile.dims, l)), source_lane(mid, lane));
        assert(source_lane(tile.dims, source_lane(mid, lane)) =~= source_lane(tile.dims, lane)) by {
            assert forall|k: int| 0 <= k < lane.len() implies source_lane(
                tile.dims,
                source_lane(mid, lane),
            )[k] == source_lane(tile.dims, lane)[k] by {
                assert(tile.dims[k] == mid[k] || tile.dims[k] == 1);
            }
        }
    }
    tiles_are_their_elements(twice, once);
}

// Transposing.

/// A tile of two dimensions with the two exchanged.
pub open spec fn transposed<E>(tile: TileView<E>) -> TileView<E> {
    filled(
        seq![tile.dims[1], tile.dims[0]],
        |lane: Seq<int>| tile.at(seq![lane[1], lane[0]]),
    )
}

proof fn flat_of_two(dims: Seq<i32>, lane: Seq<int>)
    requires
        dims.len() == 2,
        lane.len() == 2,
    ensures
        lanes::flat_of(dims, lane) == lane[0] * dims[1] + lane[1],
        lanes::size_of(dims) == dims[0] * dims[1],
{
    reveal_with_fuel(lanes::flat_of, 3);
    reveal_with_fuel(lanes::size_of, 3);
    assert(dims.drop_last().last() == dims[0]);
    assert(lane.drop_last().last() == lane[0]);
    assert(0 * dims[0] + lane[0] == lane[0]);
    assert(1 * dims[0] == dims[0]);
}

proof fn exchanged_fits(dims: Seq<i32>)
    requires
        dims.len() == 2,
        fits(dims),
    ensures
        fits(seq![dims[1], dims[0]]),
        lanes::size_of(seq![dims[1], dims[0]]) == lanes::size_of(dims),
{
    let to = seq![dims[1], dims[0]];
    flat_of_two(dims, seq![0, 0]);
    flat_of_two(to, seq![0, 0]);
    assert(dims[0] * dims[1] == dims[1] * dims[0]) by (nonlinear_arith);
    assert(dims[0] >= 0 && dims[1] >= 0);
}

/// A tile that is transposed twice is the same.
pub proof fn transposed_twice<E>(tile: TileView<E>)
    requires
        tile.wf(),
        tile.dims.len() == 2,
    ensures
        transposed(transposed(tile)) == tile,
{
    let first = transposed(tile);
    let twice = transposed(first);
    let dims = tile.dims;
    let to = seq![dims[1], dims[0]];
    exchanged_fits(dims);
    exchanged_fits(to);
    lanes::size_is_a_count(dims);
    assert(seq![to[1], to[0]] =~= dims);
    assert forall|lane: Seq<int>| lanes::inside(dims, lane) implies #[trigger] twice.at(lane)
        == tile.at(lane) by {
        let back = seq![lane[1], lane[0]];
        filled_at(dims, |l: Seq<int>| first.at(seq![l[1], l[0]]), lane);
        assert(0 <= lane[0] < dims[0] && 0 <= lane[1] < dims[1]);
        assert(lanes::inside(to, back));
        filled_at(to, |l: Seq<int>| tile.at(seq![l[1], l[0]]), back);
        assert(seq![back[1], back[0]] =~= lane);
    }
    tiles_are_their_elements(twice, tile);
}

/// Whether dimensions are those of an array that fits in memory.
pub fn dims_fit(dims: &Vec<i32>) -> (r: Option<usize>)
    ensures
        r == (if fits(dims@) {
            Some(lanes::size_of(dims@) as usize)
        } else {
            None
        }),
        r is Some ==> lanes::size_of(dims@) >= 0,
{
    let mut i: usize = 0;
    while i < dims.len()
        invariant
            i <= dims@.len(),
            forall|k: int| 0 <= k < i ==> #[trigger] dims@[k] >= 0,
        decreases dims@.len() - i,
    {
        if dims[i] < 0 {
            return None;
        }
        i += 1;
    }
    proof {
        lanes::size_is_a_count(dims@);
    }
    match checked_size(dims) {
        Some(size) => {
            if size as u64 <= i64::MAX as u64 {
                Some(size)
            } else {
                None
            }
        },
        None => None,
    }
}

impl<E: ElementType> Tile<E> {
    /// The tile of these elements, where there is one for every position.
    pub fn from_elements(shape: Shape, data: Vec<E>) -> (r: Option<Tile<E>>)
        ensures
            r is Some <==> fits(shape@) && data@.len() == lanes::size_of(shape@),
            r matches Some(tile) ==> tile@.wf() && tile@ == (TileView {
                dims: shape@,
                data: data@,
            }),
    {
        match dims_fit(&shape.dims) {
            Some(size) => {
                if size == data.len() {
                    Some(Tile { shape, data })
                } else {
                    None
                }
            },
            None => None,
        }
    }

    pub(crate) fn build(shape: Shape, data: Vec<E>) -> (r: Tile<E>)
        requires
            fits(shape@),
            data@.len() == lanes::size_of(shape@),
        ensures
            r@.wf(),
            r@ == (TileView { dims: shape@, data: data@ }),
    {
        Tile { shape, data }
    }

    /// The tile's dimensions.
    pub fn shape(&self) -> (r: Shape)
        ensures
            r@ == self@.dims,
    {
        self.shape.dup()
    }

    /// The elements, the last dimension running fastest.
    pub fn elements(&self) -> (r: &Vec<E>)
        ensures
            r@ == self@.data,
    {
        &self.data
    }

    /// The element at a position, where the tile has the position.
    pub fn get(&self, lane: &Vec<i64>) -> (r: Option<E>)
        requires
            self@.wf(),
        ensures
            r == (if lanes::inside(self@.dims, lanes::ints(lane@)) {
                Some(self@.at(lanes::ints(lane@)))
            } else {
                None
            }),
    {
        match find_flat(&self.shape.dims, lane) {
            Some(flat) => {
                proof {
                    lanes::position_is_an_element(self@.dims, lanes::ints(lane@));
                }
                Some(self.data[flat])
            },
            None => None,
        }
    }

    /// Broadcasts the tile to other dimensions, where they allow it.
    pub fn broadcast(&self, shape: &Shape) -> (r: Option<Tile<E>>)
        requires
            self@.wf(),
        ensures
            r is Some <==> broadcasts(self@.dims, shape@) && fits(shape@),
            r matches Some(tile) ==> tile@.wf() && tile@ == broadcast_view(self@, shape@),
    {
        if self.shape.dims.len() != shape.dims.len() {
            return None;
        }
        let mut k: usize = 0;
        while k < shape.dims.len()
            invariant
                k <= shape@.len(),
                self@.dims == self.shape.dims@,
                self@.dims.len() == shape@.len(),
                forall|j: int| 0 <= j < k ==> #[trigger] self@.dims[j] == shape@[j] || self@.dims[j] == 1,
            decreases shape@.len() - k,
        {
            if self.shape.dims[k] != shape.dims[k] && self.shape.dims[k] != 1 {
                assert(!(self@.dims[k as int] == shape@[k as int] || self@.dims[k as int] == 1));
                return None;
            }
            k += 1;
        }
        let size = match dims_fit(&shape.dims) {
            Some(size) => size,
            None => return None,
        };
        proof {
            lanes::size_is_a_count(shape@);
        }
        let mut data: Vec<E> = Vec::new();
        while data.len() < size
            invariant
                self@.wf(),
                self@.dims == self.shape.dims@,
                broadcasts(self@.dims, shape@),
                fits(shape@),
                size == lanes::size_of(shape@),
                data@.len() <= size,
                forall|i: int|
                    0 <= i < data@.len() ==> #[trigger] data@[i] == self@.at(
                        source_lane(self@.dims, lanes::lane_of(shape@, i)),
                    ),
            decreases size - data@.len(),
        {
            let mut lane = find_lane(&shape.dims, data.len());
            let ghost target = lanes::ints(lane@);
            let mut j: usize = 0;
            while j < lane.len()
                invariant
                    j <= lane@.len(),
                    lane@.len() == target.len(),
                    self@.dims == self.shape.dims@,
                    self@.dims.len() == target.len(),
                    forall|n: int|
                        0 <= n < lane@.len() ==> #[trigger] lane@[n] == (if n < j {
                            source_lane(self@.dims, target)[n]
                        } else {
                            target[n]
                        }),
                decreases lane@.len() - j,
            {
                if self.shape.dims[j] == 1 {
                    lane.set(j, 0);
                }
                j += 1;
            }
            assert(lanes::ints(lane@) =~= source_lane(self@.dims, target));
            proof {
                source_is_inside(self@.dims, shape@, target);
            }
            match self.get(&lane) {
                Some(element) => data.push(element),
                None => {
                    assert(false);
                    return None;
                },
            }
        }
        let tile = Tile { shape: shape.dup(), data };
        assert(tile@.data =~= broadcast_view(self@, shape@).data);
        Some(tile)
    }

    /// Exchanges the two dimensions of a tile.
    pub fn transpose(&self) -> (r: Tile<E>)
        requires
            self@.wf(),
            self@.dims.len() == 2,
        ensures
            r@.wf(),
            r@ == transposed(self@),
    {
        let m: i32 = self.shape.dims[0];
        let n: i32 = self.shape.dims[1];
        let mut dims: Vec<i32> = Vec::new();
        dims.push(n);
        dims.push(m);
        proof {
            exchanged_fits(self@.dims);
            lanes::size_is_a_count(self@.dims);
            assert(dims@ =~= seq![self@.dims[1], self@.dims[0]]);
        }
        let size: usize = self.data.len();
        let mut data: Vec<E> = Vec::new();
        while data.len() < size
            invariant
                self@.wf(),
                self@.dims == self.shape.dims@,
                self@.dims.len() == 2,
                dims@ == seq![self@.dims[1], self@.dims[0]],
                fits(dims@),
                size == lanes::size_of(dims@),
                data@.len() <= size,
                forall|i: int|
                    0 <= i < data@.len() ==> #[trigger] data@[i] == self@.at(
                        seq![lanes::lane_of(dims@, i)[1], lanes::lane_of(dims@, i)[0]],
                    ),
            decreases size - data@.len(),
        {
            let lane = find_lane(&dims, data.len());
            let ghost target = lanes::ints(lane@);
            assert(0 <= target[0] < dims@[0] && 0 <= target[1] < dims@[1]);
            let mut back: Vec<i64> = Vec::new();
            back.push(lane[1]);
            back.push(lane[0]);
            assert(lanes::ints(back@) =~= seq![target[1], target[0]]);
            match self.get(&back) {
                Some(element) => data.push(element),
                None => {
                    assert(false);
                },
            }
        }
        let tile = Tile { shape: Shape { dims }, data };
        assert(tile@.data =~= transposed(self@).data);
        tile
    }
}

// Scalars.

/// The tile with one element everywhere.
pub open spec fn uniform<E>(value: E, dims: Seq<i32>) -> TileView<E> {
    filled(dims, |lane: Seq<int>| value)
}

/// A scalar that fills a tile.
pub trait BroadcastScalar: ElementType {
    fn broadcast(self, shape: &Shape) -> (r: Option<Tile<Self>>)
        ensures
            r is Some <==> fits(shape@),
            r matches Some(tile) ==> tile@.wf() && tile@ == uniform(self, shape@),
    ;
}

impl<E: ElementType> BroadcastScalar for E {
    fn broadcast(self, shape: &Shape) -> (r: Option<Tile<E>>) {
        broadcast_scalar(self, shape)
    }
}

/// Fills a tile of these dimensions with a scalar.
pub fn broadcast_scalar<E: ElementType>(x: E, shape: &Shape) -> (r: Option<Tile<E>>)
    ensures
        r is Some <==> fits(shape@),
        r matches Some(tile) ==> tile@.wf() && tile@ == uniform(x, shape@),
{
    let size = match dims_fit(&shape.dims) {
        Some(size) => size,
        None => return None,
    };
    proof {
        lanes::size_is_a_count(shape@);
    }
    let mut data: Vec<E> = Vec::new();
    while data.len() < size
        invariant
            data@.len() <= size,
            forall|i: int| 0 <= i < data@.len() ==> #[trigger] data@[i] == x,
        decreases size - data@.len(),
    {
        data.push(x);
    }
    let tile = Tile { shape: shape.dup(), data };
    assert(tile@.data =~= uniform(x, shape@).data);
    Some(tile)
}

} // verus!

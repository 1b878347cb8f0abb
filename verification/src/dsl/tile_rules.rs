//! What holds of the tiles of a tensor: where their elements lie, and which one is that of a block.
use crate::dsl::element::ElementType;
use crate::dsl::lanes;
use crate::dsl::partition::{self, BlockId, Tiling};
use crate::dsl::tile::{self, TileView};
use vstd::prelude::*;

verus! {

/// In the order of the dimensions themselves, the element of a tile at a lane lies as many tiles along
/// each dimension as the index says, and as far into the tile as the lane says.
pub proof fn element_lies_in_its_tile(
    tile: Seq<i32>,
    index: Seq<int>,
    lane: Seq<int>,
    d: int,
)
    requires
        tile.len() <= i32::MAX,
        0 <= d < tile.len(),
    ensures
        ({
            let t = Tiling { tile, order: partition::same_order(tile.len()) };
            &&& partition::place(t, index, lane).len() == tile.len()
            &&& partition::place(t, index, lane)[d] == index[d] * tile[d] + lane[d]
        }),
{
    let order = partition::same_order(tile.len());
    assert(order[d] == d);
    let k = partition::runs_along(order, d);
    assert(0 <= k < order.len() && order[k] == d);
    assert(order[k] == k as i32);
}

/// A tile that is loaded has at a lane the element of the tensor that lies there, and zero where none
/// lies.
pub proof fn loaded_tile_has_the_elements_of_the_tensor<E: ElementType>(
    memory: TileView<E>,
    t: Tiling,
    index: Seq<int>,
    lane: Seq<int>,
)
    requires
        tile::fits(t.tile),
        lanes::inside(t.tile, lane),
    ensures
        ({
            let at = partition::place(t, index, lane);
            &&& partition::loaded(memory, t, index).dims == t.tile
            &&& lanes::inside(memory.dims, at) ==> partition::loaded(memory, t, index).at(lane)
                == memory.at(at)
            &&& !lanes::inside(memory.dims, at) ==> partition::loaded(memory, t, index).at(lane)
                == E::zero_spec()
        }),
{
    tile::filled_at(
        t.tile,
        |own: Seq<int>| partition::padded(memory, partition::place(t, index, own)),
        lane,
    );
}

/// The tile of a block is the one that its coordinates name, the first coordinate along the first
/// dimension.
pub proof fn block_has_the_tile_of_its_coordinates(block: BlockId)
    ensures
        partition::block_index(block, 1).len() == 1,
        partition::block_index(block, 1)[0] == block.x,
        partition::block_index(block, 2).len() == 2,
        partition::block_index(block, 2)[0] == block.x,
        partition::block_index(block, 2)[1] == block.y,
        partition::block_index(block, 3).len() == 3,
        partition::block_index(block, 3)[0] == block.x,
        partition::block_index(block, 3)[1] == block.y,
        partition::block_index(block, 3)[2] == block.z,
{
}

/// An index that is moved is moved along each dimension by the offset for it.
pub proof fn moved_index_is_the_sum(offset: Seq<int>, index: Seq<int>, k: int)
    requires
        0 <= k < index.len(),
    ensures
        partition::moved(offset, index).len() == index.len(),
        partition::moved(offset, index)[k] - offset[k] == index[k],
{
}

} // verus!

use cutile::dsl::element::Pointer32;
use cutile::dsl::ordering::{AcqRel, Acquire, Release};
use cutile::dsl::partition::{
    coord, load_tile_like, load_tile_mut, store_tile, AccessError, BlockId, Dim, MappedPartitionMut,
    Tensor,
};
use cutile::dsl::pointer::{Global, PointerTile};
use cutile::dsl::scope::Device;
use cutile::dsl::tile::{broadcast_scalar, Array, BroadcastScalar, Shape, Tile};

fn shape(dims: &[i32]) -> Shape {
    Shape::new(dims.to_vec())
}

fn tile(dims: &[i32], data: &[i32]) -> Tile<i32> {
    Tile::from_elements(shape(dims), data.to_vec()).unwrap()
}

/// The numbers from zero on, in so many rows and columns.
fn counted(rows: i32, columns: i32) -> Tensor<i32> {
    let data = (0..rows * columns).collect::<Vec<i32>>();
    Tensor::from_elements(shape(&[rows, columns]), data, shape(&[rows, columns])).unwrap()
}

#[test]
fn tiles_have_one_element_for_each_position() {
    assert!(Tile::from_elements(shape(&[2, 2]), vec![1, 2, 3]).is_none());
    assert!(Tile::from_elements(shape(&[-1]), vec![1]).is_none());
    let t = tile(&[2, 3], &[1, 2, 3, 4, 5, 6]);
    assert_eq!(t.shape().dims, vec![2, 3]);
    assert_eq!(t.get(&vec![1, 2]), Some(6));
    assert_eq!(t.get(&vec![2, 0]), None);
}

#[test]
fn broadcast_expands_single_dimensions() {
    let column = tile(&[2, 1], &[7, 8]);
    let wide = column.broadcast(&shape(&[2, 3])).unwrap();
    assert_eq!(wide.elements(), &vec![7, 7, 7, 8, 8, 8]);
    assert!(column.broadcast(&shape(&[3, 3])).is_none());
    assert!(column.broadcast(&shape(&[2])).is_none());
    let same = wide.broadcast(&shape(&[2, 3])).unwrap();
    assert_eq!(same.elements(), wide.elements());
}

#[test]
fn transpose_exchanges_dimensions() {
    let t = tile(&[2, 3], &[1, 2, 3, 4, 5, 6]);
    let u = t.transpose();
    assert_eq!(u.shape().dims, vec![3, 2]);
    assert_eq!(u.elements(), &vec![1, 4, 2, 5, 3, 6]);
    assert_eq!(u.transpose().elements(), t.elements());
}

#[test]
fn scalars_fill_tiles() {
    assert_eq!(broadcast_scalar(5i32, &shape(&[2, 2])).unwrap().elements(), &vec![5; 4]);
    assert_eq!(BroadcastScalar::broadcast(true, &shape(&[3])).unwrap().elements(), &vec![true; 3]);
    assert_eq!(broadcast_scalar(5i32, &shape(&[])).unwrap().elements(), &vec![5]);
}

#[test]
fn partitions_load_tiles_with_zeros_outside() {
    let tensor = counted(3, 4);
    let part = tensor.partition(&shape(&[2, 2])).unwrap();
    assert_eq!(part.load(&vec![0, 1]).ok().unwrap().elements(), &vec![2, 3, 6, 7]);
    assert_eq!(part.load(&vec![1, 0]).ok().unwrap().elements(), &vec![8, 9, 0, 0]);
    assert_eq!(part.load(&vec![2, 0]).err(), Some(AccessError::OutOfBounds));
    assert_eq!(part.load(&vec![0, -1]).err(), Some(AccessError::OutOfBounds));
    assert!(tensor.partition(&shape(&[2, 0])).is_none());
    assert!(tensor.partition(&shape(&[2])).is_none());
}

#[test]
fn permuted_partitions_run_along_other_dimensions() {
    let tensor = counted(2, 3);
    let part = tensor
        .partition_permuted(&shape(&[3, 2]), &Array::new(vec![1, 0]))
        .unwrap();
    assert_eq!(part.load(&vec![0, 0]).ok().unwrap().elements(), &vec![0, 3, 1, 4, 2, 5]);
    assert!(tensor
        .partition_permuted(&shape(&[3, 2]), &Array::new(vec![0, 0]))
        .is_none());
}

#[test]
fn load_tile_is_padded_everywhere() {
    let tensor = counted(2, 2);
    let inside = tensor.load_tile(&shape(&[1, 2]), &vec![1, 0]).unwrap();
    assert_eq!(inside.elements(), &vec![2, 3]);
    let outside = tensor.load_tile(&shape(&[1, 2]), &vec![-1, 5]).unwrap();
    assert_eq!(outside.elements(), &vec![0, 0]);
    assert!(tensor.load_tile(&shape(&[1, 2]), &vec![0]).is_none());
}

#[test]
fn bounded_partitions_refuse_positions_beyond() {
    let tensor = counted(4, 4);
    let part = tensor.partition(&shape(&[2, 2])).unwrap();
    let bounded = part.with_bounds((Dim::new(2), 1));
    assert_eq!(bounded.load(coord((1, 0))).ok().unwrap().elements(), &vec![8, 9, 12, 13]);
    assert_eq!(bounded.load(coord((1, 1))).err(), Some(AccessError::OutOfBounds));
    let wide = tensor.partition(&shape(&[2, 2])).unwrap().with_bounds((9, 9));
    assert_eq!(wide.load(coord((2, 0))).err(), Some(AccessError::OutOfBounds));
}

#[test]
fn dimensions_have_their_indices() {
    assert_eq!(Dim::new(3).indices().indices, vec![0, 1, 2]);
    assert!(Dim::new(-3).indices().indices.is_empty());
    assert_eq!(Dim::new(-3).value(), -3);
    assert_eq!(Dim::from(3).value(), 3);
    assert_eq!(Dim::from(2).indices().indices, vec![0, 1]);
}

#[test]
fn blocks_take_turns() {
    let part = MappedPartitionMut::new(counted(4, 6), shape(&[2, 2])).unwrap();
    let mut seen = Vec::new();
    for block in 0..4 {
        for index in part.iter_indices(block, 4).indices {
            seen.push(index.components());
            assert_eq!(index.coords().len(), 2);
        }
    }
    seen.sort();
    assert_eq!(seen, vec![(0, 0), (0, 1), (0, 2), (1, 0), (1, 1), (1, 2)]);
}

#[test]
fn stored_tiles_are_loaded_again() {
    let mut part = MappedPartitionMut::new(counted(2, 4), shape(&[2, 2])).unwrap();
    let index = part.iter_indices(1, 2).indices.remove(0);
    let ones = tile(&[2, 2], &[1, 1, 1, 1]);
    assert!(part.store(&ones, &index).is_ok());
    let wrong = tile(&[1, 2], &[1, 1]);
    assert_eq!(part.store(&wrong, &index).err(), Some(AccessError::Shape));
    let larger = MappedPartitionMut::new(counted(2, 6), shape(&[2, 2])).unwrap();
    for block in 0..3 {
        for index in larger.iter_indices(block, 3).indices {
            let far = index.components() == (0, 2);
            let refused = if far { Some(AccessError::OutOfBounds) } else { None };
            assert_eq!(part.store(&ones, &index).err(), refused);
        }
    }
}

#[test]
fn indices_of_a_schedule_load() {
    let tensor = counted(2, 4);
    let part = tensor.partition(&shape(&[2, 2])).unwrap();
    let schedule = MappedPartitionMut::new(counted(2, 4), shape(&[2, 2])).unwrap();
    for block in 0..2 {
        for index in schedule.iter_indices(block, 2).indices {
            let expected = if index.components() == (0, 0) {
                vec![0, 1, 4, 5]
            } else {
                vec![2, 3, 6, 7]
            };
            assert_eq!(part.load_index(&index).ok().unwrap().elements(), &expected);
        }
    }
}

#[test]
fn blocks_load_what_they_stored() {
    let data = (0..6).collect::<Vec<i32>>();
    let mut output = Tensor::from_elements(shape(&[6]), data, shape(&[2])).unwrap();
    let block = BlockId { x: 1, y: 0, z: 0 };
    assert_eq!(load_tile_mut(&output, block).ok().unwrap().elements(), &vec![2, 3]);
    assert!(store_tile(&mut output, &tile(&[2], &[9, 8]), block).is_ok());
    assert_eq!(load_tile_mut(&output, block).ok().unwrap().elements(), &vec![9, 8]);
    assert_eq!(output.elements(), &vec![0, 1, 9, 8, 4, 5]);
    let outside = BlockId { x: 3, y: 0, z: 0 };
    assert_eq!(load_tile_mut(&output, outside).err(), Some(AccessError::OutOfBounds));
    assert_eq!(
        store_tile(&mut output, &tile(&[2], &[1, 1]), outside),
        Err(AccessError::OutOfBounds)
    );
}

#[test]
fn blocks_load_and_store_what_lies_inside() {
    let mut output = Tensor::from_elements(shape(&[3]), vec![1, 2, 3], shape(&[2])).unwrap();
    let edge = BlockId { x: 1, y: 0, z: 0 };
    let before = load_tile_mut(&output, edge).ok().unwrap();
    assert_eq!((before.elements().len(), before.elements()[0]), (2, 3));
    assert_eq!(store_tile(&mut output, &tile(&[2], &[9, 8]), edge), Ok(()));
    assert_eq!(output.elements(), &vec![1, 2, 9]);
    let after = load_tile_mut(&output, edge).ok().unwrap();
    assert_eq!((after.elements().len(), after.elements()[0]), (2, 9));
}

#[test]
fn ranks_beyond_three_have_no_block() {
    let scalar = Tensor::from_elements(shape(&[]), vec![1i32], shape(&[])).unwrap();
    let block = BlockId { x: 0, y: 0, z: 0 };
    assert_eq!(load_tile_mut(&scalar, block).err(), Some(AccessError::Rank));
    let wide = Tensor::from_elements(shape(&[2]), vec![1i32, 2], shape(&[0])).unwrap();
    assert_eq!(load_tile_mut(&wide, block).err(), Some(AccessError::Shape));
}

#[test]
fn tiles_are_loaded_like_those_of_another_tensor() {
    let input = counted(3, 3);
    let output =
        Tensor::from_elements(shape(&[4, 4]), vec![0i64; 16], shape(&[2, 2])).unwrap();
    let block = BlockId { x: 1, y: 0, z: 5 };
    assert_eq!(
        load_tile_like(&input, &output, block).ok().unwrap().elements(),
        &vec![6, 7, 0, 0]
    );
    let flat = Tensor::from_elements(shape(&[2]), vec![0i64; 2], shape(&[2])).unwrap();
    assert_eq!(load_tile_like(&input, &flat, block).err(), Some(AccessError::Shape));
}

#[test]
fn pointers_move_by_elements() {
    let base: PointerTile<Pointer32> =
        PointerTile::from_addresses(shape(&[1]), vec![0x1000]).unwrap();
    assert_eq!(base.offset(3).addresses(), &vec![0x100c]);
    assert_eq!(base.offset(-1).addresses(), &vec![0x0ffc]);
    let wide = base.broadcast(&shape(&[3])).unwrap();
    assert_eq!(
        wide.offset_tile(&tile(&[3], &[0, 1, -2])).addresses(),
        &vec![0x1000, 0x1004, 0x0ff8]
    );
    let end: PointerTile<Pointer32> =
        PointerTile::from_addresses(shape(&[1]), vec![u64::MAX - 3]).unwrap();
    assert_eq!(end.offset(1).addresses(), &vec![0]);
    assert!(base.broadcast(&shape(&[3, 3])).is_none());
}

#[test]
fn globals_load_store_and_add() {
    let mut counter = Global::new(40i32);
    let (before, _) = counter.atomic_add(&tile(&[], &[2]), AcqRel, Device);
    assert_eq!(before.elements(), &vec![40]);
    assert_eq!(counter.load(Acquire, Device).0.elements(), &vec![42]);
    counter.store(&tile(&[], &[i32::MAX]), Release, Device);
    counter.atomic_add(&tile(&[], &[1]), AcqRel, Device);
    assert_eq!(counter.load(Acquire, Device).0.elements(), &vec![i32::MIN]);
}

#[test]
fn additions_to_a_global_come_in_any_order() {
    let sum = |numbers: &[i32]| {
        let mut counter = Global::new(i32::MAX);
        for number in numbers {
            counter.atomic_add(&tile(&[], &[*number]), AcqRel, Device);
        }
        counter.load(Acquire, Device).0.elements()[0]
    };
    assert_eq!(sum(&[5, -7]), i32::MAX - 2);
    assert_eq!(sum(&[-7, 5]), i32::MAX - 2);
    assert_ne!(sum(&[5]), i32::MAX);
}

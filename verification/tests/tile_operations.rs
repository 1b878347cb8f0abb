use cutile::dsl::arithmetic::{
    absi, addi, andi, bitcast, ceil_div, cmpi, divi, eq_tile, exti, ge_tile, gt_tile, le_tile,
    lt_tile, max, max_tile, maxi, min, min_tile, mini, mulhii, muli, ne_tile, negi, noti, ori, remi,
    shli, shri, subi, trunci, xori,
};
use cutile::dsl::atomic;
use cutile::dsl::element::{Latency, Pointer32, Pointer8};
use cutile::dsl::integer::IntElement;
use cutile::dsl::layout::{
    broadcast, cat, constant, extract, iota, permute, permute_array, reshape, scalar_to_tile, select,
    tile_to_scalar,
};
use cutile::dsl::matrix::{mma, mmai};
use cutile::dsl::memory::{
    atomic_cas_tko, atomic_rmw_tko, load_ptr_tko, store_ptr_tko, Memory,
};
use cutile::dsl::ordering::{AcqRel, Acquire, Relaxed, Release, Weak};
use cutile::dsl::overflow::{NoSignedWrap, NoWrap, Unspecified};
use cutile::dsl::partition::{
    check_partition_access, get_index_space_shape, num_tiles, AccessError, BlockId, LoadTileLike,
    LoadTileMutAtCurrentBlock, MappedPartitionMut, StoreTileAtCurrentBlock, Tensor,
};
use cutile::dsl::pointer::{
    addptr, addptr_tile, broadcast_ptr, int_to_ptr, pointer_to_tile, ptr_to_int, ptr_to_ptr,
    reshape_ptr, tile_to_pointer, PointerTile,
};
use cutile::dsl::predicate::LessThanOrEqual;
use cutile::dsl::reduction::{
    reduce, reduce_max, reduce_min, reduce_prod, reduce_sum, scan, scan_sum,
};
use cutile::dsl::reverse::{Forward, Reverse};
use cutile::dsl::rounding::{NegativeInf, PositiveInf, Zero};
use cutile::dsl::scope;
use cutile::dsl::signedness::{Signed, Unsigned};
use cutile::dsl::tile::{Array, Shape, Tile};

fn shape(dims: &[i32]) -> Shape {
    Shape::new(dims.to_vec())
}

fn array(dims: &[i32]) -> Array {
    Array::new(dims.to_vec())
}

fn tile<E: IntElement>(dims: &[i32], data: &[E]) -> Tile<E> {
    Tile::from_elements(shape(dims), data.to_vec()).unwrap()
}

fn row<E: IntElement>(data: &[E]) -> Tile<E> {
    tile(&[data.len() as i32], data)
}

#[test]
fn integers_wrap_at_their_width() {
    let a = row(&[100i8, -100, 127]);
    let b = row(&[100i8, -100, 1]);
    assert_eq!(addi(&a, &b, Unspecified).elements(), &vec![-56, 56, -128]);
    assert_eq!(subi(&a, &b, NoSignedWrap).elements(), &vec![0, 0, 126]);
    assert_eq!(muli(&a, &b, Unspecified).elements(), &vec![16, 16, 127]);
    let c = row(&[u64::MAX, 3]);
    let d = row(&[u64::MAX, 5]);
    assert_eq!(muli(&c, &d, Unspecified).elements(), &vec![1, 15]);
    assert_eq!(addi(&c, &d, Unspecified).elements(), &vec![u64::MAX - 1, 8]);
    let e = row(&[i64::MIN, -7]);
    assert_eq!(muli(&e, &e, Unspecified).elements(), &vec![0, 49]);
}

#[test]
fn what_was_added_is_subtracted_again() {
    let a = row(&[250u8, 3, 0]);
    let b = row(&[10u8, 255, 1]);
    let sum = addi(&a, &b, Unspecified);
    assert_eq!(sum.elements(), &vec![4, 2, 1]);
    assert_eq!(subi(&sum, &b, Unspecified).elements(), a.elements());
}

#[test]
fn signs_turn_back() {
    let a = row(&[5i16, -32768, 0]);
    let once = negi(&a, Unspecified);
    assert_eq!(once.elements(), &vec![-5, -32768, 0]);
    assert_eq!(negi(&once, Unspecified).elements(), a.elements());
    assert_eq!(absi(&a).elements(), &vec![5, -32768, 0]);
    assert_eq!(absi(&row(&[-9i32, 9])).elements(), &vec![9, 9]);
}

#[test]
fn quotients_are_rounded() {
    let a = row(&[7i32, -7, 7, -7, 6]);
    let b = row(&[2i32, 2, -2, -2, 3]);
    assert_eq!(divi(&a, &b, Zero).elements(), &vec![3, -3, -3, 3, 2]);
    assert_eq!(divi(&a, &b, PositiveInf).elements(), &vec![4, -3, -3, 4, 2]);
    assert_eq!(divi(&a, &b, NegativeInf).elements(), &vec![3, -4, -4, 3, 2]);
    assert_eq!(remi(&a, &b).elements(), &vec![1, -1, 1, -1, 0]);
    let back = addi(&muli(&b, &divi(&a, &b, Zero), Unspecified), &remi(&a, &b), Unspecified);
    assert_eq!(back.elements(), a.elements());
    assert_eq!(ceil_div(7i32, 2), 4);
    assert_eq!(ceil_div(-7i32, 2), -3);
    assert_eq!(ceil_div(8u32, 2), 4);
}

#[test]
fn operators_work_element_by_element() {
    let pair = || (row(&[12i8, -7, 100]), row(&[10i8, 2, 100]));
    let (a, b) = pair();
    assert_eq!((a + b).elements(), &vec![22, -5, -56]);
    let (a, b) = pair();
    assert_eq!((a - b).elements(), &vec![2, -9, 0]);
    let (a, b) = pair();
    assert_eq!((a * b).elements(), &vec![120, -14, 16]);
    let (a, b) = pair();
    assert_eq!((a / b).elements(), &vec![1, -3, 1]);
    let (a, b) = pair();
    assert_eq!((a % b).elements(), &vec![2, -1, 0]);
    let (a, b) = pair();
    assert_eq!((a & b).elements(), &vec![8, 0, 100]);
    let (a, b) = pair();
    assert_eq!((a | b).elements(), &vec![14, -5, 100]);
    let (a, b) = pair();
    assert_eq!((a ^ b).elements(), &vec![6, -5, 0]);
}

#[test]
fn upper_halves_of_products() {
    let a = row(&[u64::MAX, 1 << 63]);
    let b = row(&[u64::MAX, 6]);
    assert_eq!(mulhii(&a, &b).elements(), &vec![u64::MAX - 1, 3]);
    let c = row(&[-1i32, 1 << 30, -(1 << 30)]);
    let d = row(&[1i32, 8, 8]);
    assert_eq!(mulhii(&c, &d).elements(), &vec![-1, 2, -2]);
}

#[test]
fn extremes_of_two() {
    let a = row(&[1i8, -5, 7]);
    let b = row(&[2i8, -6, 7]);
    assert_eq!(maxi(&a, &b).elements(), &vec![2, -5, 7]);
    assert_eq!(mini(&a, &b).elements(), &vec![1, -6, 7]);
    assert_eq!(max_tile(&a, &b).elements(), &vec![2, -5, 7]);
    assert_eq!(min_tile(&a, &b).elements(), &vec![1, -6, 7]);
    assert_eq!(min(3u16, 4), 3);
    assert_eq!(max(-3i64, -4), -3);
}

#[test]
fn comparisons_are_by_number() {
    let a = row(&[1u8, 200, 3]);
    let b = row(&[2u8, 100, 3]);
    assert_eq!(lt_tile(&a, &b).elements(), &vec![true, false, false]);
    assert_eq!(le_tile(&a, &b).elements(), &vec![true, false, true]);
    assert_eq!(gt_tile(&a, &b).elements(), &vec![false, true, false]);
    assert_eq!(ge_tile(&a, &b).elements(), &vec![false, true, true]);
    assert_eq!(eq_tile(&a, &b).elements(), &vec![false, false, true]);
    assert_eq!(ne_tile(&a, &b).elements(), &vec![true, true, false]);
    assert_eq!(cmpi(&a, &b, LessThanOrEqual).elements(), le_tile(&a, &b).elements());
}

#[test]
fn bits_of_tiles() {
    let a = row(&[0b1100i8, -1]);
    let b = row(&[0b1010i8, 0x0f]);
    assert_eq!(andi(&a, &b).elements(), &vec![0b1000, 0x0f]);
    assert_eq!(ori(&a, &b).elements(), &vec![0b1110, -1]);
    assert_eq!(xori(&a, &b).elements(), &vec![0b0110, -16]);
    assert_eq!(noti(&a).elements(), &vec![-13, 0]);
    assert_eq!(noti(&noti(&a)).elements(), a.elements());
}

#[test]
fn bits_move() {
    let a = row(&[3i8, -128, 64]);
    let by = row(&[2i8, 1, 1]);
    assert_eq!(shli(&a, &by, Unspecified).elements(), &vec![12, 0, -128]);
    assert_eq!(shri(&a, &by).elements(), &vec![0, -64, 32]);
    let u = row(&[0x80u8]);
    assert_eq!(shri(&u, &row(&[7u8])).elements(), &vec![1]);
    assert_eq!(shli(&row(&[1u64]), &row(&[63u64]), Unspecified).elements(), &vec![1 << 63]);
}

#[test]
fn widths_change() {
    let a = row(&[42i16, -1]);
    let wide: Tile<i32> = exti(&a);
    assert_eq!(wide.elements(), &vec![42, -1]);
    let narrow: Tile<i16> = trunci(&wide, NoSignedWrap);
    assert_eq!(narrow.elements(), a.elements());
    let cut: Tile<u8> = trunci(&row(&[0x1ffi32, -1]), Unspecified);
    assert_eq!(cut.elements(), &vec![0xff, 0xff]);
    let bits: Tile<u16> = bitcast(&a);
    assert_eq!(bits.elements(), &vec![42, 0xffff]);
    let back: Tile<i16> = bitcast(&bits);
    assert_eq!(back.elements(), a.elements());
    let unsigned: Tile<u64> = exti(&row(&[200u8]));
    assert_eq!(unsigned.elements(), &vec![200]);
    assert_eq!(addi(&row(&[1u8]), &row(&[2u8]), NoWrap).elements(), &vec![3]);
}

#[test]
fn tiles_are_filled() {
    assert_eq!(iota::<i32>(&shape(&[4])).unwrap().elements(), &vec![0, 1, 2, 3]);
    let long = iota::<u8>(&shape(&[258])).unwrap();
    assert_eq!(long.elements()[257], 1);
    assert!(iota::<i32>(&shape(&[2, 2])).is_none());
    assert_eq!(constant(7i64, &shape(&[2, 1])).unwrap().elements(), &vec![7, 7]);
    assert!(constant(7i64, &shape(&[-2])).is_none());
    let column = tile(&[2, 1], &[1i32, 2]);
    let wide = broadcast(&column, &shape(&[2, 3])).unwrap();
    assert_eq!(wide.elements(), &vec![1, 1, 1, 2, 2, 2]);
    let single = scalar_to_tile(9i32);
    assert_eq!(single.shape().dims, Vec::<i32>::new());
    assert_eq!(tile_to_scalar(&single), 9);
}

#[test]
fn tiles_are_reshaped_and_back() {
    let t = tile(&[2, 3], &[1i32, 2, 3, 4, 5, 6]);
    let long = t.reshape(&shape(&[6])).unwrap();
    assert_eq!(long.elements(), t.elements());
    assert_eq!(long.shape().dims, vec![6]);
    assert_eq!(reshape(&long, &shape(&[2, 3])).unwrap().shape().dims, vec![2, 3]);
    assert!(reshape(&t, &shape(&[4])).is_none());
    assert!(reshape(&t, &shape(&[-2, -3])).is_none());
}

#[test]
fn dimensions_are_reordered_and_back() {
    let t = tile(&[1, 2, 3], &[1i32, 2, 3, 4, 5, 6]);
    let p = permute(&t, &array(&[2, 0, 1])).unwrap();
    assert_eq!(p.shape().dims, vec![3, 1, 2]);
    assert_eq!(p.elements(), &vec![1, 4, 2, 5, 3, 6]);
    let back = permute(&p, &array(&[1, 2, 0])).unwrap();
    assert_eq!(back.shape().dims, vec![1, 2, 3]);
    assert_eq!(back.elements(), t.elements());
    let m = tile(&[2, 2], &[1i32, 2, 3, 4]);
    assert_eq!(permute(&m, &array(&[1, 0])).unwrap().elements(), m.transpose().elements());
    assert!(permute(&m, &array(&[0, 0])).is_none());
    assert_eq!(permute_array(&vec![7, 8, 9], &array(&[2, 0, 1])), Some(vec![9, 7, 8]));
    assert_eq!(permute_array(&vec![7], &array(&[1])), None);
}

#[test]
fn elements_are_selected() {
    let a = row(&[1i32, 2, 3]);
    let b = row(&[10i32, 20, 30]);
    let cond = lt_tile(&row(&[0i32, 5, 0]), &row(&[1i32, 1, 1]));
    assert_eq!(select(&cond, &a, &b).elements(), &vec![1, 20, 3]);
}

#[test]
fn halves_are_taken_back() {
    let a = tile(&[2, 2], &[1i32, 2, 3, 4]);
    let b = tile(&[2, 2], &[5i32, 6, 7, 8]);
    let wide = cat(&a, &b, 1).unwrap();
    assert_eq!(wide.shape().dims, vec![2, 4]);
    assert_eq!(wide.elements(), &vec![1, 2, 5, 6, 3, 4, 7, 8]);
    assert_eq!(extract(&wide, &vec![0, 0], &shape(&[2, 2])).unwrap().elements(), a.elements());
    assert_eq!(extract(&wide, &vec![0, 1], &shape(&[2, 2])).unwrap().elements(), b.elements());
    let tall = cat(&a, &b, 0).unwrap();
    assert_eq!(tall.elements(), &vec![1, 2, 3, 4, 5, 6, 7, 8]);
    assert!(cat(&a, &row(&[1i32]), 0).is_none());
    assert!(cat(&a, &tile(&[1, 2], &[1i32, 2]), 1).is_none());
    assert!(cat(&a, &b, 2).is_none());
    assert!(extract(&wide, &vec![0, 0], &shape(&[2, 3])).is_none());
    assert!(extract(&wide, &vec![0, 2], &shape(&[2, 2])).is_none());
}

#[test]
fn dimensions_are_reduced() {
    let t = tile(&[2, 3], &[1i32, 5, 3, -4, 2, 6]);
    let rows = reduce_sum(&t, 1).unwrap();
    assert_eq!(rows.shape().dims, vec![2]);
    assert_eq!(rows.elements(), &vec![9, 4]);
    assert_eq!(reduce_sum(&t, 0).unwrap().elements(), &vec![-3, 7, 9]);
    assert_eq!(reduce_prod(&t, 1).unwrap().elements(), &vec![15, -48]);
    assert_eq!(reduce_max(&t, 1).unwrap().elements(), &vec![5, 6]);
    assert_eq!(reduce_min(&t, 0).unwrap().elements(), &vec![-4, 2, 3]);
    assert_eq!(reduce_min(&row(&[u8::MAX]), 0).unwrap().elements(), &vec![u8::MAX]);
    assert_eq!(reduce_max(&row(&[i64::MIN]), 0).unwrap().elements(), &vec![i64::MIN]);
    assert_eq!(reduce_sum(&row(&[200u8, 100]), 0).unwrap().elements(), &vec![44]);
    assert!(reduce_sum(&t, 2).is_none());
    assert!(reduce_min(&t, -1).is_none());
    assert!(reduce_max(&row::<i32>(&[]), 0).is_none());
    assert_eq!(reduce_sum(&row::<i32>(&[]), 0).unwrap().elements(), &vec![0]);
    let odd = reduce(&t, 1, 100, |a: i32, b: i32| a - b).unwrap();
    assert_eq!(odd.elements(), &vec![91, 96]);
}

#[test]
fn running_sums_end_with_the_sum() {
    let t = tile(&[2, 3], &[1i32, 5, 3, -4, 2, 6]);
    let sums = scan_sum(&t, 1, Forward, 0).unwrap();
    assert_eq!(sums.elements(), &vec![1, 6, 9, -4, -2, 4]);
    assert_eq!(sums.elements()[2], reduce_sum(&t, 1).unwrap().elements()[0]);
    let back = scan_sum(&t, 1, Reverse, 10).unwrap();
    assert_eq!(back.elements(), &vec![19, 18, 13, 14, 18, 16]);
    let down = scan_sum(&t, 0, Forward, 0).unwrap();
    assert_eq!(down.elements(), &vec![1, 5, 3, -3, 7, 9]);
    assert!(scan_sum(&t, 2, Forward, 0).is_none());
    let greatest = scan(&t, 1, Forward, i32::MIN, |a: i32, b: i32| a.max(b)).unwrap();
    assert_eq!(greatest.elements(), &vec![1, 5, 5, -4, 2, 6]);
}

#[test]
fn matrices_are_multiplied_part_by_part() {
    let a = tile(&[2, 2], &[1i32, 2, 3, 4]);
    let b = tile(&[2, 2], &[5i32, 6, 7, 8]);
    let acc = tile(&[2, 2], &[1i32, 1, 1, 1]);
    assert_eq!(mma(&a, &b, &acc).elements(), &vec![20, 23, 44, 51]);
    let c = tile(&[2, 1], &[-1i32, 2]);
    let d = tile(&[1, 2], &[3i32, 4]);
    let at_once = mma(&cat(&a, &c, 1).unwrap(), &cat(&b, &d, 0).unwrap(), &acc);
    let in_parts = mma(&c, &d, &mma(&a, &b, &acc));
    assert_eq!(at_once.elements(), &vec![17, 19, 50, 59]);
    assert_eq!(in_parts.elements(), at_once.elements());
    let bytes = tile(&[1, 1], &[200u8]);
    let zero = tile(&[1, 1], &[0i32]);
    assert_eq!(mma(&bytes, &bytes, &zero).elements(), &vec![40000]);
    assert_eq!(mmai(&bytes, &bytes, &zero, Signed, Unsigned).elements(), &vec![-11200]);
    assert_eq!(mmai(&bytes, &bytes, &zero, Signed, Signed).elements(), &vec![3136]);
}

#[test]
fn batches_of_matrices_are_multiplied() {
    let a = tile(&[2, 1, 2], &[1i8, 2, -3, 4]);
    let b = tile(&[2, 2, 2], &[5i8, 6, 7, 8, 1, 0, 2, -1]);
    let acc = tile(&[2, 1, 2], &[100i32, 0, 0, 7]);
    let product = mmai(&a, &b, &acc, Signed, Signed);
    assert_eq!(product.elements(), &vec![119, 22, 5, 3]);
    assert_eq!(product.shape().dims, vec![2, 1, 2]);
}

#[test]
fn pointers_are_moved_and_cast() {
    let base: PointerTile<Pointer32> = pointer_to_tile(100);
    assert_eq!(tile_to_pointer(&base), 100);
    let spread = broadcast_ptr(&reshape_ptr(&base, &shape(&[1])).unwrap(), &shape(&[3])).unwrap();
    assert_eq!(spread.addresses(), &vec![100, 100, 100]);
    assert_eq!(addptr(&spread, -1).addresses(), &vec![96, 96, 96]);
    let moved = addptr_tile(&spread, &row(&[0i32, 1, 2]));
    assert_eq!(moved.addresses(), &vec![100, 104, 108]);
    assert!(reshape_ptr(&moved, &shape(&[2])).is_none());
    assert_eq!(moved.reshape(&shape(&[3, 1])).unwrap().addresses(), moved.addresses());
    let numbers: Tile<i64> = ptr_to_int(&moved);
    assert_eq!(numbers.elements(), &vec![100, 104, 108]);
    let back: PointerTile<Pointer32> = int_to_ptr(&numbers);
    assert_eq!(back.addresses(), moved.addresses());
    let high: PointerTile<Pointer8> = int_to_ptr(&row(&[-1i64]));
    assert_eq!(high.addresses(), &vec![u64::MAX]);
    let bytes: PointerTile<Pointer8> = ptr_to_ptr(&moved);
    assert_eq!(addptr(&bytes, 1).addresses(), &vec![101, 105, 109]);
}

fn counted(rows: i32, columns: i32) -> Tensor<i32> {
    let data = (0..rows * columns).collect::<Vec<i32>>();
    Tensor::from_elements(shape(&[rows, columns]), data, shape(&[rows, columns])).unwrap()
}

#[test]
fn partitions_are_counted() {
    let tensor = counted(3, 5);
    let part = tensor.partition(&shape(&[2, 2])).unwrap();
    assert_eq!(num_tiles(&part, 0), Some(2));
    assert_eq!(num_tiles(&part, 1), Some(3));
    assert_eq!(num_tiles(&part, 2), None);
    assert_eq!(get_index_space_shape(&part), vec![2, 3]);
    assert_eq!(check_partition_access(&part, &vec![1, 2]), Ok(()));
    assert_eq!(check_partition_access(&part, &vec![1, 3]), Err(AccessError::OutOfBounds));
    assert_eq!(check_partition_access(&part, &vec![-1, 0]), Err(AccessError::OutOfBounds));
}

#[test]
fn stores_to_other_tiles_leave_a_tile() {
    let mut part = counted(4, 4).partition_full_mut(shape(&[2, 2])).unwrap();
    assert!(part.store(&tile(&[2, 2], &[1i32, 2, 3, 4]), &vec![0, 1]).is_ok());
    assert!(part.store(&tile(&[2, 2], &[9i32, 9, 9, 9]), &vec![1, 0]).is_ok());
    assert_eq!(part.load(&vec![0, 1]).ok().unwrap().elements(), &vec![1, 2, 3, 4]);
    assert_eq!(part.load(&vec![2, 0]).err(), Some(AccessError::OutOfBounds));
    let wrong = part.store(&tile(&[1, 2], &[1i32, 2]), &vec![0, 0]);
    assert_eq!(wrong.err(), Some(AccessError::Shape));
    let tensor = part.into_tensor();
    assert_eq!(
        tensor.elements(),
        &vec![0, 1, 1, 2, 4, 5, 3, 4, 9, 9, 10, 11, 9, 9, 14, 15]
    );
    let edge = counted(3, 3).partition_full_mut(shape(&[2, 2])).unwrap();
    let loaded = edge.load(&vec![1, 0]).ok().unwrap();
    assert_eq!(loaded.elements()[..2], [6, 7]);
    assert_eq!(loaded.elements().len(), 4);
}

#[test]
fn tensors_are_loaded_and_stored_by_block() {
    let data = (0..8).collect::<Vec<i32>>();
    let mut tensor = Tensor::from_elements(shape(&[2, 4]), data, shape(&[1, 2])).unwrap();
    let block = BlockId { x: 1, y: 0, z: 0 };
    assert_eq!(tensor.load(block).ok().unwrap().elements(), &vec![4, 5]);
    assert_eq!(tensor.store(&tile(&[1, 2], &[40i32, 50]), block), Ok(()));
    assert_eq!(tensor.load(block).ok().unwrap().elements(), &vec![40, 50]);
    assert_eq!(tensor.elements(), &vec![0, 1, 2, 3, 40, 50, 6, 7]);
    let source = counted(2, 4);
    let like = source.load_tile_like(&tensor, block).ok().unwrap();
    assert_eq!(like.elements(), &vec![4, 5]);
    let far = BlockId { x: 2, y: 0, z: 0 };
    assert!(tensor.load(far).is_err());
    assert!(tensor.store(&tile(&[1, 2], &[0i32, 0]), far).is_err());
}

#[test]
fn schedules_of_two_blocks_do_not_meet() {
    let mut part = MappedPartitionMut::new(counted(2, 4), shape(&[1, 2])).unwrap();
    let first = part.iter_indices(0, 2).indices;
    let second = part.iter_indices(1, 2).indices;
    for a in &first {
        for b in &second {
            assert_ne!(a.components(), b.components());
        }
    }
    for index in &first {
        assert!(part.store(&tile(&[1, 2], &[7i32, 7]), index).is_ok());
    }
    let tensor = part.into_tensor();
    let mut full = counted(2, 4).partition_full_mut(shape(&[1, 2])).unwrap();
    for index in &second {
        assert!(full.store_index(&tile(&[1, 2], &[7i32, 7]), index).is_ok());
    }
    let other = full.into_tensor();
    for at in 0..8 {
        let stored = (tensor.elements()[at], other.elements()[at]);
        assert!(stored == (7, at as i32) || stored == (at as i32, 7));
    }
}

fn memory(cells: &[i32]) -> Memory<Pointer32, i32> {
    Memory::new(0x1000, cells.to_vec()).unwrap()
}

fn places(numbers: &[u64]) -> PointerTile<Pointer32> {
    let mut addresses: Vec<u64> = Vec::new();
    for number in numbers {
        addresses.push(0x1000 + 4 * number);
    }
    PointerTile::from_addresses(shape(&[numbers.len() as i32]), addresses).unwrap()
}

fn mask(lanes: &[bool]) -> Tile<bool> {
    Tile::from_elements(shape(&[lanes.len() as i32]), lanes.to_vec()).unwrap()
}

fn load(
    memory: &Memory<Pointer32, i32>,
    source: &PointerTile<Pointer32>,
    mask: Option<&Tile<bool>>,
    padding: Option<i32>,
) -> Result<Vec<i32>, AccessError> {
    match load_ptr_tko(
        memory,
        source,
        Weak,
        None::<scope::TileBlock>,
        mask,
        padding,
        None,
        Latency::<0>,
    ) {
        Ok((tile, _)) => Ok(tile.elements().clone()),
        Err(error) => Err(error),
    }
}

fn change<M: atomic::Mode>(memory: &mut Memory<Pointer32, i32>, arg: i32, mode: M) -> (i32, i32) {
    let at = places(&[0]);
    let arg = row(&[arg]);
    let (before, _) =
        atomic_rmw_tko(memory, &at, &arg, mode, Relaxed, scope::Device, None, None).unwrap();
    (before.elements()[0], memory.cells()[0])
}

#[test]
fn elements_are_gathered() {
    let memory = memory(&[10, 11, 12, 13]);
    assert_eq!(load(&memory, &places(&[3, 0, 0]), None, None), Ok(vec![13, 10, 10]));
    let some = mask(&[true, false, true]);
    assert_eq!(load(&memory, &places(&[1, 99, 2]), Some(&some), Some(-1)), Ok(vec![11, -1, 12]));
    let unpadded = load(&memory, &places(&[1, 99, 2]), Some(&some), None).ok().unwrap();
    assert_eq!((unpadded.len(), unpadded[0], unpadded[2]), (3, 11, 12));
    assert_eq!(load(&memory, &places(&[1, 4]), None, None), Err(AccessError::OutOfBounds));
    let before = PointerTile::from_addresses(shape(&[1]), vec![0xffc]).unwrap();
    assert_eq!(load(&memory, &before, None, None), Err(AccessError::OutOfBounds));
    let between = PointerTile::from_addresses(shape(&[1]), vec![0x1002]).unwrap();
    assert_eq!(load(&memory, &between, None, None), Err(AccessError::OutOfBounds));
}

#[test]
fn memory_needs_addresses() {
    assert!(Memory::<Pointer32, i32>::new(u64::MAX - 3, vec![1]).is_some());
    assert!(Memory::<Pointer32, i32>::new(u64::MAX - 3, vec![1, 2]).is_none());
    assert!(Memory::<Pointer32, i32>::new(u64::MAX, vec![]).is_some());
}

#[test]
fn scattered_values_are_gathered_again() {
    let mut memory = memory(&[0, 0, 0, 0, 0]);
    let at = places(&[4, 1, 2]);
    let values = row(&[7, 8, 9]);
    assert!(store_ptr_tko(
        &mut memory,
        &at,
        &values,
        Release,
        Some(scope::System),
        None,
        None,
        Latency::<2>,
    )
    .is_ok());
    assert_eq!(memory.cells(), &vec![0, 8, 9, 0, 7]);
    assert_eq!(load(&memory, &at, None, None), Ok(vec![7, 8, 9]));
    let some = mask(&[false, true, false]);
    assert!(store_ptr_tko(
        &mut memory,
        &places(&[99, 0, 99]),
        &values,
        Weak,
        None::<scope::Device>,
        Some(&some),
        None,
        Latency::<0>,
    )
    .is_ok());
    assert_eq!(memory.cells(), &vec![8, 8, 9, 0, 7]);
    assert!(matches!(
        store_ptr_tko(
            &mut memory,
            &places(&[0, 1, 5]),
            &values,
            Weak,
            None::<scope::Device>,
            None,
            None,
            Latency::<0>,
        ),
        Err(AccessError::OutOfBounds)
    ));
    assert_eq!(memory.cells(), &vec![8, 8, 9, 0, 7]);
}

#[test]
fn elements_are_changed_in_place() {
    let mut memory = memory(&[12, 5]);
    assert_eq!(change(&mut memory, 3, atomic::Add), (12, 15));
    assert_eq!(change(&mut memory, 6, atomic::And), (15, 6));
    assert_eq!(change(&mut memory, 8, atomic::Or), (6, 14));
    assert_eq!(change(&mut memory, 3, atomic::Xor), (14, 13));
    assert_eq!(change(&mut memory, -1, atomic::Max), (13, 13));
    assert_eq!(change(&mut memory, -1, atomic::Umin), (13, 13));
    assert_eq!(change(&mut memory, -1, atomic::Umax), (13, -1));
    assert_eq!(change(&mut memory, 4, atomic::Min), (-1, -1));
    assert_eq!(change(&mut memory, 4, atomic::Umin), (-1, 4));
    assert_eq!(change(&mut memory, -7, atomic::Min), (4, -7));
    assert_eq!(change(&mut memory, 2, atomic::Max), (-7, 2));
    assert_eq!(change(&mut memory, i32::MAX, atomic::Xchg), (2, i32::MAX));
    assert_eq!(change(&mut memory, 1, atomic::Add), (i32::MAX, i32::MIN));
    assert_eq!(memory.cells()[1], 5);
}

#[test]
fn additions_to_one_element_add_up() {
    let mut memory = memory(&[100, 50]);
    let at = places(&[0, 0, 0, 1]);
    let arg = row(&[1, 2, 3, 4]);
    let some = mask(&[true, true, true, false]);
    let (before, _) = atomic_rmw_tko(
        &mut memory,
        &at,
        &arg,
        atomic::Add,
        AcqRel,
        scope::TileBlock,
        Some(&some),
        None,
    )
    .unwrap();
    assert_eq!(before.elements()[..3].iter().min(), Some(&100));
    assert_eq!(memory.cells(), &vec![106, 50]);
    assert!(matches!(
        atomic_rmw_tko(
            &mut memory,
            &places(&[0, 0, 0, 2]),
            &arg,
            atomic::Add,
            AcqRel,
            scope::TileBlock,
            None,
            None,
        ),
        Err(AccessError::OutOfBounds)
    ));
    assert_eq!(memory.cells(), &vec![106, 50]);
}

#[test]
fn elements_are_compared_and_swapped() {
    let mut memory = memory(&[1, 2, 3]);
    let at = places(&[0, 1, 2, 2]);
    let wanted = row(&[1, 5, 3, 3]);
    let value = row(&[10, 20, 30, 40]);
    let (before, _) =
        atomic_cas_tko(&mut memory, &at, &wanted, &value, Acquire, scope::System, None, None)
            .unwrap();
    assert_eq!(before.elements()[..2], [1, 2]);
    assert_eq!(memory.cells()[..2], [10, 2]);
    let last = memory.cells()[2];
    let found = (before.elements()[2], before.elements()[3]);
    assert!((last == 30 && found == (3, 30)) || (last == 40 && found == (40, 3)));
    let outside = places(&[0, 1, 2, 3]);
    assert!(matches!(
        atomic_cas_tko(&mut memory, &outside, &wanted, &value, Acquire, scope::System, None, None),
        Err(AccessError::OutOfBounds)
    ));
    assert_eq!(memory.cells(), &vec![10, 2, last]);
}

#[test]
fn blocks_divide_their_tiles() {
    let data = (0..16).collect::<Vec<i32>>();
    let tensor = Tensor::from_elements(shape(&[2, 8]), data, shape(&[1, 4])).unwrap();
    let mut part = tensor.partition_mut(shape(&[1, 2]), BlockId { x: 1, y: 1, z: 0 }).ok().unwrap();
    assert_eq!(part.load(&vec![0, 0]).ok().unwrap().elements(), &vec![12, 13]);
    assert_eq!(part.load(&vec![0, 1]).ok().unwrap().elements(), &vec![14, 15]);
    assert_eq!(part.load(&vec![-1, -2]).ok().unwrap().elements(), &vec![0, 1]);
    assert_eq!(part.load(&vec![0, 2]).err(), Some(AccessError::OutOfBounds));
    assert_eq!(part.load(&vec![i32::MAX, 0]).err(), Some(AccessError::OutOfBounds));
    assert!(part.store(&tile(&[1, 2], &[-1i32, -2]), &vec![0, 1]).is_ok());
    let tensor = part.into_tensor();
    assert_eq!(
        tensor.elements(),
        &vec![0, 1, 2, 3, 4, 5, 6, 7, 8, 9, 10, 11, 12, 13, -1, -2]
    );
    let first = tensor.partition_mut(shape(&[1, 2]), BlockId { x: 0, y: 0, z: 0 }).ok().unwrap();
    assert_eq!(first.load(&vec![0, 1]).ok().unwrap().elements(), &vec![2, 3]);
    let rest = first.into_tensor().partition_mut(shape(&[1, 3]), BlockId { x: 0, y: 0, z: 0 });
    assert_eq!(rest.err(), Some(AccessError::Shape));
    let scalar = Tensor::from_elements(shape(&[]), vec![1i32], shape(&[])).unwrap();
    let none = scalar.partition_mut(shape(&[]), BlockId { x: 0, y: 0, z: 0 });
    assert_eq!(none.err(), Some(AccessError::Rank));
}

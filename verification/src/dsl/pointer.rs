//! Tiles of pointers, and memory that a module declares.
use crate::dsl::arithmetic::{self, map_tile};
use crate::dsl::element::{ElementType, OffsetElement, Pointer, SumElement, Token};
use crate::dsl::integer::{self, to_bits, wrap_parts, IntElement};
use crate::dsl::lanes;
use crate::dsl::layout::{self, tile_to_scalar};
use crate::dsl::ordering;
use crate::dsl::scope;
use crate::dsl::tile::{self, Shape, Tile, TileView};
use std::marker::PhantomData;
use vstd::prelude::*;

verus! {

/// A tile of addresses.
pub struct PointerTile<P> {
    addresses: Tile<u64>,
    pointee: PhantomData<P>,
}

impl<P> View for PointerTile<P> {
    type V = TileView<u64>;

    closed spec fn view(&self) -> TileView<u64> {
        self.addresses@
    }
}

/// The number of addresses.
pub open spec fn address_space() -> int {
    0x1_0000_0000_0000_0000
}

/// An address moved by so many elements of a width, in the arithmetic of addresses.
pub open spec fn moved(address: u64, offset: int, width: u64) -> u64 {
    ((address + offset * width) % address_space()) as u64
}

/// Moving an address twice is moving it by the sum.
pub proof fn moves_add_up(address: u64, first: int, second: int, width: u64)
    ensures
        moved(moved(address, first, width), second, width) == moved(address, first + second, width),
        moved(address, 0, width) == address,
{
    let m = address_space();
    let a = address as int;
    let w = width as int;
    assert((first + second) * w == first * w + second * w) by (nonlinear_arith);
    vstd::arithmetic::div_mod::lemma_mod_bound(a + first * w, m);
    vstd::arithmetic::div_mod::lemma_add_mod_noop(a + first * w, second * w, m);
    vstd::arithmetic::div_mod::lemma_add_mod_noop((a + first * w) % m, second * w, m);
    vstd::arithmetic::div_mod::lemma_mod_twice(a + first * w, m);
    assert(0 * w == 0);
    vstd::arithmetic::div_mod::lemma_small_mod(address as nat, m as nat);
}

fn move_address(address: u64, offset: i64, width: u64) -> (r: u64)
    ensures
        r == moved(address, offset as int, width),
{
    let bits = offset as u64;
    let ghost m = address_space();
    let ghost o = offset as int;
    let ghost w = width as int;
    assert(bits == o || bits == o + m) by {
        assert(offset >= 0 ==> offset as u64 == offset) by (bit_vector);
        assert(offset < 0 ==> offset as u64 == offset + 0x1_0000_0000_0000_0000) by (bit_vector);
    }
    let step = bits.wrapping_mul(width);
    let r = address.wrapping_add(step);
    proof {
        let b = bits as int;
        assert(step as int == (b * w) % m) by {
            wrapped_product(bits, width);
        }
        assert((b * w) % m == (o * w) % m) by {
            if b == o + m {
                assert(b * w == o * w + m * w) by (nonlinear_arith)
                    requires
                        b == o + m,
                ;
                vstd::arithmetic::div_mod::lemma_mod_multiples_vanish(w, o * w, m);
                assert(m * w + o * w == o * w + m * w);
            }
        }
        assert(r as int == (address + step) % m) by {
            wrapped_sum(address, step);
        }
        vstd::arithmetic::div_mod::lemma_add_mod_noop_right(address as int, o * w, m);
    }
    r
}

proof fn wrapped_product(a: u64, b: u64)
    ensures
        a.wrapping_mul(b) as int == (a * b) % address_space(),
{
    let product = a * b;
    assert(0 <= product) by (nonlinear_arith)
        requires
            product == a * b,
            0 <= a,
            0 <= b,
    ;
    assert(a.wrapping_mul(b) as int == product % address_space());
}

proof fn wrapped_sum(a: u64, b: u64)
    ensures
        a.wrapping_add(b) as int == (a + b) % address_space(),
{
    if a + b < address_space() {
        vstd::arithmetic::div_mod::lemma_small_mod((a + b) as nat, address_space() as nat);
    } else {
        vstd::arithmetic::div_mod::lemma_mod_sub_multiples_vanish((a + b) as int, address_space());
        vstd::arithmetic::div_mod::lemma_small_mod(
            (a + b - address_space()) as nat,
            address_space() as nat,
        );
    }
}

impl<P: Pointer> PointerTile<P> {
    /// A tile of these addresses, where there is one for every position.
    pub fn from_addresses(shape: Shape, addresses: Vec<u64>) -> (r: Option<PointerTile<P>>)
        ensures
            r is Some <==> tile::fits(shape@) && addresses@.len() == lanes::size_of(shape@),
            r matches Some(pointers) ==> pointers@.wf() && pointers@ == (TileView {
                dims: shape@,
                data: addresses@,
            }),
    {
        match Tile::from_elements(shape, addresses) {
            Some(addresses) => Some(PointerTile { addresses, pointee: PhantomData }),
            None => None,
        }
    }

    /// The addresses, the last dimension running fastest.
    pub fn addresses(&self) -> (r: &Vec<u64>)
        ensures
            r@ == self@.data,
    {
        self.addresses.elements()
    }

    /// The dimensions.
    pub fn shape(&self) -> (r: Shape)
        ensures
            r@ == self@.dims,
    {
        self.addresses.shape()
    }

    /// Moves each pointer by its own number of elements.
    pub fn offset_tile<I: OffsetElement>(&self, offset: &Tile<I>) -> (r: PointerTile<P>)
        requires
            self@.wf(),
            offset@.wf(),
            offset@.dims == self@.dims,
        ensures
            r@.wf(),
            r@.dims == self@.dims,
            forall|i: int|
                0 <= i < self@.data.len() ==> #[trigger] r@.data[i] == moved(
                    self@.data[i],
                    offset@.data[i].offset_spec(),
                    P::width_spec(),
                ),
    {
        let width = P::width();
        let from = self.addresses.elements();
        let by = offset.elements();
        let mut data: Vec<u64> = Vec::new();
        while data.len() < from.len()
            invariant
                data@.len() <= from@.len(),
                from@ == self@.data,
                by@ == offset@.data,
                by@.len() == from@.len(),
                width == P::width_spec(),
                forall|i: int|
                    0 <= i < data@.len() ==> #[trigger] data@[i] == moved(
                        from@[i],
                        by@[i].offset_spec(),
                        width,
                    ),
            decreases from@.len() - data@.len(),
        {
            let i: usize = data.len();
            let element = by[i];
            data.push(move_address(from[i], element.to_offset(), width));
        }
        let shape = self.addresses.shape();
        PointerTile { addresses: Tile::build(shape, data), pointee: PhantomData }
    }

    /// Moves all pointers by the same number of elements.
    pub fn offset(&self, offset: i32) -> (r: PointerTile<P>)
        requires
            self@.wf(),
        ensures
            r@.wf(),
            r@.dims == self@.dims,
            forall|i: int|
                0 <= i < self@.data.len() ==> #[trigger] r@.data[i] == moved(
                    self@.data[i],
                    offset as int,
                    P::width_spec(),
                ),
    {
        let width = P::width();
        let from = self.addresses.elements();
        let mut data: Vec<u64> = Vec::new();
        while data.len() < from.len()
            invariant
                data@.len() <= from@.len(),
                from@ == self@.data,
                width == P::width_spec(),
                forall|i: int|
                    0 <= i < data@.len() ==> #[trigger] data@[i] == moved(
                        from@[i],
                        offset as int,
                        width,
                    ),
            decreases from@.len() - data@.len(),
        {
            let i: usize = data.len();
            data.push(move_address(from[i], offset as i64, width));
        }
        let shape = self.addresses.shape();
        PointerTile { addresses: Tile::build(shape, data), pointee: PhantomData }
    }

    /// Broadcasts the pointers to other dimensions, where they allow it.
    pub fn broadcast(&self, shape: &Shape) -> (r: Option<PointerTile<P>>)
        requires
            self@.wf(),
        ensures
            r is Some <==> tile::broadcasts(self@.dims, shape@) && tile::fits(shape@),
            r matches Some(pointers) ==> pointers@.wf() && pointers@ == tile::broadcast_view(
                self@,
                shape@,
            ),
    {
        match self.addresses.broadcast(shape) {
            Some(addresses) => Some(PointerTile { addresses, pointee: PhantomData }),
            None => None,
        }
    }
}

impl<P: Pointer> PointerTile<P> {
    /// Gives the pointers other dimensions, where there are as many.
    pub fn reshape(&self, shape: &Shape) -> (r: Option<PointerTile<P>>)
        requires
            self@.wf(),
        ensures
            r is Some <==> layout::reshapes(self@, shape@),
            r matches Some(pointers) ==> pointers@.wf() && pointers@ == layout::reshaped(
                self@,
                shape@,
            ),
    {
        match self.addresses.reshape(shape) {
            Some(addresses) => Some(PointerTile { addresses, pointee: PhantomData }),
            None => None,
        }
    }
}

/// The tile of no dimensions that holds a pointer.
pub fn pointer_to_tile<P: Pointer>(ptr: u64) -> (r: PointerTile<P>)
    ensures
        r@.wf(),
        r@ == single(ptr),
{
    PointerTile { addresses: make_single(ptr), pointee: PhantomData }
}

/// The pointer in a tile of no dimensions.
pub fn tile_to_pointer<P: Pointer>(tile: &PointerTile<P>) -> (r: u64)
    requires
        tile@.wf(),
        tile@.dims.len() == 0,
    ensures
        tile@ == single(r),
{
    tile_to_scalar(&tile.addresses)
}

/// Moves all pointers by the same number of elements.
pub fn addptr<P: Pointer>(ptr: &PointerTile<P>, offset: i32) -> (r: PointerTile<P>)
    requires
        ptr@.wf(),
    ensures
        r@.wf(),
        r@.dims == ptr@.dims,
        forall|i: int|
            0 <= i < ptr@.data.len() ==> #[trigger] r@.data[i] == moved(
                ptr@.data[i],
                offset as int,
                P::width_spec(),
            ),
{
    ptr.offset(offset)
}

/// Moves each pointer by its own number of elements.
pub fn addptr_tile<I: OffsetElement, P: Pointer>(
    ptr: &PointerTile<P>,
    offset: &Tile<I>,
) -> (r: PointerTile<P>)
    requires
        ptr@.wf(),
        offset@.wf(),
        offset@.dims == ptr@.dims,
    ensures
        r@.wf(),
        r@.dims == ptr@.dims,
        forall|i: int|
            0 <= i < ptr@.data.len() ==> #[trigger] r@.data[i] == moved(
                ptr@.data[i],
                offset@.data[i].offset_spec(),
                P::width_spec(),
            ),
{
    ptr.offset_tile(offset)
}

/// Broadcasts pointers to other dimensions, where they allow it.
pub fn broadcast_ptr<P: Pointer>(source: &PointerTile<P>, shape: &Shape) -> (r: Option<
    PointerTile<P>,
>)
    requires
        source@.wf(),
    ensures
        r is Some <==> tile::broadcasts(source@.dims, shape@) && tile::fits(shape@),
        r matches Some(pointers) ==> pointers@.wf() && pointers@ == tile::broadcast_view(
            source@,
            shape@,
        ),
{
    source.broadcast(shape)
}

/// Gives pointers other dimensions, where there are as many.
pub fn reshape_ptr<P: Pointer>(source: &PointerTile<P>, shape: &Shape) -> (r: Option<
    PointerTile<P>,
>)
    requires
        source@.wf(),
    ensures
        r is Some <==> layout::reshapes(source@, shape@),
        r matches Some(pointers) ==> pointers@.wf() && pointers@ == layout::reshaped(
            source@,
            shape@,
        ),
{
    source.reshape(shape)
}

/// The integers of a tile as addresses.
pub fn int_to_ptr<I: IntElement, P: Pointer>(source: &Tile<I>) -> (r: PointerTile<P>)
    requires
        source@.wf(),
    ensures
        r@.wf(),
        r@ == arithmetic::mapped(source@, |a: I| integer::bits_of(a) as u64),
{
    let change = |a: I| -> (r: u64)
        ensures
            r == integer::bits_of(a) as u64,
        { to_bits(a) };
    let addresses = map_tile(source, change);
    assert(addresses@.data =~= arithmetic::mapped(
        source@,
        |a: I| integer::bits_of(a) as u64,
    ).data);
    PointerTile { addresses, pointee: PhantomData }
}

/// The addresses of a tile as integers.
pub fn ptr_to_int<I: IntElement, P: Pointer>(source: &PointerTile<P>) -> (r: Tile<I>)
    requires
        source@.wf(),
    ensures
        r@.wf(),
        r@ == arithmetic::mapped(source@, |a: u64| integer::wrapped::<I>(a as int)),
{
    let change = |a: u64| -> (r: I)
        ensures
            r == integer::wrapped::<I>(a as int),
        { wrap_parts(false, a as u128) };
    let r = map_tile(&source.addresses, change);
    assert(r@.data =~= arithmetic::mapped(
        source@,
        |a: u64| integer::wrapped::<I>(a as int),
    ).data);
    r
}

/// The same addresses, of what has another type.
pub fn ptr_to_ptr<P: Pointer, Q: Pointer>(source: &PointerTile<P>) -> (r: PointerTile<Q>)
    requires
        source@.wf(),
    ensures
        r@ == source@,
{
    let change = |a: u64| -> (r: u64)
        ensures
            r == a,
        { a };
    let addresses = map_tile(&source.addresses, change);
    assert(addresses@.data =~= source@.data);
    PointerTile { addresses, pointee: PhantomData }
}

/// Addresses that are read as integers of the same width and back are the same.
pub proof fn addresses_are_cast_back(source: TileView<u64>)
    requires
        source.wf(),
    ensures
        arithmetic::mapped(
            arithmetic::mapped(source, |a: u64| integer::wrapped::<i64>(a as int)),
            |a: i64| integer::bits_of(a) as u64,
        ) == source,
{
    let once = arithmetic::mapped(source, |a: u64| integer::wrapped::<i64>(a as int));
    let twice = arithmetic::mapped(once, |a: i64| integer::bits_of(a) as u64);
    assert forall|i: int| 0 <= i < source.data.len() implies twice.data[i] == source.data[i] by {
        integer::wrapped_has_the_remainder::<i64>(source.data[i] as int);
    }
    assert(twice.data =~= source.data);
}

// Memory of a module.

/// Memory that a module declares: one element that kernels load and store.
pub struct Global<E> {
    value: E,
}

/// The tile of no dimensions that holds an element.
pub open spec fn single<E>(value: E) -> TileView<E> {
    TileView { dims: Seq::empty(), data: seq![value] }
}

impl<E> Global<E> {
    /// The element in memory.
    pub closed spec fn held(&self) -> E {
        self.value
    }
}

pub(crate) fn make_single<E: ElementType>(value: E) -> (r: Tile<E>)
    ensures
        r@.wf(),
        r@ == single(value),
{
    let mut data: Vec<E> = Vec::new();
    data.push(value);
    let dims: Vec<i32> = Vec::new();
    assert(lanes::size_of(dims@) == 1);
    assert(data@ =~= seq![value]);
    assert(dims@ =~= Seq::empty());
    Tile::build(Shape { dims }, data)
}

impl<E: SumElement> Global<E> {
    /// Declares memory with what it holds at first.
    pub fn new(value: E) -> (r: Global<E>)
        ensures
            r.held() == value,
    {
        Global { value }
    }

    /// Loads the element.
    pub fn load<O: ordering::LoadMode, S: scope::Mode>(
        &self,
        memory_ordering: O,
        memory_scope: S,
    ) -> (r: (
        Tile<E>,
        Token,
    ))
        ensures
            r.0@.wf(),
            r.0@ == single(self.held()),
    {
        (make_single(self.value), Token {  })
    }

    /// Stores an element.
    pub fn store<O: ordering::StoreMode, S: scope::Mode>(
        &mut self,
        value: &Tile<E>,
        memory_ordering: O,
        memory_scope: S,
    ) -> (r: Token)
        requires
            value@.wf(),
            value@.dims.len() == 0,
        ensures
            final(self).held() == value@.data[0],
    {
        assert(lanes::size_of(value@.dims) == 1);
        self.value = value.elements()[0];
        Token {  }
    }

    /// Adds to the element, and gives what it was before.
    pub fn atomic_add<O: ordering::AtomicMode, S: scope::Mode>(
        &mut self,
        value: &Tile<E>,
        memory_ordering: O,
        memory_scope: S,
    ) -> (r: (Tile<E>, Token))
        requires
            value@.wf(),
            value@.dims.len() == 0,
        ensures
            r.0@.wf(),
            r.0@ == single(old(self).held()),
            final(self).held() == old(self).held().sum_spec(value@.data[0]),
    {
        assert(lanes::size_of(value@.dims) == 1);
        let before = make_single(self.value);
        let added: E = value.elements()[0];
        self.value = self.value.sum(added);
        (before, Token {  })
    }
}

/// Two additions to an element leave the same value in either order. Where neither adds zero, only
/// the first of them finds what the element was before both.
pub proof fn additions_meet<E: SumElement>(held: E, v: E, w: E)
    ensures
        held.sum_spec(v).sum_spec(w) == held.sum_spec(w).sum_spec(v),
        v != E::zero_spec() ==> held.sum_spec(v) != held,
        w != E::zero_spec() ==> held.sum_spec(w) != held,
{
    E::sums_meet(held, v, w);
    if v != E::zero_spec() {
        E::sum_differs(held, v);
    }
    if w != E::zero_spec() {
        E::sum_differs(held, w);
    }
}

} // verus!

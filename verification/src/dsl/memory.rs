//! Memory that pointers lead to: tiles are gathered from it and scattered to it.
use crate::dsl::arithmetic::{self, add_elements, and_elements, or_elements, xor_elements};
use crate::dsl::atomic::{self, Change};
use crate::dsl::element::{ElementType, Latency, Pointer, Token};
use crate::dsl::integer::{self, to_bits, IntElement};
use crate::dsl::ordering;
use crate::dsl::partition::AccessError;
use crate::dsl::pointer::{self, PointerTile};
use crate::dsl::reduction;
use crate::dsl::scope;
use crate::dsl::signedness::{self, read_element};
use crate::dsl::tile::{Tile, TileView};
use std::marker::PhantomData;
use vstd::prelude::*;

verus! {

/// Elements that lie one behind the other from an address on.
pub struct Memory<P, E> {
    base: u64,
    cells: Vec<E>,
    pointee: PhantomData<P>,
}

/// Where memory starts, and its elements.
pub struct MemoryView<E> {
    pub base: u64,
    pub cells: Seq<E>,
}

impl<P, E> View for Memory<P, E> {
    type V = MemoryView<E>;

    closed spec fn view(&self) -> MemoryView<E> {
        MemoryView { base: self.base, cells: self.cells@ }
    }
}

/// Whether so many elements of a width have addresses from one on.
pub open spec fn has_addresses(base: u64, count: nat, width: u64) -> bool {
    width >= 1 && base + count * width <= pointer::address_space()
}

/// The element that an address is that of, where it is the address of one.
pub open spec fn cell_of(base: u64, count: nat, width: u64, address: u64) -> Option<int> {
    let away = address - base;
    if away >= 0 && away % (width as int) == 0 && away / (width as int) < count {
        Some(away / (width as int))
    } else {
        None
    }
}

/// The elements in a mask, where there is one.
pub open spec fn mask_of(mask: Option<&Tile<bool>>) -> Option<TileView<bool>> {
    match mask {
        Some(mask) => Some(mask@),
        None => None,
    }
}

/// Whether a mask is one for so many dimensions.
pub open spec fn masks(mask: Option<TileView<bool>>, dims: Seq<i32>) -> bool {
    match mask {
        Some(mask) => mask.wf() && mask.dims == dims,
        None => true,
    }
}

/// Whether a lane takes part.
pub open spec fn takes_part(mask: Option<TileView<bool>>, lane: int) -> bool {
    match mask {
        Some(mask) => mask.data[lane],
        None => true,
    }
}

/// The elements that the lanes that take part lead to.
pub open spec fn places<E>(
    memory: MemoryView<E>,
    width: u64,
    pointers: Seq<u64>,
    mask: Option<TileView<bool>>,
) -> Seq<Option<int>> {
    Seq::new(
        pointers.len(),
        |i: int|
            if takes_part(mask, i) {
                cell_of(memory.base, memory.cells.len(), width, pointers[i])
            } else {
                None
            },
    )
}

/// Whether every lane that takes part leads to an element.
pub open spec fn all_lead<E>(
    memory: MemoryView<E>,
    width: u64,
    pointers: Seq<u64>,
    mask: Option<TileView<bool>>,
) -> bool {
    forall|i: int|
        0 <= i < pointers.len() && takes_part(mask, i) ==> cell_of(
            memory.base,
            memory.cells.len(),
            width,
            #[trigger] pointers[i],
        ) is Some
}

/// Whether a number that was found is that of one of so many elements.
pub open spec fn is_place(found: Option<usize>, place: Option<int>, count: nat) -> bool {
    match (found, place) {
        (Some(at), Some(place)) => at == place && 0 <= place < count,
        (None, None) => true,
        _ => false,
    }
}

/// Whether all places are those of one of so many elements.
pub open spec fn are_places(places: Seq<Option<int>>, count: nat) -> bool {
    forall|i: int|
        0 <= i < places.len() ==> (#[trigger] places[i] matches Some(at) ==> 0 <= at < count)
}

/// The elements after lanes have each changed the one that they lead to, in an order.
pub open spec fn changed<E>(
    cells: Seq<E>,
    places: Seq<Option<int>>,
    change: spec_fn(int, E) -> E,
    order: Seq<int>,
) -> Seq<E>
    decreases order.len(),
{
    if order.len() == 0 {
        cells
    } else {
        let before = changed(cells, places, change, order.drop_last());
        match places[order.last()] {
            Some(at) => before.update(at, change(order.last(), before[at])),
            None => before,
        }
    }
}

/// Whether lanes are an order of so many, each of which comes once.
pub open spec fn is_order(order: Seq<int>, count: nat) -> bool {
    &&& order.len() == count
    &&& order.no_duplicates()
    &&& forall|k: int| 0 <= k < count ==> 0 <= #[trigger] order[k] < count
    &&& forall|lane: int| 0 <= lane < count ==> #[trigger] order.contains(lane)
}

/// Whether elements are what is there after all lanes have changed the ones that they lead to, in an
/// order; and others, lane by lane, what the lanes found. What a lane finds that takes no part is
/// open.
pub open spec fn happened<E>(
    before: Seq<E>,
    after: Seq<E>,
    found: Seq<E>,
    places: Seq<Option<int>>,
    change: spec_fn(int, E) -> E,
    order: Seq<int>,
) -> bool {
    &&& is_order(order, places.len())
    &&& after == changed(before, places, change, order)
    &&& found.len() == places.len()
    &&& forall|k: int|
        0 <= k < order.len() ==> (places[#[trigger] order[k]] matches Some(at)
            ==> found[order[k]] == changed(before, places, change, order.take(k))[at])
}

/// Whether that can happen in some order: in which one, is open.
pub open spec fn can_happen<E>(
    before: Seq<E>,
    after: Seq<E>,
    found: Seq<E>,
    places: Seq<Option<int>>,
    change: spec_fn(int, E) -> E,
) -> bool {
    exists|order: Seq<int>| #[trigger] happened(before, after, found, places, change, order)
}

/// The lanes one after the other.
spec fn in_turn(count: nat) -> Seq<int> {
    Seq::new(count, |i: int| i)
}

proof fn turns_are_an_order(count: nat)
    ensures
        is_order(in_turn(count), count),
{
    let order = in_turn(count);
    assert forall|lane: int| 0 <= lane < count implies #[trigger] order.contains(lane) by {
        assert(order[lane] == lane);
    }
}

proof fn changed_keeps_length<E>(
    cells: Seq<E>,
    places: Seq<Option<int>>,
    change: spec_fn(int, E) -> E,
    order: Seq<int>,
)
    requires
        are_places(places, cells.len()),
        forall|k: int| 0 <= k < order.len() ==> 0 <= #[trigger] order[k] < places.len(),
    ensures
        changed(cells, places, change, order).len() == cells.len(),
    decreases order.len(),
{
    if order.len() > 0 {
        changed_keeps_length(cells, places, change, order.drop_last());
        assert(0 <= order[order.len() - 1] < places.len());
        assert(places[order.last()] matches Some(at) ==> 0 <= at < cells.len());
    }
}

impl<P: Pointer, E: ElementType> Memory<P, E> {
    pub open spec fn wf(&self) -> bool {
        has_addresses(self@.base, self@.cells.len(), P::width_spec())
    }

    /// Memory with these elements from an address on, where they all have one.
    pub fn new(base: u64, cells: Vec<E>) -> (r: Option<Memory<P, E>>)
        ensures
            r is Some <==> has_addresses(base, cells@.len(), P::width_spec()),
            r matches Some(memory) ==> memory.wf() && memory@ == (MemoryView {
                base,
                cells: cells@,
            }),
    {
        let width: u64 = P::width();
        if width == 0 {
            return None;
        }
        let count: u64 = cells.len() as u64;
        let size: u128 = arithmetic::multiply_sizes(count, width);
        if base as u128 + size > 0x1_0000_0000_0000_0000 {
            return None;
        }
        Some(Memory { base, cells, pointee: PhantomData })
    }

    /// The elements.
    pub fn cells(&self) -> (r: &Vec<E>)
        ensures
            r@ == self@.cells,
    {
        &self.cells
    }

    /// The element that an address is that of.
    fn find_cell(&self, address: u64) -> (r: Option<usize>)
        requires
            self.wf(),
        ensures
            is_place(
                r,
                cell_of(self@.base, self@.cells.len(), P::width_spec(), address),
                self@.cells.len(),
            ),
    {
        if address < self.base {
            return None;
        }
        let width: u64 = P::width();
        let away: u64 = address - self.base;
        if away % width != 0 {
            return None;
        }
        let at: u64 = away / width;
        if at < self.cells.len() as u64 {
            Some(at as usize)
        } else {
            None
        }
    }

    /// The elements that the lanes that take part lead to, where each leads to one.
    fn find_places(&self, pointers: &PointerTile<P>, mask: Option<&Tile<bool>>) -> (r: Option<
        Vec<Option<usize>>,
    >)
        requires
            self.wf(),
            pointers@.wf(),
            masks(mask_of(mask), pointers@.dims),
        ensures
            r is Some <==> all_lead(self@, P::width_spec(), pointers@.data, mask_of(mask)),
            r matches Some(found) ==> found@.len() == pointers@.data.len() && forall|i: int|
                #![trigger found@[i]]
                0 <= i < found@.len() ==> is_place(
                    found@[i],
                    places(self@, P::width_spec(), pointers@.data, mask_of(mask))[i],
                    self@.cells.len(),
                ),
    {
        let addresses = pointers.addresses();
        let mut found: Vec<Option<usize>> = Vec::new();
        while found.len() < addresses.len()
            invariant
                self.wf(),
                pointers@.wf(),
                masks(mask_of(mask), pointers@.dims),
                addresses@ == pointers@.data,
                found@.len() <= addresses@.len(),
                forall|i: int|
                    0 <= i < found@.len() && takes_part(mask_of(mask), i) ==> cell_of(
                        self@.base,
                        self@.cells.len(),
                        P::width_spec(),
                        #[trigger] pointers@.data[i],
                    ) is Some,
                forall|i: int|
                    #![trigger found@[i]]
                    0 <= i < found@.len() ==> is_place(
                        found@[i],
                        places(self@, P::width_spec(), pointers@.data, mask_of(mask))[i],
                        self@.cells.len(),
                    ),
            decreases addresses@.len() - found@.len(),
        {
            let i: usize = found.len();
            let enabled = match mask {
                Some(mask) => mask.elements()[i],
                None => true,
            };
            if enabled {
                match self.find_cell(addresses[i]) {
                    Some(at) => found.push(Some(at)),
                    None => {
                        assert(takes_part(mask_of(mask), i as int));
                        assert(cell_of(
                            self@.base,
                            self@.cells.len(),
                            P::width_spec(),
                            pointers@.data[i as int],
                        ) is None);
                        return None;
                    },
                }
            } else {
                found.push(None);
            }
        }
        Some(found)
    }

    /// Lets each lane change the element that it leads to, one after the other, and gives what they
    /// found.
    fn change_all<F: Fn(usize, E) -> E>(
        &mut self,
        found: &Vec<Option<usize>>,
        f: F,
        Ghost(places): Ghost<Seq<Option<int>>>,
        Ghost(change): Ghost<spec_fn(int, E) -> E>,
    ) -> (r: Vec<E>)
        requires
            old(self).wf(),
            places.len() == found@.len(),
            forall|i: int|
                #![trigger found@[i]]
                0 <= i < found@.len() ==> is_place(
                    found@[i],
                    places[i],
                    old(self)@.cells.len(),
                ),
            forall|i: usize, e: E| i < found@.len() ==> #[trigger] call_requires(f, (i, e)),
            forall|i: usize, e: E, x: E|
                i < found@.len() && #[trigger] call_ensures(f, (i, e), x) ==> x == change(
                    i as int,
                    e,
                ),
        ensures
            final(self).wf(),
            final(self)@.base == old(self)@.base,
            can_happen(old(self)@.cells, final(self)@.cells, r@, places, change),
            final(self)@.cells.len() == old(self)@.cells.len(),
    {
        let ghost cells = self@.cells;
        proof {
            assert forall|i: int| 0 <= i < places.len() implies (#[trigger] places[i] matches Some(
                at,
            ) ==> 0 <= at < cells.len()) by {
                assert(is_place(found@[i], places[i], cells.len()));
            }
        }
        let mut before: Vec<E> = Vec::new();
        let mut i: usize = 0;
        while i < found.len()
            invariant
                i <= found@.len(),
                places.len() == found@.len(),
                are_places(places, cells.len()),
                cells == old(self)@.cells,
                self@.base == old(self)@.base,
                self@.cells == changed(cells, places, change, in_turn(i as nat)),
                before@.len() == i,
                forall|j: int|
                    0 <= j < i ==> (#[trigger] places[j] matches Some(at) ==> before@[j] == changed(
                        cells,
                        places,
                        change,
                        in_turn(j as nat),
                    )[at]),
                forall|i: int|
                    #![trigger found@[i]]
                    0 <= i < found@.len() ==> is_place(found@[i], places[i], cells.len()),
                forall|i: usize, e: E| i < found@.len() ==> #[trigger] call_requires(f, (i, e)),
                forall|i: usize, e: E, x: E|
                    i < found@.len() && #[trigger] call_ensures(f, (i, e), x) ==> x == change(
                        i as int,
                        e,
                    ),
            decreases found@.len() - i,
        {
            proof {
                changed_keeps_length(cells, places, change, in_turn(i as nat));
                assert(is_place(found@[i as int], places[i as int], cells.len()));
                assert(in_turn((i + 1) as nat).drop_last() =~= in_turn(i as nat));
            }
            match found[i] {
                Some(at) => {
                    let element: E = self.cells[at];
                    assert(call_requires(f, (i, element)));
                    let next: E = f(i, element);
                    assert(next == change(i as int, element));
                    self.cells.set(at, next);
                    before.push(element);
                },
                None => before.push(E::zero()),
            }
            i += 1;
        }
        proof {
            let order = in_turn(found@.len());
            turns_are_an_order(found@.len());
            changed_keeps_length(cells, places, change, order);
            assert forall|k: int| 0 <= k < order.len() implies (places[#[trigger] order[k]] matches Some(
                at,
            ) ==> before@[order[k]] == changed(cells, places, change, order.take(k))[at]) by {
                assert(order.take(k) =~= in_turn(k as nat));
            }
            assert(happened(cells, self@.cells, before@, places, change, order));
        }
        before
    }
}

/// Whether a tile holds the elements that pointers lead to; a lane that takes no part has what it is
/// padded with, and is open without.
pub open spec fn is_gathered<E>(
    tile: TileView<E>,
    memory: MemoryView<E>,
    width: u64,
    pointers: TileView<u64>,
    mask: Option<TileView<bool>>,
    padding: Option<E>,
) -> bool {
    &&& tile.wf()
    &&& tile.dims == pointers.dims
    &&& forall|i: int|
        0 <= i < pointers.data.len() ==> match places(memory, width, pointers.data, mask)[i] {
            Some(at) => #[trigger] tile.data[i] == memory.cells[at],
            None => padding matches Some(value) ==> tile.data[i] == value,
        }
}

/// Gathers the elements that pointers lead to, where all that take part lead to one.
pub fn load_ptr_tko<
    P: Pointer,
    E: ElementType,
    O: ordering::LoadMode,
    S: scope::Mode,
    const CYCLES: u32,
>(
    memory: &Memory<P, E>,
    source: &PointerTile<P>,
    memory_ordering: O,
    memory_scope: Option<S>,
    mask: Option<&Tile<bool>>,
    padding_value: Option<E>,
    token: Option<Token>,
    latency: Latency<CYCLES>,
) -> (r: Result<(Tile<E>, Token), AccessError>)
    requires
        memory.wf(),
        source@.wf(),
        masks(mask_of(mask), source@.dims),
    ensures
        match r {
            Ok((t, _)) => {
                &&& all_lead(memory@, P::width_spec(), source@.data, mask_of(mask))
                &&& is_gathered(
                    t@,
                    memory@,
                    P::width_spec(),
                    source@,
                    mask_of(mask),
                    padding_value,
                )
            },
            Err(error) => error == AccessError::OutOfBounds && !all_lead(
                memory@,
                P::width_spec(),
                source@.data,
                mask_of(mask),
            ),
        },
{
    let found = match memory.find_places(source, mask) {
        Some(found) => found,
        None => return Err(AccessError::OutOfBounds),
    };
    let padding: E = match padding_value {
        Some(value) => value,
        None => E::zero(),
    };
    let mut data: Vec<E> = Vec::new();
    while data.len() < found.len()
        invariant
            padding_value matches Some(value) ==> padding == value,
            found@.len() == source@.data.len(),
            data@.len() <= found@.len(),
            forall|i: int|
                #![trigger found@[i]]
                0 <= i < found@.len() ==> is_place(
                    found@[i],
                    places(memory@, P::width_spec(), source@.data, mask_of(mask))[i],
                    memory@.cells.len(),
                ),
            forall|i: int|
                0 <= i < data@.len() ==> match places(
                    memory@,
                    P::width_spec(),
                    source@.data,
                    mask_of(mask),
                )[i] {
                    Some(at) => #[trigger] data@[i] == memory@.cells[at],
                    None => padding_value matches Some(value) ==> data@[i] == value,
                },
        decreases found@.len() - data@.len(),
    {
        let i: usize = data.len();
        let ghost seen = found@[i as int];
        match found[i] {
            Some(at) => data.push(memory.cells[at]),
            None => data.push(padding),
        }
    }
    Ok((Tile::build(source.shape(), data), Token {  }))
}

/// Whether elements are what is there after values were scattered, in some order.
pub open spec fn is_scattered<E>(
    after: Seq<E>,
    memory: MemoryView<E>,
    width: u64,
    pointers: Seq<u64>,
    mask: Option<TileView<bool>>,
    values: Seq<E>,
) -> bool {
    let change = |i: int, old: E| values[i];
    exists|found: Seq<E>| #[trigger]
        can_happen(memory.cells, after, found, places(memory, width, pointers, mask), change)
}

/// Scatters values to where pointers lead, lane by lane, where all that take part lead somewhere.
pub fn store_ptr_tko<
    P: Pointer,
    E: ElementType,
    O: ordering::StoreMode,
    S: scope::Mode,
    const CYCLES: u32,
>(
    memory: &mut Memory<P, E>,
    destination: &PointerTile<P>,
    value: &Tile<E>,
    memory_ordering: O,
    memory_scope: Option<S>,
    mask: Option<&Tile<bool>>,
    token: Option<Token>,
    latency: Latency<CYCLES>,
) -> (r: Result<Token, AccessError>)
    requires
        old(memory).wf(),
        destination@.wf(),
        value@.wf(),
        value@.dims == destination@.dims,
        masks(mask_of(mask), destination@.dims),
    ensures
        final(memory).wf(),
        final(memory)@.base == old(memory)@.base,
        match r {
            Ok(_) => {
                &&& all_lead(old(memory)@, P::width_spec(), destination@.data, mask_of(mask))
                &&& is_scattered(
                    final(memory)@.cells,
                    old(memory)@,
                    P::width_spec(),
                    destination@.data,
                    mask_of(mask),
                    value@.data,
                )
            },
            Err(error) => {
                &&& error == AccessError::OutOfBounds
                &&& !all_lead(old(memory)@, P::width_spec(), destination@.data, mask_of(mask))
                &&& final(memory)@ == old(memory)@
            },
        },
{
    let found = match memory.find_places(destination, mask) {
        Some(found) => found,
        None => return Err(AccessError::OutOfBounds),
    };
    let values = value.elements();
    let f = |i: usize, old_element: E| -> (r: E)
        requires
            i < values@.len(),
        ensures
            r == values@[i as int],
        { values[i] };
    let ghost places = places(memory@, P::width_spec(), destination@.data, mask_of(mask));
    let ghost change = |i: int, old: E| value@.data[i];
    let ghost cells = memory@.cells;
    let before = memory.change_all(&found, f, Ghost(places), Ghost(change));
    assert(can_happen(cells, memory@.cells, before@, places, change));
    Ok(Token {  })
}

/// What becomes of an element in memory.
pub open spec fn combined<E: IntElement>(change: Change, old: E, arg: E) -> E {
    match change {
        Change::Add => arithmetic::sum_of(old, arg),
        Change::AddF => old,
        Change::And => arithmetic::both_bits(old, arg),
        Change::Or => arithmetic::any_bits(old, arg),
        Change::Xor => arithmetic::other_bits(old, arg),
        Change::Max => if integer::signed_of(old) >= integer::signed_of(arg) {
            old
        } else {
            arg
        },
        Change::Min => if integer::signed_of(old) <= integer::signed_of(arg) {
            old
        } else {
            arg
        },
        Change::Umax => if integer::bits_of(old) >= integer::bits_of(arg) {
            old
        } else {
            arg
        },
        Change::Umin => if integer::bits_of(old) <= integer::bits_of(arg) {
            old
        } else {
            arg
        },
        Change::Xchg => arg,
    }
}

fn combine<E: IntElement>(change: Change, old_element: E, arg: E) -> (r: E)
    ensures
        r == combined(change, old_element, arg),
{
    match change {
        Change::Add => add_elements(old_element, arg),
        Change::AddF => old_element,
        Change::And => and_elements(old_element, arg),
        Change::Or => or_elements(old_element, arg),
        Change::Xor => xor_elements(old_element, arg),
        Change::Max => if read_element::<E, signedness::Signed>(old_element) >= read_element::<
            E,
            signedness::Signed,
        >(arg) {
            old_element
        } else {
            arg
        },
        Change::Min => if read_element::<E, signedness::Signed>(old_element) <= read_element::<
            E,
            signedness::Signed,
        >(arg) {
            old_element
        } else {
            arg
        },
        Change::Umax => if to_bits(old_element) >= to_bits(arg) {
            old_element
        } else {
            arg
        },
        Change::Umin => if to_bits(old_element) <= to_bits(arg) {
            old_element
        } else {
            arg
        },
        Change::Xchg => arg,
    }
}

/// Changes each element that a pointer leads to with an operand, lane by lane, and gives what was
/// there; what a lane gets that takes no part is open. Integers cannot be added as floating-point numbers.
pub fn atomic_rmw_tko<
    P: Pointer,
    E: IntElement,
    M: atomic::Mode,
    O: ordering::AtomicMode,
    S: scope::Mode,
>(
    memory: &mut Memory<P, E>,
    pointers: &PointerTile<P>,
    arg: &Tile<E>,
    mode: M,
    memory_ordering: O,
    memory_scope: S,
    mask: Option<&Tile<bool>>,
    token: Option<Token>,
) -> (r: Result<(Tile<E>, Token), AccessError>)
    requires
        old(memory).wf(),
        pointers@.wf(),
        arg@.wf(),
        arg@.dims == pointers@.dims,
        masks(mask_of(mask), pointers@.dims),
        M::change_spec() != Change::AddF,
    ensures
        final(memory).wf(),
        final(memory)@.base == old(memory)@.base,
        match r {
            Ok((t, _)) => {
                let places = places(
                    old(memory)@,
                    P::width_spec(),
                    pointers@.data,
                    mask_of(mask),
                );
                let change = |i: int, old: E| combined(M::change_spec(), old, arg@.data[i]);
                &&& all_lead(old(memory)@, P::width_spec(), pointers@.data, mask_of(mask))
                &&& t@.wf()
                &&& t@.dims == pointers@.dims
                &&& can_happen(
                    old(memory)@.cells,
                    final(memory)@.cells,
                    t@.data,
                    places,
                    change,
                )
            },
            Err(error) => {
                &&& error == AccessError::OutOfBounds
                &&& !all_lead(old(memory)@, P::width_spec(), pointers@.data, mask_of(mask))
                &&& final(memory)@ == old(memory)@
            },
        },
{
    let found = match memory.find_places(pointers, mask) {
        Some(found) => found,
        None => return Err(AccessError::OutOfBounds),
    };
    let operands = arg.elements();
    let kind: Change = M::change();
    let f = |i: usize, old_element: E| -> (r: E)
        requires
            i < operands@.len(),
        ensures
            r == combined(kind, old_element, operands@[i as int]),
        { combine(kind, old_element, operands[i]) };
    let ghost places = places(memory@, P::width_spec(), pointers@.data, mask_of(mask));
    let ghost change = |i: int, old: E| combined(M::change_spec(), old, arg@.data[i]);
    let before = memory.change_all(&found, f, Ghost(places), Ghost(change));
    Ok((Tile::build(pointers.shape(), before), Token {  }))
}

/// Puts a value where each pointer leads, lane by lane, where there is what it is compared with, and
/// gives what was there; what a lane gets that takes no part is open.
pub fn atomic_cas_tko<P: Pointer, E: IntElement, O: ordering::AtomicMode, S: scope::Mode>(
    memory: &mut Memory<P, E>,
    pointers: &PointerTile<P>,
    wanted: &Tile<E>,
    val: &Tile<E>,
    memory_ordering: O,
    memory_scope: S,
    mask: Option<&Tile<bool>>,
    token: Option<Token>,
) -> (r: Result<(Tile<E>, Token), AccessError>)
    requires
        old(memory).wf(),
        pointers@.wf(),
        wanted@.wf(),
        wanted@.dims == pointers@.dims,
        val@.wf(),
        val@.dims == pointers@.dims,
        masks(mask_of(mask), pointers@.dims),
    ensures
        final(memory).wf(),
        final(memory)@.base == old(memory)@.base,
        match r {
            Ok((t, _)) => {
                let places = places(
                    old(memory)@,
                    P::width_spec(),
                    pointers@.data,
                    mask_of(mask),
                );
                let change = |i: int, old: E|
                    if old == wanted@.data[i] {
                        val@.data[i]
                    } else {
                        old
                    };
                &&& all_lead(old(memory)@, P::width_spec(), pointers@.data, mask_of(mask))
                &&& t@.wf()
                &&& t@.dims == pointers@.dims
                &&& can_happen(
                    old(memory)@.cells,
                    final(memory)@.cells,
                    t@.data,
                    places,
                    change,
                )
            },
            Err(error) => {
                &&& error == AccessError::OutOfBounds
                &&& !all_lead(old(memory)@, P::width_spec(), pointers@.data, mask_of(mask))
                &&& final(memory)@ == old(memory)@
            },
        },
{
    let found = match memory.find_places(pointers, mask) {
        Some(found) => found,
        None => return Err(AccessError::OutOfBounds),
    };
    let expected = wanted.elements();
    let values = val.elements();
    let f = |i: usize, old_element: E| -> (r: E)
        requires
            i < expected@.len(),
            i < values@.len(),
        ensures
            r == (if old_element == expected@[i as int] {
                values@[i as int]
            } else {
                old_element
            }),
        {
            let other: E = expected[i];
            proof {
                integer::element_is_its_number(old_element);
                integer::element_is_its_number(other);
            }
            if old_element.to_wide() == other.to_wide() {
                values[i]
            } else {
                old_element
            }
        };
    let ghost places = places(memory@, P::width_spec(), pointers@.data, mask_of(mask));
    let ghost change = |i: int, old: E|
        if old == wanted@.data[i] {
            val@.data[i]
        } else {
            old
        };
    let before = memory.change_all(&found, f, Ghost(places), Ghost(change));
    Ok((Tile::build(pointers.shape(), before), Token {  }))
}

// Laws.

/// An element that no lane leads to stays, in whatever order the lanes come.
pub proof fn other_elements_stay<E>(
    cells: Seq<E>,
    places: Seq<Option<int>>,
    change: spec_fn(int, E) -> E,
    order: Seq<int>,
    at: int,
)
    requires
        are_places(places, cells.len()),
        forall|k: int| 0 <= k < order.len() ==> 0 <= #[trigger] order[k] < places.len(),
        0 <= at < cells.len(),
        forall|k: int| 0 <= k < order.len() ==> places[#[trigger] order[k]] != Some(at),
    ensures
        changed(cells, places, change, order)[at] == cells[at],
    decreases order.len(),
{
    if order.len() > 0 {
        let front = order.drop_last();
        assert(forall|k: int| 0 <= k < front.len() ==> #[trigger] front[k] == order[k]);
        other_elements_stay(cells, places, change, front, at);
        changed_keeps_length(cells, places, change, front);
        assert(places[order[order.len() - 1]] != Some(at));
    }
}

/// Whether no two lanes lead to the same element.
pub open spec fn are_apart(places: Seq<Option<int>>) -> bool {
    forall|i: int, j: int|
        0 <= i < j < places.len() && #[trigger] places[i] is Some ==> places[i]
            != #[trigger] places[j]
}

/// Where no two lanes lead to the same element, each lane finds the element that was there, and the
/// element ends up as that lane changes it; and one that no lane leads to stays.
pub proof fn lanes_apart_change_each_its_own<E>(
    before: Seq<E>,
    after: Seq<E>,
    found: Seq<E>,
    places: Seq<Option<int>>,
    change: spec_fn(int, E) -> E,
)
    requires
        are_places(places, before.len()),
        are_apart(places),
        can_happen(before, after, found, places, change),
    ensures
        after.len() == before.len(),
        forall|lane: int|
            0 <= lane < places.len() ==> (#[trigger] places[lane] matches Some(at) ==> found[lane]
                == before[at] && after[at] == change(lane, before[at])),
        forall|at: int|
            0 <= at < before.len() && !places.contains(Some(at)) ==> #[trigger] after[at]
                == before[at],
{
    let order = choose|order: Seq<int>| #[trigger]
        happened(before, after, found, places, change, order);
    assert(happened(before, after, found, places, change, order));
    changed_keeps_length(before, places, change, order);
    assert forall|lane: int| 0 <= lane < places.len() implies (#[trigger] places[lane] matches Some(
        at,
    ) ==> found[lane] == before[at] && after[at] == change(lane, before[at])) by {
        if let Some(at) = places[lane] {
            assert(order.contains(lane));
            let turn = order.index_of(lane);
            assert(order[turn] == lane);
            lane_is_last(before, places, change, turn, order);
            let earlier = order.take(turn);
            assert forall|k: int| 0 <= k < earlier.len() implies 0 <= #[trigger] earlier[k]
                < places.len() by {
                assert(earlier[k] == order[k]);
            }
            assert forall|k: int| 0 <= k < earlier.len() implies places[#[trigger] earlier[k]]
                != Some(at) by {
                assert(earlier[k] == order[k] && order[k] != order[turn]);
                if order[k] < lane {
                    assert(places[order[k]] is Some ==> places[order[k]] != places[lane]);
                } else {
                    assert(places[lane] != places[order[k]]);
                }
            }
            other_elements_stay(before, places, change, earlier, at);
        }
    }
    assert forall|at: int| 0 <= at < before.len() && !places.contains(Some(at)) implies
        #[trigger] after[at] == before[at] by {
        assert forall|k: int| 0 <= k < order.len() implies places[#[trigger] order[k]] != Some(
            at,
        ) by {
            assert(places.contains(places[order[k]]));
        }
        other_elements_stay(before, places, change, order, at);
    }
}

/// Where no two lanes lead to the same element, what was scattered is gathered again.
pub proof fn scattered_values_are_gathered<E>(
    memory: MemoryView<E>,
    width: u64,
    pointers: TileView<u64>,
    values: TileView<E>,
    after: Seq<E>,
    again: TileView<E>,
)
    requires
        pointers.wf(),
        values.wf(),
        values.dims == pointers.dims,
        has_addresses(memory.base, memory.cells.len(), width),
        all_lead(memory, width, pointers.data, None),
        are_apart(places(memory, width, pointers.data, None)),
        is_scattered(after, memory, width, pointers.data, None, values.data),
        is_gathered(again, MemoryView { cells: after, ..memory }, width, pointers, None, None),
    ensures
        again == values,
{
    let leads = places(memory, width, pointers.data, None);
    let change = |i: int, old: E| values.data[i];
    let n = pointers.data.len();
    assert forall|i: int| 0 <= i < leads.len() implies (#[trigger] leads[i] matches Some(at)
        ==> 0 <= at < memory.cells.len()) by {
        if pointers.data[i] >= memory.base {
            vstd::arithmetic::div_mod::lemma_div_pos_is_pos(
                pointers.data[i] - memory.base,
                width as int,
            );
        }
    }
    let found = choose|found: Seq<E>| #[trigger]
        can_happen(memory.cells, after, found, leads, change);
    lanes_apart_change_each_its_own(memory.cells, after, found, leads, change);
    assert forall|i: int| 0 <= i < n implies again.data[i] == values.data[i] by {
        assert(cell_of(memory.base, memory.cells.len(), width, pointers.data[i]) is Some);
        let at = leads[i]->0;
        assert(places(
            MemoryView { cells: after, ..memory },
            width,
            pointers.data,
            None,
        )[i] == Some(at));
        assert(again.data[i] == after[at]);
    }
    assert(again.data =~= values.data);
}

proof fn lane_is_last<E>(
    cells: Seq<E>,
    places: Seq<Option<int>>,
    change: spec_fn(int, E) -> E,
    turn: int,
    order: Seq<int>,
)
    requires
        are_places(places, cells.len()),
        order.no_duplicates(),
        forall|k: int| 0 <= k < order.len() ==> 0 <= #[trigger] order[k] < places.len(),
        0 <= turn < order.len(),
        places[order[turn]] is Some,
        are_apart(places),
    ensures
        changed(cells, places, change, order)[places[order[turn]]->0] == change(
            order[turn],
            cells[places[order[turn]]->0],
        ),
    decreases order.len(),
{
    let lane = order[turn];
    let at = places[lane]->0;
    let front = order.drop_last();
    let last = order.len() - 1;
    assert(0 <= order[turn] < places.len());
    assert(0 <= order[last] < places.len());
    assert(0 <= at < cells.len());
    assert(forall|k: int| 0 <= k < front.len() ==> #[trigger] front[k] == order[k]);
    changed_keeps_length(cells, places, change, front);
    if turn == last {
        assert forall|k: int| 0 <= k < front.len() implies places[#[trigger] front[k]] != Some(
            at,
        ) by {
            assert(front[k] == order[k] && order[k] != lane);
            if order[k] < lane {
                assert(places[order[k]] is Some ==> places[order[k]] != places[lane]);
            } else {
                assert(places[lane] != places[order[k]]);
            }
        }
        other_elements_stay(cells, places, change, front, at);
    } else {
        lane_is_last(cells, places, change, turn, front);
        let other = order[last];
        assert(order[turn] != order[last]);
        if lane < other {
            assert(places[lane] != places[other]);
        } else {
            assert(places[other] is Some ==> places[other] != places[lane]);
        }
    }
}

/// The elements of lanes in an order.
pub open spec fn in_order<E>(items: Seq<E>, order: Seq<int>) -> Seq<E> {
    Seq::new(order.len(), |k: int| items[order[k]])
}

/// Where all lanes add to the same element, it ends up with the sum of them all, in whatever order
/// they come.
pub proof fn additions_add_up<E: IntElement>(
    cells: Seq<E>,
    at: int,
    args: Seq<E>,
    order: Seq<int>,
)
    requires
        0 <= at < cells.len(),
        is_order(order, args.len()),
    ensures
        changed(
            cells,
            Seq::new(args.len(), |i: int| Some(at)),
            |i: int, old: E| combined(Change::Add, old, args[i]),
            order,
        )[at] == integer::wrapped::<E>(cells[at].number() + reduction::total(args)),
{
    additions_add_up_so_far(cells, at, args, order);
    sum_has_no_order(args, order);
}

proof fn additions_add_up_so_far<E: IntElement>(
    cells: Seq<E>,
    at: int,
    args: Seq<E>,
    order: Seq<int>,
)
    requires
        0 <= at < cells.len(),
        forall|k: int| 0 <= k < order.len() ==> 0 <= #[trigger] order[k] < args.len(),
    ensures
        changed(
            cells,
            Seq::new(args.len(), |i: int| Some(at)),
            |i: int, old: E| combined(Change::Add, old, args[i]),
            order,
        )[at] == integer::wrapped::<E>(
            cells[at].number() + reduction::total(in_order(args, order)),
        ),
    decreases order.len(),
{
    let places = Seq::new(args.len(), |i: int| Some(at));
    let change = |i: int, old: E| combined(Change::Add, old, args[i]);
    if order.len() == 0 {
        integer::element_is_its_number(cells[at]);
    } else {
        let m = E::modulus_spec();
        E::modulus_is_in_range();
        let front = order.drop_last();
        assert(forall|k: int| 0 <= k < front.len() ==> #[trigger] front[k] == order[k]);
        additions_add_up_so_far(cells, at, args, front);
        assert(are_places(places, cells.len()));
        changed_keeps_length(cells, places, change, front);
        let before = cells[at].number() + reduction::total(in_order(args, front));
        let sum = changed(cells, places, change, front)[at];
        assert(0 <= order[order.len() - 1] < args.len());
        let last = args[order.last()];
        assert(in_order(args, order).drop_last() =~= in_order(args, front));
        assert(in_order(args, order).last() == last);
        integer::wrapped_has_the_remainder::<E>(before);
        vstd::arithmetic::div_mod::lemma_add_mod_noop(sum.number(), last.number(), m);
        vstd::arithmetic::div_mod::lemma_add_mod_noop(before, last.number(), m);
        integer::remainder_tells_the_element::<E>(
            sum.number() + last.number(),
            before + last.number(),
        );
    }
}

proof fn sum_without<E: IntElement>(items: Seq<E>, k: int)
    requires
        0 <= k < items.len(),
    ensures
        reduction::total(items) == reduction::total(items.remove(k)) + items[k].number(),
    decreases items.len(),
{
    if k == items.len() - 1 {
        assert(items.remove(k) =~= items.drop_last());
    } else {
        sum_without(items.drop_last(), k);
        assert(items.remove(k).drop_last() =~= items.drop_last().remove(k));
        assert(items.remove(k).last() == items.last());
        assert(items.drop_last()[k] == items[k]);
    }
}

/// A sum is the same in every order.
proof fn sum_has_no_order<E: IntElement>(items: Seq<E>, order: Seq<int>)
    requires
        is_order(order, items.len()),
    ensures
        reduction::total(in_order(items, order)) == reduction::total(items),
    decreases items.len(),
{
    if items.len() == 0 {
        assert(in_order(items, order) =~= items);
    } else {
        let last = items.len() - 1;
        assert(order.contains(last));
        let k = order.index_of(last);
        let rest = order.remove(k);
        let fewer = items.drop_last();
        assert forall|j: int| 0 <= j < rest.len() implies 0 <= #[trigger] rest[j] < last by {
            let from = if j < k {
                j
            } else {
                j + 1
            };
            assert(rest[j] == order[from]);
            assert(order[from] != order[k]);
        }
        assert forall|lane: int| 0 <= lane < last implies #[trigger] rest.contains(lane) by {
            assert(order.contains(lane));
            let j = order.index_of(lane);
            assert(order[j] == lane);
            if j < k {
                assert(rest[j] == lane);
            } else {
                assert(rest[j - 1] == lane);
            }
        }
        assert(rest.no_duplicates()) by {
            assert forall|i: int, j: int|
                0 <= i < rest.len() && 0 <= j < rest.len() && i != j implies rest[i]
                != rest[j] by {
                let a = if i < k {
                    i
                } else {
                    i + 1
                };
                let b = if j < k {
                    j
                } else {
                    j + 1
                };
                assert(rest[i] == order[a] && rest[j] == order[b]);
                assert(order[a] != order[b]);
            }
        }
        sum_has_no_order(fewer, rest);
        sum_without(in_order(items, order), k);
        assert(in_order(items, order).remove(k) =~= in_order(fewer, rest));
    }
}

} // verus!

//! What compound expressions and statements are typed as, and what is expected of their parts.
use crate::ask;
use crate::env::{self, Stop, TileType};
use crate::exprs;
use crate::infer::forms;
use crate::infer::lookups;
use crate::infer::state::{Frame, Outcome, StateView};
use crate::infer::walk;
use crate::list::{self, List};
use crate::names;
use crate::results;
use crate::scalar;
use crate::syntax::{BinOp, Expr, ExprKind, Lit, NodeId, Path, Symbol, Type};
use crate::types;
use crate::unify::{self, InferredTy};
use std::rc::Rc;
use vstd::prelude::*;

verus! {

/// Whether a state is another one but for what is filed and recorded for one expression.
pub open spec fn is_but_for(after: StateView, s: StateView, id: Option<NodeId>) -> bool {
    &&& after.vars == s.vars
    &&& after.syn_vars == s.syn_vars
    &&& after.mutable_vars == s.mutable_vars
    &&& after.local_terms == s.local_terms
    &&& after.inference.vars.len() == s.inference.vars.len()
    &&& forall|other: NodeId|
        id != Some(other) ==> {
            &&& #[trigger] results::filed(after.results.tiles, Some(other)) == results::filed(
                s.results.tiles,
                Some(other),
            )
            &&& results::filed(after.results.resolved, Some(other)) == results::filed(
                s.results.resolved,
                Some(other),
            )
            &&& results::filed(after.results.selections, Some(other)) == results::filed(
                s.results.selections,
                Some(other),
            )
            &&& unify::term_of(after.inference.terms, Some(other)) == unify::term_of(
                s.inference.terms,
                Some(other),
            )
        }
}

/// Whether an expression is found to be of a type, and its parts leave a state.
pub open spec fn is_of_after(
    found: Outcome<Option<Rc<TileType>>>,
    id: Option<NodeId>,
    s: StateView,
    ty: Option<Rc<TileType>>,
) -> bool {
    found matches Ok((after, own)) && own == ty && is_but_for(after, s, id)
}

/// The outcome of reading an expression.
pub open spec fn read(s: StateView, ty: Option<Rc<TileType>>) -> Outcome<Option<Rc<TileType>>> {
    Ok((s, ty))
}

/// Whether expressions are read one after the other, each with its own type expected.
pub open spec fn expected_in_turn(
    f: Frame,
    limit: nat,
    states: Seq<StateView>,
    exprs: Seq<Expr>,
    wanted: Seq<Option<Rc<TileType>>>,
    found: Seq<Option<Rc<TileType>>>,
) -> bool {
    &&& states.len() == exprs.len() + 1
    &&& wanted.len() == exprs.len()
    &&& found.len() == exprs.len()
    &&& forall|i: int|
        0 <= i < exprs.len() ==> walk::expr_type(
            f,
            limit,
            states[i],
            #[trigger] exprs[i],
            wanted[i],
        ) == read(states[i + 1], found[i])
}

proof fn rest_is_read_in_turn(
    f: Frame,
    limit: nat,
    states: Seq<StateView>,
    items: List<Expr>,
    wanted: Seq<Option<Rc<TileType>>>,
    found: Seq<Option<Rc<TileType>>>,
)
    requires
        expected_in_turn(f, limit, states, items@, wanted, found),
        items is Cons,
    ensures
        ({
            let first = *items->Cons_0;
            let rest = *items->Cons_1;
            &&& items@ == seq![first] + rest@
            &&& walk::expr_type(f, limit, states[0], first, wanted[0]) == read(states[1], found[0])
            &&& expected_in_turn(
                f,
                limit,
                states.skip(1),
                rest@,
                wanted.skip(1),
                found.skip(1),
            )
            &&& states.skip(1).last() == states.last()
        }),
{
    let rest = list::held(&items->Cons_1);
    assert(items@ == seq![list::held(&items->Cons_0)] + rest@);
    assert(items@[0] == list::held(&items->Cons_0));
    assert forall|i: int| 0 <= i < rest@.len() implies walk::expr_type(
        f,
        limit,
        states.skip(1)[i],
        #[trigger] rest@[i],
        wanted.skip(1)[i],
    ) == read(states.skip(1)[i + 1], found.skip(1)[i]) by {
        assert(items@[i + 1] == rest@[i]);
    }
}

// Tuples.

/// A tuple of which nothing is expected is of the tuple of its items' types, in their order.
pub proof fn tuple_is_of_its_items(
    f: Frame,
    limit: nat,
    id: Option<NodeId>,
    states: Seq<StateView>,
    items: List<Expr>,
    tiles: Seq<Rc<TileType>>,
    own: List<Type>,
    tile: Option<Rc<TileType>>,
)
    requires
        forms::typed_in_turn(f, limit, states, items@, tiles),
        own@.len() == items@.len(),
        forall|i: int| 0 <= i < items@.len() ==> #[trigger] own@[i] == *tiles[i].rust_ty,
        ask::compiled(f.env, Type::Tuple(own)) == Ok::<Option<Rc<TileType>>, Stop>(tile),
    ensures
        is_of_after(
            walk::expr_type(
                f,
                limit + 1,
                states[0],
                Expr { id, kind: ExprKind::Tuple(items) },
                None,
            ),
            id,
            states.last(),
            tile,
        ),
{
    let found = Seq::new(tiles.len(), |i: int| Some(tiles[i]));
    let wanted = Seq::new(tiles.len(), |i: int| None::<Rc<TileType>>);
    assert forall|i: int| 0 <= i < items@.len() implies walk::expr_type(
        f,
        limit,
        states[i],
        #[trigger] items@[i],
        wanted[i],
    ) == read(states[i + 1], found[i]) by {}
    all_types_are_found(f, limit, states, items, None, wanted, found, List::Nil);
    let list = walk::elem_types(
        f,
        limit,
        states[0],
        items,
        None,
        walk::Which::All,
        List::Nil,
    )->Ok_0.1;
    assert(Seq::<Type>::empty() + Seq::new(tiles.len(), |i: int| *found[i]->0.rust_ty) =~= own@);
    list::lists_are_their_items(list, own);
    reveal_with_fuel(walk::expr_type, 2);
    reveal_with_fuel(walk::expr_rule, 2);
    reveal_with_fuel(walk::tuple_rule, 2);
}

proof fn all_types_are_found(
    f: Frame,
    limit: nat,
    states: Seq<StateView>,
    items: List<Expr>,
    expected: Option<Rc<TileType>>,
    wanted: Seq<Option<Rc<TileType>>>,
    found: Seq<Option<Rc<TileType>>>,
    before: List<Type>,
)
    requires
        expected_in_turn(f, limit, states, items@, wanted, found),
        forall|i: int| 0 <= i < wanted.len() ==> #[trigger] wanted[i] == expected,
        forall|i: int| 0 <= i < found.len() ==> #[trigger] found[i] is Some,
    ensures
        walk::elem_types(
            f,
            limit,
            states[0],
            items,
            expected,
            walk::Which::All,
            before,
        ) matches Ok((after, list)) && after == states.last() && list@ == before@ + Seq::new(
            found.len(),
            |i: int| *found[i]->0.rust_ty,
        ),
    decreases items,
{
    reveal_with_fuel(walk::elem_types, 2);
    if let List::Cons(first, rest) = items {
        rest_is_read_in_turn(f, limit, states, items, wanted, found);
        let ty = list::held(&found[0]->0).rust_ty;
        let next = before.pushed(list::held(&ty));
        assert forall|i: int| 0 <= i < wanted.skip(1).len() implies #[trigger] wanted.skip(1)[i]
            == expected by {
            assert(wanted.skip(1)[i] == wanted[i + 1]);
        }
        assert(wanted[0] == expected);
        assert forall|i: int| 0 <= i < found.skip(1).len() implies #[trigger] found.skip(1)[i]
            is Some by {
            assert(found.skip(1)[i] == found[i + 1]);
        }
        all_types_are_found(
            f,
            limit,
            states.skip(1),
            list::held(&rest),
            expected,
            wanted.skip(1),
            found.skip(1),
            next,
        );
        list::pushed_item_is_last(before, list::held(&ty));
        assert(before@.push(list::held(&ty)) + Seq::new(
            found.skip(1).len(),
            |i: int| *found.skip(1)[i]->0.rust_ty,
        ) =~= before@ + Seq::new(found.len(), |i: int| *found[i]->0.rust_ty));
    } else {
        assert(before@ + Seq::<Type>::empty() =~= before@);
        assert(Seq::new(found.len(), |i: int| *found[i]->0.rust_ty) =~= Seq::<Type>::empty());
    }
}

/// A tuple of which a tuple is expected with as many items is of that type, and of each of its items
/// the type in its place is expected.
pub proof fn expected_tuple_types_its_items(
    f: Frame,
    limit: nat,
    id: Option<NodeId>,
    states: Seq<StateView>,
    items: List<Expr>,
    own: List<Type>,
    wanted: Seq<Option<Rc<TileType>>>,
    found: Seq<Option<Rc<TileType>>>,
    tuple: Rc<TileType>,
)
    requires
        *tuple.rust_ty == Type::Tuple(own),
        own@.len() == items@.len(),
        expected_in_turn(f, limit, states, items@, wanted, found),
        forall|i: int|
            0 <= i < own@.len() ==> ask::compiled(f.env, #[trigger] own@[i]) == Ok::<
                Option<Rc<TileType>>,
                Stop,
            >(wanted[i]),
    ensures
        is_of_after(
            walk::expr_type(
                f,
                limit + 1,
                states[0],
                Expr { id, kind: ExprKind::Tuple(items) },
                Some(tuple),
            ),
            id,
            states.last(),
            Some(tuple),
        ),
{
    items_are_read_as_expected(f, limit, states, items, own, wanted, found);
    reveal_with_fuel(walk::expr_type, 2);
    reveal_with_fuel(walk::expr_rule, 2);
    reveal_with_fuel(walk::tuple_rule, 2);
    reveal_with_fuel(types::tuple_items, 2);
}

proof fn items_are_read_as_expected(
    f: Frame,
    limit: nat,
    states: Seq<StateView>,
    items: List<Expr>,
    own: List<Type>,
    wanted: Seq<Option<Rc<TileType>>>,
    found: Seq<Option<Rc<TileType>>>,
)
    requires
        own@.len() == items@.len(),
        expected_in_turn(f, limit, states, items@, wanted, found),
        forall|i: int|
            0 <= i < own@.len() ==> ask::compiled(f.env, #[trigger] own@[i]) == Ok::<
                Option<Rc<TileType>>,
                Stop,
            >(wanted[i]),
    ensures
        walk::elems_expected(f, limit, states[0], items, own) == Ok::<(StateView, ()), Stop>(
            (states.last(), ()),
        ),
    decreases items,
{
    reveal_with_fuel(walk::elems_expected, 2);
    if let List::Cons(first, rest) = items {
        rest_is_read_in_turn(f, limit, states, items, wanted, found);
        let more = list::held(&own->Cons_1);
        assert(own@ == seq![list::held(&own->Cons_0)] + more@);
        assert(own@[0] == list::held(&own->Cons_0));
        assert forall|i: int| 0 <= i < more@.len() implies ask::compiled(
            f.env,
            #[trigger] more@[i],
        ) == Ok::<Option<Rc<TileType>>, Stop>(wanted.skip(1)[i]) by {
            assert(own@[i + 1] == more@[i]);
        }
        items_are_read_as_expected(
            f,
            limit,
            states.skip(1),
            list::held(&rest),
            more,
            wanted.skip(1),
            found.skip(1),
        );
    }
}

// Arrays.

/// An array of which nothing is expected, and whose items are no numbers without a suffix and are all
/// of one type, is the array of that type with as many items.
pub proof fn array_is_of_its_items(
    f: Frame,
    limit: nat,
    id: Option<NodeId>,
    states: Seq<StateView>,
    items: List<Expr>,
    tiles: Seq<Rc<TileType>>,
    item: Rc<Type>,
    tile: Option<Rc<TileType>>,
)
    requires
        forms::typed_in_turn(f, limit, states, items@, tiles),
        0 < items@.len() <= usize::MAX,
        forall|i: int| 0 <= i < items@.len() ==> !exprs::unsuffixed_number(#[trigger] items@[i]),
        forall|i: int| 0 <= i < tiles.len() ==> *(#[trigger] tiles[i]).rust_ty == *item,
        ask::compiled_if_any(f.env, *item) is Ok,
        ask::compiled(
            f.env,
            Type::Array { elem: item, len: Rc::new(exprs::count_expr(items@.len() as usize)) },
        ) == Ok::<Option<Rc<TileType>>, Stop>(tile),
    ensures
        is_of_after(
            walk::expr_type(
                f,
                limit + 1,
                states[0],
                Expr { id, kind: ExprKind::Array(items) },
                None,
            ),
            id,
            states.last(),
            tile,
        ),
{
    other_items_are_read(f, limit, states, items, tiles, item, List::Nil);
    let found = walk::elem_types(
        f,
        limit,
        states[0],
        items,
        None,
        walk::Which::Others,
        List::Nil,
    )->Ok_0.1;
    assert(found@.len() > 0);
    all_items_are(found, item);
    assert(found is Cons);
    let first = ask::compiled_if_any(f.env, list::held(&found->Cons_0));
    if let Ok(first) = first {
        no_number_is_read(f, limit, states.last(), items, first, found);
    }
    assert(list::held(&found->Cons_0) == list::held(&item)) by {
        let rest = list::held(&found->Cons_1);
        assert(found@ == seq![list::held(&found->Cons_0)] + rest@);
        assert(found@[0] == list::held(&found->Cons_0));
    }
    assert(walk::array_elem_types(f, limit, states[0], items, None) == Ok::<
        (StateView, List<Type>),
        Stop,
    >((states.last(), found))) by {
        reveal_with_fuel(walk::array_elem_types, 2);
    }
    assert(walk::array_rule(f, limit, states[0], items, None) == read(states.last(), tile)) by {
        reveal_with_fuel(walk::array_rule, 2);
    }
    assert(walk::expr_rule(
        f,
        limit,
        states[0],
        Expr { id, kind: ExprKind::Array(items) },
        None,
    ) == read(states.last(), tile)) by {
        reveal_with_fuel(walk::expr_rule, 2);
    }
    reveal_with_fuel(walk::expr_type, 2);
}

proof fn other_items_are_read(
    f: Frame,
    limit: nat,
    states: Seq<StateView>,
    items: List<Expr>,
    tiles: Seq<Rc<TileType>>,
    item: Rc<Type>,
    before: List<Type>,
)
    requires
        forms::typed_in_turn(f, limit, states, items@, tiles),
        forall|i: int| 0 <= i < items@.len() ==> !exprs::unsuffixed_number(#[trigger] items@[i]),
        forall|i: int| 0 <= i < tiles.len() ==> *(#[trigger] tiles[i]).rust_ty == *item,
        forall|i: int| 0 <= i < before@.len() ==> #[trigger] before@[i] == *item,
    ensures
        walk::elem_types(
            f,
            limit,
            states[0],
            items,
            None,
            walk::Which::Others,
            before,
        ) matches Ok((after, list)) && after == states.last() && list@.len() == before@.len()
            + items@.len() && forall|i: int|
            0 <= i < list@.len() ==> #[trigger] list@[i] == *item,
    decreases items,
{
    reveal_with_fuel(walk::elem_types, 2);
    if let List::Cons(first, rest) = items {
        assert(items@ == seq![list::held(&first)] + rest@);
        assert(items@[0] == list::held(&first));
        assert(*tiles[0].rust_ty == *item);
        let next = before.pushed(list::held(&item));
        list::pushed_item_is_last(before, list::held(&item));
        let later = states.skip(1);
        let more = tiles.skip(1);
        assert forall|i: int| 0 <= i < rest@.len() implies walk::expr_type(
            f,
            limit,
            later[i],
            #[trigger] rest@[i],
            None,
        ) == Ok::<(StateView, Option<Rc<TileType>>), Stop>((later[i + 1], Some(more[i]))) by {
            assert(items@[i + 1] == rest@[i]);
        }
        assert forall|i: int| 0 <= i < rest@.len() implies !exprs::unsuffixed_number(
            #[trigger] rest@[i],
        ) by {
            assert(items@[i + 1] == rest@[i]);
        }
        assert forall|i: int| 0 <= i < more.len() implies *(#[trigger] more[i]).rust_ty
            == *item by {
            assert(more[i] == tiles[i + 1]);
        }
        other_items_are_read(f, limit, later, list::held(&rest), more, item, next);
        assert(states.last() == later.last());
    }
}

proof fn all_items_are(list: List<Type>, item: Rc<Type>)
    requires
        forall|i: int| 0 <= i < list@.len() ==> #[trigger] list@[i] == *item,
    ensures
        walk::all_are(list, *item),
    decreases list,
{
    if let List::Cons(first, rest) = list {
        assert(list@ == seq![list::held(&first)] + rest@);
        assert(list@[0] == list::held(&first));
        assert forall|i: int| 0 <= i < rest@.len() implies #[trigger] rest@[i] == *item by {
            assert(list@[i + 1] == rest@[i]);
        }
        all_items_are(list::held(&rest), item);
    }
}

proof fn no_number_is_read(
    f: Frame,
    limit: nat,
    s: StateView,
    items: List<Expr>,
    expected: Option<Rc<TileType>>,
    found: List<Type>,
)
    requires
        forall|i: int| 0 <= i < items@.len() ==> !exprs::unsuffixed_number(#[trigger] items@[i]),
    ensures
        walk::elem_types(f, limit, s, items, expected, walk::Which::Numbers, found) == Ok::<
            (StateView, List<Type>),
            Stop,
        >((s, found)),
    decreases items,
{
    reveal_with_fuel(walk::elem_types, 2);
    if let List::Cons(first, rest) = items {
        assert(items@ == seq![list::held(&first)] + rest@);
        assert(items@[0] == list::held(&first));
        assert forall|i: int| 0 <= i < rest@.len() implies !exprs::unsuffixed_number(
            #[trigger] rest@[i],
        ) by {
            assert(items@[i + 1] == rest@[i]);
        }
        no_number_is_read(f, limit, s, list::held(&rest), expected, found);
    }
}

/// An array of which an array or a slice is expected is of that type, and of each of its items the
/// type of the expected items is expected.
pub proof fn expected_array_types_its_items(
    f: Frame,
    limit: nat,
    id: Option<NodeId>,
    states: Seq<StateView>,
    items: List<Expr>,
    item: Rc<Type>,
    wanted: Seq<Option<Rc<TileType>>>,
    found: Seq<Option<Rc<TileType>>>,
    tile: Rc<TileType>,
    array: Rc<TileType>,
)
    requires
        *array.rust_ty == Type::Slice(item) || exists|len: Rc<Expr>|
            *array.rust_ty == (#[trigger] forms::array_of(item, len)),
        forms::compiles_to(f, *item, tile),
        expected_in_turn(f, limit, states, items@, wanted, found),
        forall|i: int| 0 <= i < wanted.len() ==> #[trigger] wanted[i] == Some(tile),
        forall|i: int| 0 <= i < found.len() ==> #[trigger] found[i] is Some,
    ensures
        is_of_after(
            walk::expr_type(
                f,
                limit + 1,
                states[0],
                Expr { id, kind: ExprKind::Array(items) },
                Some(array),
            ),
            id,
            states.last(),
            Some(array),
        ),
{
    all_types_are_found(f, limit, states, items, Some(tile), wanted, found, List::Nil);
    assert(lookups::item_tile(f, list::held(&array)) == Ok::<Option<Rc<TileType>>, Stop>(
        Some(tile),
    ));
    assert(walk::array_elem_types(f, limit, states[0], items, Some(tile)) matches Ok((after, _))
        && after == states.last()) by {
        reveal_with_fuel(walk::array_elem_types, 2);
    }
    assert(walk::array_rule(f, limit, states[0], items, Some(array)) == read(
        states.last(),
        Some(array),
    )) by {
        reveal_with_fuel(walk::array_rule, 2);
    }
    assert(walk::expr_rule(
        f,
        limit,
        states[0],
        Expr { id, kind: ExprKind::Array(items) },
        Some(array),
    ) == read(states.last(), Some(array))) by {
        reveal_with_fuel(walk::expr_rule, 2);
    }
    reveal_with_fuel(walk::expr_type, 2);
}

/// `[value; len]` is the array of the value's type of that length.
pub proof fn repeated_value_makes_an_array(
    f: Frame,
    limit: nat,
    s: StateView,
    mid: StateView,
    id: Option<NodeId>,
    val: Rc<Expr>,
    len: Rc<Expr>,
    item: Rc<TileType>,
    times: usize,
    tile: Option<Rc<TileType>>,
)
    requires
        walk::expr_type(f, limit, s, *val, None) == read(mid, Some(item)),
        exprs::repeat_length(*f.env.generic_vars, *len) == Some(times),
        ask::compiled(
            f.env,
            Type::Array { elem: item.rust_ty, len: Rc::new(exprs::count_expr(times)) },
        ) == Ok::<Option<Rc<TileType>>, Stop>(tile),
    ensures
        is_of_after(
            walk::expr_type(
                f,
                limit + 1,
                s,
                Expr { id, kind: ExprKind::Repeat { expr: val, len } },
                None,
            ),
            id,
            mid,
            tile,
        ),
{
    reveal_with_fuel(walk::expr_type, 2);
    reveal_with_fuel(walk::expr_rule, 2);
    reveal_with_fuel(walk::repeat_rule, 2);
}

/// A length is a number as it is written, or what a generic name is bound to, where that is not
/// negative.
pub proof fn length_is_a_number_or_a_name(
    vars: env::GenericVars,
    id: Option<NodeId>,
    number: u128,
    path: Path,
    name: Symbol,
    value: i32,
)
    requires
        number <= usize::MAX,
        exprs::single_name(path) == Some(name),
        env::int_of(vars.ints, name) == Some(value),
    ensures
        exprs::repeat_length(
            vars,
            Expr {
                id,
                kind: ExprKind::Lit {
                    lit: Lit::Int { value: Some(number), spelling: None, suffix: None },
                    ty: None,
                },
            },
        ) == Some(number as usize),
        exprs::repeat_length(vars, Expr { id, kind: ExprKind::Path { qself: None, path } }) == (
        if value >= 0 {
            Some(value as usize)
        } else {
            None
        }),
{
    reveal_with_fuel(exprs::repeat_length, 2);
}

// Ranges.

/// A range whose bounds are of a type is of that type; of the end, the type of the start is expected.
pub proof fn range_is_of_its_bounds(
    f: Frame,
    limit: nat,
    s: StateView,
    mid: StateView,
    after: StateView,
    id: Option<NodeId>,
    start: Rc<Expr>,
    end: Rc<Expr>,
    tile: Rc<TileType>,
    other: Option<Rc<TileType>>,
    expected: Option<Rc<TileType>>,
)
    requires
        !exprs::unsuffixed_number(*start),
        walk::expr_type(f, limit, s, *start, None) == read(mid, Some(tile)),
        walk::expr_type(f, limit, mid, *end, Some(tile)) == read(after, other),
    ensures
        is_of_after(
            walk::expr_type(
                f,
                limit + 1,
                s,
                Expr { id, kind: ExprKind::Range { start: Some(start), end: Some(end) } },
                expected,
            ),
            id,
            after,
            Some(tile),
        ),
{
    reveal_with_fuel(walk::expr_type, 2);
    reveal_with_fuel(walk::expr_rule, 2);
    reveal_with_fuel(walk::range_rule, 2);
}

/// A range that starts with a number without a suffix takes the type of its end, which is expected of
/// the number.
pub proof fn number_takes_the_type_of_the_end(
    f: Frame,
    limit: nat,
    s: StateView,
    mid: StateView,
    after: StateView,
    id: Option<NodeId>,
    start: Rc<Expr>,
    end: Rc<Expr>,
    tile: Rc<TileType>,
    expected: Option<Rc<TileType>>,
)
    requires
        exprs::unsuffixed_number(*start),
        walk::expr_type(f, limit, s, *end, None) == read(mid, Some(tile)),
        walk::expr_type(f, limit, mid, *start, Some(tile)) == read(after, Some(tile)),
    ensures
        is_of_after(
            walk::expr_type(
                f,
                limit + 1,
                s,
                Expr { id, kind: ExprKind::Range { start: Some(start), end: Some(end) } },
                expected,
            ),
            id,
            after,
            Some(tile),
        ),
{
    reveal_with_fuel(walk::expr_type, 2);
    reveal_with_fuel(walk::expr_rule, 2);
    reveal_with_fuel(walk::range_rule, 2);
}

// Operators.

/// Of the operands of an operator of which a type is expected, that type is expected, and the
/// operator is of it where its left operand is.
pub proof fn operands_are_of_the_expected_type(
    f: Frame,
    limit: nat,
    s: StateView,
    mid: StateView,
    after: StateView,
    id: Option<NodeId>,
    op: BinOp,
    left: Rc<Expr>,
    right: Rc<Expr>,
    tile: Rc<TileType>,
    lhs: Rc<TileType>,
    rhs: Option<Rc<TileType>>,
)
    requires
        !exprs::gives_bool(op),
        !exprs::unsuffixed_number(*left),
        walk::expr_type(f, limit, s, *left, Some(tile)) == read(mid, Some(lhs)),
        walk::expr_type(f, limit, mid, *right, Some(lhs)) == read(after, rhs),
    ensures
        is_of_after(
            walk::expr_type(
                f,
                limit + 1,
                s,
                Expr { id, kind: ExprKind::Binary { op, left, right } },
                Some(tile),
            ),
            id,
            after,
            Some(lhs),
        ),
{
    reveal_with_fuel(walk::expr_type, 2);
    reveal_with_fuel(walk::expr_rule, 2);
    reveal_with_fuel(walk::binary_rule, 2);
}

/// A number without a suffix on the left of an operator takes the type of the right operand.
pub proof fn number_takes_the_type_of_the_right_operand(
    f: Frame,
    limit: nat,
    s: StateView,
    mid: StateView,
    after: StateView,
    id: Option<NodeId>,
    op: BinOp,
    left: Rc<Expr>,
    right: Rc<Expr>,
    tile: Rc<TileType>,
    rhs: Rc<TileType>,
)
    requires
        !exprs::gives_bool(op),
        exprs::unsuffixed_number(*left),
        walk::expr_type(f, limit, s, *right, Some(tile)) == read(mid, Some(rhs)),
        walk::expr_type(f, limit, mid, *left, Some(rhs)) == read(after, Some(rhs)),
    ensures
        is_of_after(
            walk::expr_type(
                f,
                limit + 1,
                s,
                Expr { id, kind: ExprKind::Binary { op, left, right } },
                Some(tile),
            ),
            id,
            after,
            Some(rhs),
        ),
{
    reveal_with_fuel(walk::expr_type, 2);
    reveal_with_fuel(walk::expr_rule, 2);
    reveal_with_fuel(walk::binary_rule, 2);
}

/// Arithmetic of which nothing is expected is of the one type that both of its operands are of.
pub proof fn arithmetic_is_of_its_operands(
    f: Frame,
    limit: nat,
    s: StateView,
    mid: StateView,
    after: StateView,
    id: Option<NodeId>,
    op: BinOp,
    left: Rc<Expr>,
    right: Rc<Expr>,
    lhs: Rc<TileType>,
    rhs: Rc<TileType>,
)
    requires
        exprs::keeps_operand_type(op),
        unify::term_of(s.inference.terms, id) is None,
        walk::expr_term(f, limit, s, *left, None) == Ok::<(StateView, InferredTy), Stop>(
            (mid, InferredTy::Known(lhs)),
        ),
        walk::expr_term(f, limit, mid, *right, None) == Ok::<(StateView, InferredTy), Stop>(
            (after, InferredTy::Known(rhs)),
        ),
        *lhs.rust_ty == *rhs.rust_ty,
    ensures
        is_of_after(
            walk::expr_type(
                f,
                limit + 2,
                s,
                Expr { id, kind: ExprKind::Binary { op, left, right } },
                None,
            ),
            id,
            after,
            Some(lhs),
        ),
{
    let expr = Expr { id, kind: ExprKind::Binary { op, left, right } };
    exprs::operators_are_of_one_sort(op);
    assert(walk::expr_term(f, limit + 1, s, expr, None) matches Ok((end, term)) && term
        == InferredTy::Known(lhs) && is_but_for(end, after, id)) by {
        reveal_with_fuel(walk::expr_term, 2);
        reveal_with_fuel(walk::term_rule, 2);
        reveal_with_fuel(walk::new_term, 2);
    }
    reveal_with_fuel(walk::expr_type, 2);
    reveal_with_fuel(walk::expr_rule, 2);
    reveal_with_fuel(walk::binary_rule, 2);
}

/// Arithmetic on operands of two different known types has no type.
pub proof fn mixed_arithmetic_has_no_type(
    f: Frame,
    limit: nat,
    s: StateView,
    mid: StateView,
    after: StateView,
    id: Option<NodeId>,
    op: BinOp,
    left: Rc<Expr>,
    right: Rc<Expr>,
    lhs: Rc<TileType>,
    rhs: Rc<TileType>,
)
    requires
        exprs::keeps_operand_type(op),
        unify::term_of(s.inference.terms, id) is None,
        walk::expr_term(f, limit, s, *left, None) == Ok::<(StateView, InferredTy), Stop>(
            (mid, InferredTy::Known(lhs)),
        ),
        walk::expr_term(f, limit, mid, *right, None) == Ok::<(StateView, InferredTy), Stop>(
            (after, InferredTy::Known(rhs)),
        ),
        *lhs.rust_ty != *rhs.rust_ty,
    ensures
        walk::expr_type(
            f,
            limit + 2,
            s,
            Expr { id, kind: ExprKind::Binary { op, left, right } },
            None,
        ) matches Ok((_, found)) && found is None,
{
    exprs::operators_are_of_one_sort(op);
    let expr = Expr { id, kind: ExprKind::Binary { op, left, right } };
    assert(walk::expr_term(f, limit + 1, s, expr, None) matches Ok((_, term)) && term is Unknown)
        by {
        reveal_with_fuel(walk::expr_term, 2);
        reveal_with_fuel(walk::term_rule, 2);
        reveal_with_fuel(walk::new_term, 2);
    }
    reveal_with_fuel(walk::expr_type, 2);
    reveal_with_fuel(walk::expr_rule, 2);
    reveal_with_fuel(walk::binary_rule, 2);
}

/// Of both operands of `&&` and `||` a `bool` is expected.
pub proof fn truth_values_are_combined(
    f: Frame,
    limit: nat,
    s: StateView,
    mid: StateView,
    after: StateView,
    id: Option<NodeId>,
    op: BinOp,
    left: Rc<Expr>,
    right: Rc<Expr>,
    tile: Rc<TileType>,
    lhs: Option<Rc<TileType>>,
    rhs: Option<Rc<TileType>>,
    expected: Option<Rc<TileType>>,
)
    requires
        op is And || op is Or,
        forms::compiles_to(f, scalar::named_type(names::BOOL), tile),
        walk::expr_type(f, limit, s, *left, Some(tile)) == read(mid, lhs),
        walk::expr_type(f, limit, mid, *right, Some(tile)) == read(after, rhs),
    ensures
        is_of_after(
            walk::expr_type(
                f,
                limit + 1,
                s,
                Expr { id, kind: ExprKind::Binary { op, left, right } },
                expected,
            ),
            id,
            after,
            Some(tile),
        ),
{
    let expr = Expr { id, kind: ExprKind::Binary { op, left, right } };
    assert(walk::bool_binary_rule(
        f,
        limit,
        s,
        op,
        list::held(&left),
        list::held(&right),
    ) == read(after, Some(tile))) by {
        reveal_with_fuel(walk::bool_binary_rule, 2);
    }
    assert(walk::binary_rule(
        f,
        limit,
        s,
        expr,
        op,
        list::held(&left),
        list::held(&right),
        expected,
    ) == read(after, Some(tile))) by {
        reveal_with_fuel(walk::binary_rule, 2);
    }
    assert(walk::expr_rule(f, limit, s, expr, expected) == read(after, Some(tile))) by {
        reveal_with_fuel(walk::expr_rule, 2);
    }
    reveal_with_fuel(walk::expr_type, 2);
}

} // verus!

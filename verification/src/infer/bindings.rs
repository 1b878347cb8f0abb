//! What names stand for: after a declaration, in a pattern, in a loop, in a closure.
use crate::ask;
use crate::env::{FieldDef, Fields, Stop, TileType};
use crate::exprs;
use crate::infer::compounds;
use crate::infer::forms;
use crate::infer::patterns;
use crate::infer::state::{self, Frame, StateView};
use crate::infer::walk;
use crate::list::{self, List};
use crate::names;
use crate::results;
use crate::scalar;
use crate::syntax::{
    Block, ClosureParam, Expr, ExprKind, FieldPat, FieldValue, GenericArg, Member, NodeId, Pat,
    Path, Stmt, Symbol, Type,
};
use crate::types;
use crate::unify::{self, BranchTerm, InferredTy};
use std::rc::Rc;
use vstd::prelude::*;

verus! {

/// Whether a name stands for a type that is known.
pub open spec fn stands_for(s: StateView, name: Symbol, tile: Rc<TileType>) -> bool {
    &&& s.vars.contains_key(name) && s.vars[name] == tile
    &&& s.local_terms.contains_key(name) && s.local_terms[name] == InferredTy::Known(tile)
    &&& s.syn_vars.contains_key(name) && s.syn_vars[name] == tile.rust_ty
}

/// Whether a name stands for the same in two states.
pub open spec fn same_name(a: StateView, b: StateView, name: Symbol) -> bool {
    &&& state::looked_up(a.vars, name) == state::looked_up(b.vars, name)
    &&& state::looked_up(a.local_terms, name) == state::looked_up(b.local_terms, name)
    &&& state::looked_up(a.syn_vars, name) == state::looked_up(b.syn_vars, name)
    &&& a.mutable_vars.contains(name) == b.mutable_vars.contains(name)
}

/// A name that is bound stands for what it was bound to, and every other name for what it stood for;
/// nothing else changes.
pub proof fn binding_binds_one_name(
    s: StateView,
    name: Symbol,
    tile: Rc<TileType>,
    ty: Rc<Type>,
    term: InferredTy,
    mutable: bool,
    other: Symbol,
)
    requires
        other != name,
    ensures
        stands_for(state::bound(s, name, tile), name, tile),
        same_name(state::bound(s, name, tile), s, other),
        state::bound(s, name, tile).results == s.results,
        state::bound(s, name, tile).inference == s.inference,
        state::looked_up(state::bound_as_written(s, name, ty).syn_vars, name) == Some(ty),
        same_name(state::bound_as_written(s, name, ty), s, other),
        state::bound_as_written(s, name, ty).vars == s.vars,
        unify::known_type(s.inference.vars, term) is None ==> state::looked_up(
            state::bound_to_term(s, name, term).local_terms,
            name,
        ) == Some(term),
        unify::known_type(s.inference.vars, term) == Some(tile) ==> stands_for(
            state::bound_to_term(s, name, term),
            name,
            tile,
        ),
        same_name(state::bound_to_term(s, name, term), s, other),
        state::marked(s, name, mutable).mutable_vars.contains(name) == (mutable
            || s.mutable_vars.contains(name)),
        same_name(state::marked(s, name, mutable), s, other),
        state::marked(s, name, mutable).vars == s.vars,
{
}

/// What is left of a scope of its own is what was found in it; its names are those of before.
pub proof fn names_of_a_scope_end_with_it(outer: StateView, inner: StateView, name: Symbol)
    ensures
        same_name(state::leaving(outer, inner), outer, name),
        state::leaving(outer, inner).results == inner.results,
        state::leaving(outer, inner).inference == inner.inference,
{
}

// Patterns.

/// Whether patterns are names of their own.
pub open spec fn are_names(pats: List<Pat>, names: Seq<Symbol>) -> bool {
    &&& pats@.len() == names.len()
    &&& forall|i: int|
        0 <= i < names.len() ==> (#[trigger] pats@[i] matches Pat::Ident { name, subpat, .. }
            && name == names[i] && subpat is None)
    &&& forall|i: int, j: int|
        0 <= i < j < names.len() ==> #[trigger] names[i] != #[trigger] names[j]
}

/// A tuple pattern of names binds each name to the type of the item in its place, and no other name.
pub proof fn tuple_pattern_binds_in_order(
    f: Frame,
    s: StateView,
    pats: List<Pat>,
    names: Seq<Symbol>,
    tuple: Rc<TileType>,
    items: List<Type>,
    tiles: Seq<Rc<TileType>>,
    other: Symbol,
)
    requires
        *tuple.rust_ty == Type::Tuple(items),
        are_names(pats, names),
        items@.len() == names.len(),
        tiles.len() == names.len(),
        forall|i: int|
            0 <= i < items@.len() ==> forms::compiles_to(f, #[trigger] items@[i], tiles[i]),
    ensures
        patterns::pattern_compiled(f, s, Pat::Tuple(pats), tuple) matches Ok((after, _)) && {
            &&& forall|i: int|
                0 <= i < names.len() ==> stands_for(after, #[trigger] names[i], tiles[i])
            &&& !names.contains(other) ==> same_name(after, s, other)
            &&& after.results == s.results
            &&& after.inference == s.inference
        },
{
    names_are_bound_in_order(f, s, pats, names, items, tiles, other);
    reveal_with_fuel(patterns::pattern_typed, 2);
    reveal_with_fuel(types::tuple_items, 2);
}

proof fn names_are_bound_in_order(
    f: Frame,
    s: StateView,
    pats: List<Pat>,
    names: Seq<Symbol>,
    items: List<Type>,
    tiles: Seq<Rc<TileType>>,
    other: Symbol,
)
    requires
        are_names(pats, names),
        items@.len() == names.len(),
        tiles.len() == names.len(),
        forall|i: int|
            0 <= i < items@.len() ==> forms::compiles_to(f, #[trigger] items@[i], tiles[i]),
    ensures
        patterns::patterns_typed(f, s, pats, items) matches Ok((after, _)) && {
            &&& forall|i: int|
                0 <= i < names.len() ==> stands_for(after, #[trigger] names[i], tiles[i])
            &&& !names.contains(other) ==> same_name(after, s, other)
            &&& after.results == s.results
            &&& after.inference == s.inference
        },
    decreases pats,
{
    reveal_with_fuel(patterns::patterns_typed, 2);
    if let List::Cons(pat, rest) = pats {
        assert(pats@ == seq![list::held(&pat)] + rest@);
        assert(pats@[0] == list::held(&pat));
        let more = list::held(&items->Cons_1);
        assert(items@ == seq![list::held(&items->Cons_0)] + more@);
        assert(items@[0] == list::held(&items->Cons_0));
        let later = names.skip(1);
        let behind = tiles.skip(1);
        assert forall|i: int| 0 <= i < later.len() implies (#[trigger] rest@[i] matches Pat::Ident {
            name,
            subpat,
            ..
        } && name == later[i] && subpat is None) by {
            assert(pats@[i + 1] == rest@[i]);
            assert(names[i + 1] == later[i]);
        }
        assert forall|i: int, j: int| 0 <= i < j < later.len() implies #[trigger] later[i]
            != #[trigger] later[j] by {
            assert(names[i + 1] == later[i] && names[j + 1] == later[j]);
        }
        assert forall|i: int| 0 <= i < more@.len() implies forms::compiles_to(
            f,
            #[trigger] more@[i],
            behind[i],
        ) by {
            assert(items@[i + 1] == more@[i]);
        }
        let name = names[0];
        let mutable = list::held(&pat)->Ident_mutable;
        let mid = state::bound(state::marked(s, name, mutable), name, tiles[0]);
        assert(patterns::pattern_as_written(f, s, list::held(&pat), items->Cons_0) == Ok::<
            (StateView, ()),
            Stop,
        >((mid, ()))) by {
            reveal_with_fuel(patterns::pattern_as_written, 2);
            reveal_with_fuel(patterns::pattern_typed, 2);
        }
        names_are_bound_in_order(f, mid, list::held(&rest), later, more, behind, other);
        names_are_bound_in_order(f, mid, list::held(&rest), later, more, behind, name);
        let after = patterns::patterns_typed(f, mid, list::held(&rest), more)->Ok_0.0;
        assert(!later.contains(name)) by {
            if later.contains(name) {
                let k = later.index_of(name);
                assert(names[k + 1] == names[0]);
            }
        }
        assert forall|i: int| 0 <= i < names.len() implies stands_for(
            after,
            #[trigger] names[i],
            tiles[i],
        ) by {
            if i > 0 {
                assert(names[i] == later[i - 1]);
                assert(tiles[i] == behind[i - 1]);
            } else {
                assert(stands_for(mid, name, tiles[0]));
            }
        }
        if !names.contains(other) {
            assert(!later.contains(other)) by {
                if later.contains(other) {
                    let k = later.index_of(other);
                    assert(names[k + 1] == other);
                }
            }
            assert(names[0] != other);
        }
    }
}

/// A name in a pattern for a struct's field is bound to the type that the struct declares for it.
pub proof fn field_pattern_binds_the_declared_type(
    f: Frame,
    s: StateView,
    member: Member,
    name: Symbol,
    mutable: bool,
    whole: Rc<TileType>,
    ty: Type,
    tile: Rc<TileType>,
)
    requires
        patterns::member_type(f, *whole.rust_ty, member) == Some(ty),
        forms::compiles_to(f, ty, tile),
    ensures
        patterns::pattern_compiled(
            f,
            s,
            Pat::Struct(
                List::Cons(
                    Rc::new(
                        FieldPat {
                            member,
                            pat: Rc::new(Pat::Ident { name, mutable, subpat: None }),
                        },
                    ),
                    Rc::new(List::Nil),
                ),
            ),
            whole,
        ) matches Ok((after, _)) && stands_for(after, name, tile),
{
    let pat = Pat::Ident { name, mutable, subpat: None };
    let end = state::bound(state::marked(s, name, mutable), name, tile);
    let fields = List::Cons(
        Rc::new(FieldPat { member, pat: Rc::new(pat) }),
        Rc::new(List::Nil),
    );
    assert(patterns::pattern_typed(f, s, pat, Rc::new(ty), Some(tile)) == Ok::<
        (StateView, ()),
        Stop,
    >((end, ())));
    assert(patterns::pattern_as_written(f, s, pat, Rc::new(ty)) == Ok::<(StateView, ()), Stop>(
        (end, ()),
    ));
    assert(patterns::fields_typed(f, end, List::Nil, whole.rust_ty) == Ok::<(StateView, ()), Stop>(
        (end, ()),
    ));
    assert(patterns::fields_typed(f, s, fields, whole.rust_ty) == Ok::<(StateView, ()), Stop>(
        (end, ()),
    ));
    assert(patterns::pattern_typed(f, s, Pat::Struct(fields), whole.rust_ty, Some(whole)) == Ok::<
        (StateView, ()),
        Stop,
    >((end, ())));
}

/// The type of a struct's field is the one that the first definition of the struct declares, under
/// the field's name or in its place.
pub proof fn member_is_as_declared(
    f: Frame,
    path: Path,
    at: int,
    fields: List<FieldDef>,
    types: List<Type>,
    field: int,
    index: u32,
)
    requires
        path.segments@.len() > 0,
        0 <= at < f.env.structs@.len(),
        f.env.structs@[at].name == path.segments@.last().ident,
        forall|i: int|
            0 <= i < at ==> (#[trigger] f.env.structs@[i]).name != path.segments@.last().ident,
    ensures
        f.env.structs@[at].fields == Fields::Named(fields) && 0 <= field < fields@.len() && (
        forall|i: int| 0 <= i < field ==> (#[trigger] fields@[i]).name != fields@[field].name)
            ==> patterns::member_type(
            f,
            Type::Path { qself: None, path },
            Member::Named(fields@[field].name),
        ) == Some(*fields@[field].ty),
        f.env.structs@[at].fields == Fields::Unnamed(types) && index < types@.len()
            ==> patterns::member_type(
            f,
            Type::Path { qself: None, path },
            Member::Unnamed(index),
        ) == Some(types@[index as int]),
{
    forms::struct_is_found(f.env.structs, at);
    if f.env.structs@[at].fields == Fields::Named(fields) && 0 <= field < fields@.len() && (forall|
        i: int,
    | 0 <= i < field ==> (#[trigger] fields@[i]).name != fields@[field].name) {
        forms::field_is_found(fields, field);
    }
}

/// Each name of a slice pattern is bound to the type of the items; `..` binds nothing.
pub proof fn slice_pattern_binds_the_item_type(
    f: Frame,
    s: StateView,
    name: Symbol,
    mutable: bool,
    whole: Rc<TileType>,
    item: Rc<Type>,
    tile: Rc<TileType>,
)
    requires
        *whole.rust_ty == Type::Slice(item) || exists|len: Rc<Expr>|
            *whole.rust_ty == (#[trigger] forms::array_of(item, len)),
        forms::compiles_to(f, *item, tile),
    ensures
        patterns::pattern_compiled(
            f,
            s,
            Pat::Slice(
                List::Cons(
                    Rc::new(Pat::Rest),
                    Rc::new(
                        List::Cons(
                            Rc::new(Pat::Ident { name, mutable, subpat: None }),
                            Rc::new(List::Nil),
                        ),
                    ),
                ),
            ),
            whole,
        ) matches Ok((after, _)) && stands_for(after, name, tile) && after.mutable_vars.contains(
            name,
        ) == (mutable || s.mutable_vars.contains(name)),
{
    reveal_with_fuel(types::item_type, 2);
    assert(types::item_type(list::held(&whole.rust_ty)) == Some(list::held(&item)));
    let pat = Pat::Ident { name, mutable, subpat: None };
    let end = state::bound(state::marked(s, name, mutable), name, tile);
    let last = List::Cons(Rc::new(pat), Rc::new(List::Nil));
    let pats = List::Cons(Rc::new(Pat::Rest), Rc::new(last));
    assert(patterns::pattern_typed(f, s, pat, item, Some(tile)) == Ok::<(StateView, ()), Stop>(
        (end, ()),
    ));
    assert(patterns::pattern_as_written(f, s, pat, item) == Ok::<(StateView, ()), Stop>((end, ())));
    assert(patterns::items_typed(f, end, List::Nil, item) == Ok::<(StateView, ()), Stop>(
        (end, ()),
    ));
    assert(patterns::items_typed(f, s, last, item) == Ok::<(StateView, ()), Stop>((end, ())));
    assert(patterns::items_typed(f, s, pats, item) == Ok::<(StateView, ()), Stop>((end, ())));
    assert(patterns::pattern_typed(f, s, Pat::Slice(pats), whole.rust_ty, Some(whole)) == Ok::<
        (StateView, ()),
        Stop,
    >((end, ())));
}

/// The patterns before the first `..` and those behind it are all others, in their order.
pub proof fn rest_divides_a_pattern(pats: List<Pat>)
    ensures
        match walk::around_rest(pats) {
            Some((before, behind)) => {
                &&& pats@ == before@ + seq![Pat::Rest] + behind@
                &&& forall|i: int| 0 <= i < before@.len() ==> !(#[trigger] before@[i] is Rest)
            },
            None => forall|i: int| 0 <= i < pats@.len() ==> !(#[trigger] pats@[i] is Rest),
        },
    decreases pats,
{
    if let List::Cons(pat, rest) = pats {
        rest_divides_a_pattern(list::held(&rest));
        assert(pats@ == seq![list::held(&pat)] + rest@);
        assert(pats@[0] == list::held(&pat));
        if list::held(&pat) is Rest {
            assert(Seq::<Pat>::empty() + seq![Pat::Rest] + rest@ =~= pats@);
        } else {
            match walk::around_rest(list::held(&rest)) {
                Some((before, behind)) => {
                    let front = List::Cons(pat, Rc::new(before));
                    assert(front@ == seq![list::held(&pat)] + before@);
                    assert(front@ + seq![Pat::Rest] + behind@ =~= pats@);
                    assert forall|i: int| 0 <= i < front@.len() implies !(#[trigger] front@[i]
                        is Rest) by {
                        if i > 0 {
                            assert(front@[i] == before@[i - 1]);
                        }
                    }
                },
                None => {
                    assert forall|i: int| 0 <= i < pats@.len() implies !(#[trigger] pats@[i]
                        is Rest) by {
                        if i > 0 {
                            assert(pats@[i] == rest@[i - 1]);
                        }
                    }
                },
            }
        }
    }
}

/// The end of a list is as long as asked for and has the last items, in their order.
pub proof fn end_of_a_list_has_its_last_items<T, U>(items: List<T>, like: List<U>)
    requires
        like@.len() <= items@.len(),
    ensures
        walk::ending(items, like)@ == items@.skip(items@.len() - like@.len()),
    decreases items,
{
    if items@.len() > like@.len() {
        if let List::Cons(first, rest) = items {
            assert(items@ == seq![list::held(&first)] + rest@);
            end_of_a_list_has_its_last_items(list::held(&rest), like);
            assert(rest@.skip(rest@.len() - like@.len()) =~= items@.skip(
                items@.len() - like@.len(),
            ));
        }
    } else {
        assert(items@.skip(0) =~= items@);
    }
}

// Blocks and declarations.

/// Whether statements are read one after the other, each in the state that the one before left. What
/// is expected of the block is expected of the last one and of those that return.
pub open spec fn statements_in_turn(
    f: Frame,
    limit: nat,
    states: Seq<StateView>,
    stmts: Seq<Stmt>,
    expected: Option<Rc<TileType>>,
    found: Seq<Option<Rc<TileType>>>,
) -> bool {
    &&& states.len() == stmts.len() + 1
    &&& found.len() == stmts.len()
    &&& forall|i: int|
        0 <= i < stmts.len() ==> walk::stmt_type(
            f,
            limit,
            states[i],
            #[trigger] stmts[i],
            if i == stmts.len() - 1 || (stmts[i] matches Stmt::Expr { expr, .. }
                && expr.kind is Return) {
                expected
            } else {
                None
            },
        ) == compounds::read(states[i + 1], found[i])
}

/// A block is of the type of its last statement, whatever its other statements are of.
pub proof fn block_is_of_its_last_statement(
    f: Frame,
    limit: nat,
    states: Seq<StateView>,
    block: Block,
    expected: Option<Rc<TileType>>,
    found: Seq<Option<Rc<TileType>>>,
)
    requires
        statements_in_turn(f, limit, states, block.stmts@, expected, found),
        block.stmts@.len() > 0,
    ensures
        walk::block_type(f, limit + 1, states[0], block, expected) == compounds::read(
            states.last(),
            found.last(),
        ),
{
    statements_are_read(f, limit, states, block.stmts, expected, found, None);
}

proof fn statements_are_read(
    f: Frame,
    limit: nat,
    states: Seq<StateView>,
    stmts: List<Stmt>,
    expected: Option<Rc<TileType>>,
    found: Seq<Option<Rc<TileType>>>,
    before: Option<Rc<TileType>>,
)
    requires
        statements_in_turn(f, limit, states, stmts@, expected, found),
    ensures
        walk::stmts_type(f, limit, states[0], stmts, expected, before) == compounds::read(
            states.last(),
            if stmts@.len() > 0 {
                found.last()
            } else {
                before
            },
        ),
    decreases stmts,
{
    if let List::Cons(first, rest) = stmts {
        assert(stmts@ == seq![list::held(&first)] + rest@);
        assert(stmts@[0] == list::held(&first));
        let later = states.skip(1);
        let more = found.skip(1);
        assert((list::held(&rest) is Nil) == (rest@.len() == 0));
        assert forall|i: int| 0 <= i < rest@.len() implies walk::stmt_type(
            f,
            limit,
            later[i],
            #[trigger] rest@[i],
            if i == rest@.len() - 1 || (rest@[i] matches Stmt::Expr { expr, .. }
                && expr.kind is Return) {
                expected
            } else {
                None
            },
        ) == compounds::read(later[i + 1], more[i]) by {
            assert(stmts@[i + 1] == rest@[i]);
        }
        statements_are_read(f, limit, later, list::held(&rest), expected, more, found[0]);
        assert(later.last() == states.last());
        let wanted = if list::held(&rest) is Nil || exprs::is_return(list::held(&first)) {
            expected
        } else {
            None
        };
        assert(walk::stmt_type(f, limit, states[0], list::held(&first), wanted) == compounds::read(
            states[1],
            found[0],
        ));
    }
}

/// A name that is declared without a type, and set to a value of a type that is known, is of that
/// type.
pub proof fn declared_name_takes_the_type_of_its_value(
    f: Frame,
    limit: nat,
    s: StateView,
    mid: StateView,
    name: Symbol,
    mutable: bool,
    init: Rc<Expr>,
    tile: Rc<TileType>,
    expected: Option<Rc<TileType>>,
    other: Symbol,
)
    requires
        walk::expr_term(f, limit, s, *init, None) == Ok::<(StateView, InferredTy), Stop>(
            (mid, InferredTy::Known(tile)),
        ),
        other != name,
    ensures
        walk::stmt_type(
            f,
            limit + 1,
            s,
            Stmt::Local {
                pat: Rc::new(Pat::Ident { name, mutable, subpat: None }),
                init: Some(init),
            },
            expected,
        ) matches Ok((after, found)) && {
            &&& found == Some(tile)
            &&& stands_for(after, name, tile)
            &&& mutable ==> after.mutable_vars.contains(name)
            &&& same_name(after, mid, other)
            &&& after.results == mid.results
        },
{
    let pat = Pat::Ident { name, mutable, subpat: None };
    let end = state::bound(state::marked(mid, name, mutable), name, tile);
    let stmt = Stmt::Local { pat: Rc::new(pat), init: Some(init) };
    assert(walk::local_init(f, limit, s, pat, Some(init), None) == compounds::read(mid, Some(tile)));
    assert(patterns::pattern_typed(f, mid, pat, tile.rust_ty, Some(tile)) == Ok::<
        (StateView, ()),
        Stop,
    >((end, ())));
    assert(walk::local_binding(f, limit, mid, pat, Some(init), Some(tile)) == Ok::<
        (StateView, ()),
        Stop,
    >((end, ())));
    assert(walk::stmt_rule(f, limit, s, stmt, expected) == compounds::read(end, Some(tile)));
    assert(walk::stmt_type(f, limit + 1, s, stmt, expected) == compounds::read(end, Some(tile)));
}

/// Of the value that a name with a type is set to, that type is expected.
pub proof fn declared_type_is_expected_of_the_value(
    f: Frame,
    limit: nat,
    s: StateView,
    mid: StateView,
    name: Symbol,
    mutable: bool,
    ty: Rc<Type>,
    tile: Rc<TileType>,
    init: Rc<Expr>,
    found: Option<Rc<TileType>>,
    expected: Option<Rc<TileType>>,
    other: Symbol,
)
    requires
        forms::compiles_to(f, *ty, tile),
        walk::expr_type(f, limit, s, *init, Some(tile)) == compounds::read(mid, found),
        other != name,
    ensures
        walk::stmt_type(
            f,
            limit + 1,
            s,
            Stmt::Local {
                pat: Rc::new(
                    Pat::Type { pat: Rc::new(Pat::Ident { name, mutable, subpat: None }), ty },
                ),
                init: Some(init),
            },
            expected,
        ) matches Ok((after, _)) && {
            &&& stands_for(after, name, tile)
            &&& same_name(after, mid, other)
            &&& after.results == mid.results
        },
{
    let inner = Pat::Ident { name, mutable, subpat: None };
    let pat = Pat::Type { pat: Rc::new(inner), ty };
    let end = state::bound(state::marked(mid, name, mutable), name, tile);
    let stmt = Stmt::Local { pat: Rc::new(pat), init: Some(init) };
    assert(exprs::annotation(pat) == Some(list::held(&ty)));
    assert(walk::local_init(f, limit, s, pat, Some(init), Some(tile)) == compounds::read(
        mid,
        found,
    ));
    assert(patterns::pattern_typed(f, mid, inner, ty, Some(tile)) == Ok::<(StateView, ()), Stop>(
        (end, ()),
    ));
    assert(patterns::pattern_as_written(f, mid, inner, ty) == Ok::<(StateView, ()), Stop>(
        (end, ()),
    ));
    assert(patterns::pattern_typed(f, mid, pat, tile.rust_ty, Some(tile)) == Ok::<
        (StateView, ()),
        Stop,
    >((end, ())));
    assert(walk::local_binding(f, limit, mid, pat, Some(init), Some(tile)) == Ok::<
        (StateView, ()),
        Stop,
    >((end, ())));
    assert(walk::stmt_rule(f, limit, s, stmt, expected) == compounds::read(end, Some(tile)));
    assert(walk::stmt_type(f, limit + 1, s, stmt, expected) == compounds::read(end, Some(tile)));
}

/// A constant in a body is of its declared type, which is expected of its value.
pub proof fn constant_is_of_its_declared_type(
    f: Frame,
    limit: nat,
    s: StateView,
    mid: StateView,
    name: Symbol,
    ty: Rc<Type>,
    tile: Rc<TileType>,
    init: Rc<Expr>,
    found: Option<Rc<TileType>>,
    expected: Option<Rc<TileType>>,
)
    requires
        forms::compiles_to(f, *ty, tile),
        walk::expr_type(f, limit, s, *init, Some(tile)) == compounds::read(mid, found),
    ensures
        walk::stmt_type(f, limit + 1, s, Stmt::Const { name, ty, expr: init }, expected) matches Ok(
            (after, _),
        ) && stands_for(after, name, tile) && after.results == mid.results,
{
}

/// The value of a statement without a semicolon is expected as the statement is, one with a semicolon
/// is not, unless it returns.
pub proof fn statement_is_read_as_its_expression(
    f: Frame,
    limit: nat,
    s: StateView,
    expr: Rc<Expr>,
    expected: Option<Rc<TileType>>,
)
    ensures
        walk::stmt_type(f, limit + 1, s, Stmt::Expr { expr, semi: false }, expected)
            == walk::expr_type(f, limit, s, *expr, expected),
        walk::stmt_type(f, limit + 1, s, Stmt::Expr { expr, semi: true }, expected)
            == walk::expr_type(
            f,
            limit,
            s,
            *expr,
            if expr.kind is Return {
                expected
            } else {
                None
            },
        ),
{
}

// Loops and closures.

/// The name of a loop over something of a type stands for that type in the loop's body, and what it
/// stood for before comes back after the loop. A loop has no type.
pub proof fn loop_name_is_of_the_item_type(
    f: Frame,
    limit: nat,
    s: StateView,
    mid: StateView,
    inner: StateView,
    id: Option<NodeId>,
    name: Symbol,
    mutable: bool,
    iter: Rc<Expr>,
    tile: Rc<TileType>,
    body: Block,
    value: Option<Rc<TileType>>,
    entered: StateView,
    expected: Option<Rc<TileType>>,
)
    requires
        walk::iter_rule(f, limit, s, *iter) == compounds::read(mid, Some(tile)),
        stands_for(entered, name, tile),
        entered.results == mid.results,
        entered.inference == mid.inference,
        entered.vars == mid.vars.insert(name, tile),
        entered.local_terms == mid.local_terms.insert(name, InferredTy::Known(tile)),
        entered.syn_vars == mid.syn_vars.insert(name, tile.rust_ty),
        entered.mutable_vars == (if mutable {
            mid.mutable_vars.insert(name)
        } else {
            mid.mutable_vars
        }),
        walk::block_type(f, limit, entered, body, None) == compounds::read(inner, value),
    ensures
        walk::expr_type(
            f,
            limit + 1,
            s,
            Expr {
                id,
                kind: ExprKind::ForLoop {
                    pat: Rc::new(Pat::Ident { name, mutable, subpat: None }),
                    expr: iter,
                    body,
                },
            },
            expected,
        ) matches Ok((after, found)) && {
            &&& found is None
            &&& after.results == inner.results
            &&& after.inference == inner.inference
            &&& forall|any: Symbol| #[trigger] same_name(after, mid, any)
        },
{
    let pat = Pat::Ident { name, mutable, subpat: None };
    let expr = Expr { id, kind: ExprKind::ForLoop { pat: Rc::new(pat), expr: iter, body } };
    let end = state::leaving(mid, inner);
    assert(state::bound(state::marked(mid, name, mutable), name, tile) == entered);
    assert(patterns::pattern_typed(f, mid, pat, tile.rust_ty, Some(tile)) == Ok::<
        (StateView, ()),
        Stop,
    >((entered, ())));
    assert(walk::for_rule(f, limit, s, pat, list::held(&iter), body) == compounds::read(end, None));
    assert(walk::expr_rule(f, limit, s, expr, expected) == compounds::read(end, None));
    assert(walk::expr_type(f, limit + 1, s, expr, expected) == compounds::read(end, None));
}

/// A loop over a range goes over what the range is of; one over a `Dim` goes over integers.
pub proof fn range_is_gone_over_by_its_type(
    f: Frame,
    limit: nat,
    s: StateView,
    mid: StateView,
    iter: Expr,
    tile: Rc<TileType>,
    integer: Option<Rc<TileType>>,
    args: Option<List<GenericArg>>,
    ident: Option<Symbol>,
)
    requires
        !(iter.kind is MethodCall),
        walk::expr_type(f, limit, s, iter, None) == compounds::read(mid, Some(tile)),
        ask::head(f.env, *tile.rust_ty) == Ok::<
            (Option<Symbol>, Option<List<GenericArg>>),
            Stop,
        >((ident, args)),
        ask::compiled(f.env, scalar::named_type(names::I32)) == Ok::<
            Option<Rc<TileType>>,
            Stop,
        >(integer),
    ensures
        ident == Some(names::DIM) ==> walk::iter_rule(f, limit, s, iter) == compounds::read(
            mid,
            integer,
        ),
        ident != Some(names::DIM) ==> walk::iter_rule(f, limit, s, iter) == compounds::read(
            mid,
            Some(tile),
        ),
{
}

/// Each parameter of a closure stands for the type that is given for it, in its place.
pub proof fn closure_parameters_are_bound_in_order(
    f: Frame,
    s: StateView,
    params: List<ClosureParam>,
    given: List<TileType>,
    i: int,
)
    requires
        given@.len() == params@.len(),
        0 <= i < params@.len(),
        forall|j: int| i < j < params@.len() ==> (#[trigger] params@[j]).name != params@[i].name,
    ensures
        walk::closure_params(f, s, params, given) matches Ok((after, _)) && stands_for(
            after,
            params@[i].name,
            Rc::new(given@[i]),
        ),
    decreases params,
{
    if let List::Cons(param, rest) = params {
        let more = list::held(&given->Cons_1);
        assert(params@ == seq![list::held(&param)] + rest@);
        assert(params@[0] == list::held(&param));
        assert(given@ == seq![list::held(&given->Cons_0)] + more@);
        assert(given@[0] == list::held(&given->Cons_0));
        let inner = state::bound(s, param.name, given->Cons_0);
        if i > 0 {
            assert(params@[i] == rest@[i - 1]);
            assert(given@[i] == more@[i - 1]);
            assert forall|j: int| i - 1 < j < rest@.len() implies (#[trigger] rest@[j]).name
                != rest@[i - 1].name by {
                assert(params@[j + 1] == rest@[j]);
            }
            closure_parameters_are_bound_in_order(f, inner, list::held(&rest), more, i - 1);
        } else {
            assert forall|j: int| 0 <= j < rest@.len() implies (#[trigger] rest@[j]).name
                != param.name by {
                assert(params@[j + 1] == rest@[j]);
            }
            other_parameters_leave_a_name(f, inner, list::held(&rest), more, param.name);
        }
    }
}

proof fn other_parameters_leave_a_name(
    f: Frame,
    s: StateView,
    params: List<ClosureParam>,
    given: List<TileType>,
    name: Symbol,
)
    requires
        given@.len() == params@.len(),
        forall|j: int| 0 <= j < params@.len() ==> (#[trigger] params@[j]).name != name,
    ensures
        walk::closure_params(f, s, params, given) matches Ok((after, _)) && same_name(
            after,
            s,
            name,
        ),
    decreases params,
{
    if let List::Cons(param, rest) = params {
        let more = list::held(&given->Cons_1);
        assert(params@ == seq![list::held(&param)] + rest@);
        assert(params@[0] == list::held(&param));
        assert(given@ == seq![list::held(&given->Cons_0)] + more@);
        assert forall|j: int| 0 <= j < rest@.len() implies (#[trigger] rest@[j]).name != name by {
            assert(params@[j + 1] == rest@[j]);
        }
        other_parameters_leave_a_name(
            f,
            state::bound(s, param.name, given->Cons_0),
            list::held(&rest),
            more,
            name,
        );
    }
}

// Conditionals.

/// A conditional of which a type is expected: of the condition a `bool` is expected, of both branches
/// that type; and it is of the type of its first branch.
pub proof fn expected_conditional_types_its_branches(
    f: Frame,
    limit: nat,
    s: StateView,
    one: StateView,
    two: StateView,
    three: StateView,
    id: Option<NodeId>,
    cond: Rc<Expr>,
    then_branch: Block,
    other: Rc<Expr>,
    truth: Rc<TileType>,
    found: Option<Rc<TileType>>,
    lhs: Rc<TileType>,
    rhs: Option<Rc<TileType>>,
    expected: Rc<TileType>,
)
    requires
        forms::compiles_to(f, scalar::named_type(names::BOOL), truth),
        walk::expr_type(f, limit, s, *cond, Some(truth)) == compounds::read(one, found),
        walk::block_type(f, limit, one, then_branch, Some(expected)) == compounds::read(
            two,
            Some(lhs),
        ),
        walk::expr_type(f, limit, two, *other, Some(expected)) == compounds::read(three, rhs),
    ensures
        compounds::is_of_after(
            walk::expr_type(
                f,
                limit + 1,
                s,
                Expr {
                    id,
                    kind: ExprKind::If { cond, then_branch, else_branch: Some(other) },
                },
                Some(expected),
            ),
            id,
            three,
            Some(lhs),
        ),
{
    assert(walk::cond_rule(f, limit, s, list::held(&cond)) == compounds::read(one, found));
    assert(walk::if_expected(f, limit, one, then_branch, Some(other), Some(expected))
        == compounds::read(three, Some(lhs)));
}

/// A conditional of which nothing is expected, and whose branches are of one type that is known, is
/// of that type.
pub proof fn conditional_is_of_its_branches(
    f: Frame,
    limit: nat,
    s: StateView,
    one: StateView,
    two: StateView,
    three: StateView,
    id: Option<NodeId>,
    cond: Rc<Expr>,
    then_branch: Block,
    other: Rc<Expr>,
    truth: Rc<TileType>,
    found: Option<Rc<TileType>>,
    lhs: Rc<TileType>,
    rhs: Rc<TileType>,
)
    requires
        forms::compiles_to(f, scalar::named_type(names::BOOL), truth),
        walk::expr_type(f, limit, s, *cond, Some(truth)) == compounds::read(one, found),
        !exprs::stmts_diverge(then_branch.stmts),
        !exprs::diverges(*other),
        walk::block_term(f, limit, one, then_branch) == Ok::<(StateView, InferredTy), Stop>(
            (two, InferredTy::Known(lhs)),
        ),
        walk::expr_term(f, limit, two, *other, None) == Ok::<(StateView, InferredTy), Stop>(
            (three, InferredTy::Known(rhs)),
        ),
        *lhs.rust_ty == *rhs.rust_ty,
    ensures
        compounds::is_of_after(
            walk::expr_type(
                f,
                limit + 1,
                s,
                Expr {
                    id,
                    kind: ExprKind::If { cond, then_branch, else_branch: Some(other) },
                },
                None,
            ),
            id,
            three,
            Some(lhs),
        ),
{
    let expr = Expr { id, kind: ExprKind::If { cond, then_branch, else_branch: Some(other) } };
    assert(walk::cond_rule(f, limit, s, list::held(&cond)) == compounds::read(one, found));
    assert(walk::then_term(f, limit, one, then_branch) == Ok::<(StateView, BranchTerm), Stop>(
        (two, BranchTerm::Value(InferredTy::Known(lhs))),
    ));
    assert(walk::else_term(f, limit, two, Some(other)) == Ok::<(StateView, BranchTerm), Stop>(
        (three, BranchTerm::Value(InferredTy::Known(rhs))),
    ));
    assert(walk::if_term(f, limit, one, then_branch, Some(other)) == Ok::<
        (StateView, InferredTy),
        Stop,
    >((three, InferredTy::Known(lhs))));
    assert(walk::expr_rule(f, limit, s, expr, None) == compounds::read(three, Some(lhs)));
    assert(walk::expr_type(f, limit + 1, s, expr, None) is Ok);
}

/// Of the condition of a `while` loop a `bool` is expected; the loop has no type, and its names do
/// not leave it.
pub proof fn while_loop_expects_a_truth_value(
    f: Frame,
    limit: nat,
    s: StateView,
    one: StateView,
    two: StateView,
    id: Option<NodeId>,
    cond: Rc<Expr>,
    body: Block,
    truth: Rc<TileType>,
    found: Option<Rc<TileType>>,
    value: Option<Rc<TileType>>,
    expected: Option<Rc<TileType>>,
)
    requires
        forms::compiles_to(f, scalar::named_type(names::BOOL), truth),
        walk::expr_type(f, limit, s, *cond, Some(truth)) == compounds::read(one, found),
        walk::block_type(f, limit, one, body, None) == compounds::read(two, value),
    ensures
        walk::expr_type(
            f,
            limit + 1,
            s,
            Expr { id, kind: ExprKind::While { cond, body } },
            expected,
        ) matches Ok((after, own)) && own is None && after.results == two.results
            && after.inference == two.inference && forall|any: Symbol| #[trigger]
            same_name(after, one, any),
{
    assert(walk::cond_rule(f, limit, s, list::held(&cond)) == compounds::read(one, found));
    assert(walk::scoped_rule(f, limit, one, body) == compounds::read(
        state::leaving(one, two),
        None,
    ));
    assert forall|any: Symbol| #[trigger] same_name(state::leaving(one, two), one, any) by {}
}

// Assignments, structs, options.

/// Of the value that is assigned to a name of a type that is known, that type is expected, and the
/// name keeps it. An assignment has no type.
pub proof fn assigned_value_is_of_the_names_type(
    f: Frame,
    limit: nat,
    s: StateView,
    mid: StateView,
    id: Option<NodeId>,
    path: Path,
    target: Option<NodeId>,
    name: Symbol,
    right: Rc<Expr>,
    tile: Rc<TileType>,
    found: Rc<TileType>,
    expected: Option<Rc<TileType>>,
)
    requires
        exprs::single_name(path) == Some(name),
        s.local_terms.contains_key(name),
        s.local_terms[name] == InferredTy::Known(tile),
        walk::expr_term(f, limit, s, *right, Some(tile)) == Ok::<(StateView, InferredTy), Stop>(
            (mid, InferredTy::Known(found)),
        ),
        *found.rust_ty == *tile.rust_ty,
    ensures
        walk::expr_type(
            f,
            limit + 1,
            s,
            Expr {
                id,
                kind: ExprKind::Assign {
                    left: Rc::new(
                        Expr { id: target, kind: ExprKind::Path { qself: None, path } },
                    ),
                    right,
                },
            },
            expected,
        ) matches Ok((after, own)) && own is None && stands_for(after, name, tile) && after.results
            == mid.results,
{
    assert(walk::assign_rule(f, limit, s, name, list::held(&right)) == Ok::<(StateView, ()), Stop>(
        (state::bound(mid, name, tile), ()),
    ));
}

/// Of the value of a struct's field the type is expected that the struct declares for it, and the
/// struct is of the type that it names.
pub proof fn struct_literal_types_its_fields(
    f: Frame,
    limit: nat,
    s: StateView,
    mid: StateView,
    id: Option<NodeId>,
    path: Path,
    at: int,
    fields: List<FieldDef>,
    field: int,
    val: Rc<Expr>,
    tile: Rc<TileType>,
    found: Option<Rc<TileType>>,
    own: Rc<TileType>,
    expected: Option<Rc<TileType>>,
)
    requires
        path.segments@.len() > 0,
        0 <= at < f.env.structs@.len(),
        f.env.structs@[at].name == path.segments@.last().ident,
        forall|i: int|
            0 <= i < at ==> (#[trigger] f.env.structs@[i]).name != path.segments@.last().ident,
        f.env.structs@[at].fields == Fields::Named(fields),
        0 <= field < fields@.len(),
        forall|i: int| 0 <= i < field ==> (#[trigger] fields@[i]).name != fields@[field].name,
        forms::compiles_to(f, *fields@[field].ty, tile),
        walk::expr_type(f, limit, s, *val, Some(tile)) == compounds::read(mid, found),
        forms::compiles_to(f, Type::Path { qself: None, path }, own),
    ensures
        compounds::is_of_after(
            walk::expr_type(
                f,
                limit + 1,
                s,
                Expr {
                    id,
                    kind: ExprKind::Struct {
                        path,
                        fields: List::Cons(
                            Rc::new(
                                FieldValue {
                                    member: Member::Named(fields@[field].name),
                                    expr: val,
                                },
                            ),
                            Rc::new(List::Nil),
                        ),
                    },
                },
                expected,
            ),
            id,
            mid,
            Some(own),
        ),
{
    forms::struct_is_found(f.env.structs, at);
    forms::field_is_found(fields, field);
    let name = path.segments@.last().ident;
    let values = List::Cons(
        Rc::new(FieldValue { member: Member::Named(fields@[field].name), expr: val }),
        Rc::new(List::Nil),
    );
    assert(walk::expected_field(f, name, Member::Named(fields@[field].name)) == Ok::<
        Option<Rc<TileType>>,
        Stop,
    >(Some(tile)));
    assert(walk::field_values(f, limit, s, name, values) == Ok::<(StateView, ()), Stop>((mid, ())))
        by {
        reveal_with_fuel(walk::field_values, 3);
    }
    assert(walk::struct_rule(f, limit, s, path, values, expected) == compounds::read(
        mid,
        Some(own),
    ));
}

/// `Some(arg)` of which nothing is expected is an `Option` of its argument's type; where an `Option`
/// is expected, it is of that type, and of the argument the type is expected that the `Option`
/// holds.
pub proof fn some_holds_its_argument(
    f: Frame,
    limit: nat,
    s: StateView,
    mid: StateView,
    arg: Expr,
    tile: Rc<TileType>,
    option: Rc<TileType>,
    found: Option<Rc<TileType>>,
    held: Type,
)
    ensures
        walk::expr_type(f, limit, s, arg, None) == compounds::read(mid, Some(tile))
            && forms::compiles_to(f, types::option_of(*tile.rust_ty), option) ==> walk::some_call(
            f,
            limit,
            s,
            arg,
            None,
        ) == compounds::read(mid, Some(option)),
        types::option_payload(*option.rust_ty) == Some(held) && ask::compiled_if_any(f.env, held)
            == Ok::<Option<Rc<TileType>>, Stop>(Some(tile)) && walk::expr_type(
            f,
            limit,
            s,
            arg,
            Some(tile),
        ) == compounds::read(mid, found) ==> walk::some_call(f, limit, s, arg, Some(option))
            == compounds::read(mid, Some(option)),
{
}

} // verus!

//! What each form of expression is typed as, from the types of its parts.
use crate::ask;
use crate::env::{self, FieldDef, Fields, Stop, StructDef, TileType};
use crate::exprs;
use crate::infer::state::{Frame, Outcome, StateView};
use crate::infer::walk;
use crate::list::{self, List};
use crate::names;
use crate::syntax::{Expr, ExprKind, Lit, Member, NodeId, Path, Symbol, Type, UnOp};
use crate::unify::InferredTy;
use std::rc::Rc;
use vstd::prelude::*;

verus! {

/// Whether an expression is found to be of a type.
pub open spec fn is_of(found: Outcome<Option<Rc<TileType>>>, tile: Rc<TileType>) -> bool {
    found matches Ok((_, Some(ty))) && ty == tile
}

/// Whether a type compiles to another.
pub open spec fn compiles_to(f: Frame, ty: Type, tile: Rc<TileType>) -> bool {
    ask::compiled(f.env, ty) == Ok::<Option<Rc<TileType>>, Stop>(Some(tile))
}

/// Whether expressions are read one after the other, each in the state that the one before left and
/// with nothing expected of it, and each is found to be of a type.
pub open spec fn typed_in_turn(
    f: Frame,
    limit: nat,
    states: Seq<StateView>,
    exprs: Seq<Expr>,
    tiles: Seq<Rc<TileType>>,
) -> bool {
    &&& states.len() == exprs.len() + 1
    &&& tiles.len() == exprs.len()
    &&& forall|i: int|
        0 <= i < exprs.len() ==> walk::expr_type(f, limit, states[i], #[trigger] exprs[i], None)
            == Ok::<(StateView, Option<Rc<TileType>>), Stop>((states[i + 1], Some(tiles[i])))
}

// Fields.

/// The field of a tuple is of the type of the item that it numbers.
pub proof fn tuple_field_is_of_its_item(
    f: Frame,
    limit: nat,
    s: StateView,
    mid: StateView,
    id: Option<NodeId>,
    base: Rc<Expr>,
    base_ty: Rc<TileType>,
    items: List<Type>,
    index: u32,
    tile: Rc<TileType>,
    expected: Option<Rc<TileType>>,
)
    requires
        walk::expr_type(f, limit, s, *base, None) == Ok::<
            (StateView, Option<Rc<TileType>>),
            Stop,
        >((mid, Some(base_ty))),
        *base_ty.rust_ty == Type::Tuple(items),
        index < items@.len(),
        compiles_to(f, items@[index as int], tile),
    ensures
        is_of(
            walk::expr_type(
                f,
                limit + 1,
                s,
                Expr { id, kind: ExprKind::Field { base, member: Member::Unnamed(index) } },
                expected,
            ),
            tile,
        ),
{
    reveal_with_fuel(walk::expr_type, 3);
    reveal_with_fuel(walk::expr_rule, 3);
    reveal_with_fuel(walk::field_rule, 3);
}

/// Two fields of a tuple whose items compile to different types are of different types.
pub proof fn tuple_fields_are_told_apart(
    f: Frame,
    limit: nat,
    s: StateView,
    mid: StateView,
    a: Option<NodeId>,
    b: Option<NodeId>,
    base: Rc<Expr>,
    base_ty: Rc<TileType>,
    items: List<Type>,
    i: u32,
    j: u32,
    x: Rc<TileType>,
    y: Rc<TileType>,
)
    requires
        walk::expr_type(f, limit, s, *base, None) == Ok::<
            (StateView, Option<Rc<TileType>>),
            Stop,
        >((mid, Some(base_ty))),
        *base_ty.rust_ty == Type::Tuple(items),
        i < items@.len(),
        j < items@.len(),
        compiles_to(f, items@[i as int], x),
        compiles_to(f, items@[j as int], y),
        x != y,
    ensures
        walk::expr_type(
            f,
            limit + 1,
            s,
            Expr { id: a, kind: ExprKind::Field { base, member: Member::Unnamed(i) } },
            None,
        )->Ok_0.1 != walk::expr_type(
            f,
            limit + 1,
            s,
            Expr { id: b, kind: ExprKind::Field { base, member: Member::Unnamed(j) } },
            None,
        )->Ok_0.1,
{
    tuple_field_is_of_its_item(f, limit, s, mid, a, base, base_ty, items, i, x, None);
    tuple_field_is_of_its_item(f, limit, s, mid, b, base, base_ty, items, j, y, None);
}

/// The field of a struct is of the type that the struct declares for it.
pub proof fn struct_field_is_as_declared(
    f: Frame,
    limit: nat,
    s: StateView,
    mid: StateView,
    id: Option<NodeId>,
    base: Rc<Expr>,
    base_ty: Rc<TileType>,
    path: Path,
    at: int,
    fields: List<FieldDef>,
    field: int,
    tile: Rc<TileType>,
    expected: Option<Rc<TileType>>,
)
    requires
        walk::expr_type(f, limit, s, *base, None) == Ok::<
            (StateView, Option<Rc<TileType>>),
            Stop,
        >((mid, Some(base_ty))),
        *base_ty.rust_ty == (Type::Path { qself: None, path }),
        path.segments@.len() > 0,
        0 <= at < f.env.structs@.len(),
        f.env.structs@[at].name == path.segments@.last().ident,
        forall|i: int|
            0 <= i < at ==> (#[trigger] f.env.structs@[i]).name != path.segments@.last().ident,
        f.env.structs@[at].fields == Fields::Named(fields),
        0 <= field < fields@.len(),
        forall|i: int| 0 <= i < field ==> (#[trigger] fields@[i]).name != fields@[field].name,
        compiles_to(f, *fields@[field].ty, tile),
    ensures
        is_of(
            walk::expr_type(
                f,
                limit + 1,
                s,
                Expr {
                    id,
                    kind: ExprKind::Field { base, member: Member::Named(fields@[field].name) },
                },
                expected,
            ),
            tile,
        ),
{
    struct_is_found(f.env.structs, at);
    field_is_found(fields, field);
    reveal_with_fuel(walk::expr_type, 3);
    reveal_with_fuel(walk::expr_rule, 3);
    reveal_with_fuel(walk::field_rule, 3);
}

/// The fields of a struct are those of the first definition under its name.
pub proof fn struct_is_found(structs: List<StructDef>, at: int)
    requires
        0 <= at < structs@.len(),
        forall|i: int| 0 <= i < at ==> (#[trigger] structs@[i]).name != structs@[at].name,
    ensures
        env::fields_of(structs, structs@[at].name) == Some(structs@[at].fields),
    decreases structs,
{
    if let List::Cons(def, rest) = structs {
        assert(structs@ == seq![list::held(&def)] + rest@);
        if at > 0 {
            assert(structs@[0] == list::held(&def));
            assert(rest@[at - 1] == structs@[at]);
            assert forall|i: int| 0 <= i < at - 1 implies (#[trigger] rest@[i]).name != rest@[at
                - 1].name by {
                assert(structs@[i + 1] == rest@[i]);
            }
            struct_is_found(list::held(&rest), at - 1);
        }
    }
}

/// The type of a field is that of the first one under its name.
pub proof fn field_is_found(fields: List<FieldDef>, at: int)
    requires
        0 <= at < fields@.len(),
        forall|i: int| 0 <= i < at ==> (#[trigger] fields@[i]).name != fields@[at].name,
    ensures
        env::field_type(fields, fields@[at].name) == Some(*fields@[at].ty),
    decreases fields,
{
    if let List::Cons(def, rest) = fields {
        assert(fields@ == seq![list::held(&def)] + rest@);
        if at > 0 {
            assert(fields@[0] == list::held(&def));
            assert(rest@[at - 1] == fields@[at]);
            assert forall|i: int| 0 <= i < at - 1 implies (#[trigger] rest@[i]).name != rest@[at
                - 1].name by {
                assert(fields@[i + 1] == rest@[i]);
            }
            field_is_found(list::held(&rest), at - 1);
        }
    }
}

// Indices.

/// What an index into an array or a slice gives is of the type of its items, whatever the index.
pub proof fn index_is_of_the_item_type(
    f: Frame,
    limit: nat,
    s: StateView,
    mid: StateView,
    id: Option<NodeId>,
    base: Rc<Expr>,
    index: Rc<Expr>,
    base_ty: Rc<TileType>,
    item: Rc<Type>,
    tile: Rc<TileType>,
    expected: Option<Rc<TileType>>,
)
    requires
        walk::expr_type(f, limit, s, *base, None) == Ok::<
            (StateView, Option<Rc<TileType>>),
            Stop,
        >((mid, Some(base_ty))),
        *base_ty.rust_ty == Type::Slice(item) || exists|len: Rc<Expr>|
            *base_ty.rust_ty == (#[trigger] array_of(item, len)),
        compiles_to(f, *item, tile),
    ensures
        is_of(
            walk::expr_type(
                f,
                limit + 1,
                s,
                Expr { id, kind: ExprKind::Index { expr: base, index } },
                expected,
            ),
            tile,
        ),
{
    reveal_with_fuel(walk::expr_type, 3);
    reveal_with_fuel(walk::expr_rule, 3);
    reveal_with_fuel(walk::index_rule, 3);
}

/// `[item; len]`
pub open spec fn array_of(item: Rc<Type>, len: Rc<Expr>) -> Type {
    Type::Array { elem: item, len }
}

/// What a fixed index into a tuple gives is of the type of the item that it numbers.
pub proof fn tuple_index_is_of_its_item(
    f: Frame,
    limit: nat,
    s: StateView,
    mid: StateView,
    id: Option<NodeId>,
    base: Rc<Expr>,
    base_ty: Rc<TileType>,
    items: List<Type>,
    at: Option<NodeId>,
    number: u128,
    tile: Rc<TileType>,
    expected: Option<Rc<TileType>>,
)
    requires
        walk::expr_type(f, limit, s, *base, None) == Ok::<
            (StateView, Option<Rc<TileType>>),
            Stop,
        >((mid, Some(base_ty))),
        *base_ty.rust_ty == Type::Tuple(items),
        number < items@.len(),
        number <= usize::MAX,
        compiles_to(f, items@[number as int], tile),
    ensures
        is_of(
            walk::expr_type(
                f,
                limit + 1,
                s,
                Expr {
                    id,
                    kind: ExprKind::Index {
                        expr: base,
                        index: Rc::new(
                            Expr {
                                id: at,
                                kind: ExprKind::Lit {
                                    lit: Lit::Int {
                                        value: Some(number),
                                        spelling: None,
                                        suffix: None,
                                    },
                                    ty: None,
                                },
                            },
                        ),
                    },
                },
                expected,
            ),
            tile,
        ),
{
    reveal_with_fuel(walk::expr_type, 3);
    reveal_with_fuel(walk::expr_rule, 3);
    reveal_with_fuel(walk::index_rule, 3);
    reveal_with_fuel(exprs::fixed_index, 3);
}

// References, parentheses, blocks.

/// A reference is of the type of a reference to what its referent is, with the same mutability, and
/// compiles as its referent does.
pub proof fn reference_is_to_its_referent(
    f: Frame,
    limit: nat,
    s: StateView,
    mid: StateView,
    id: Option<NodeId>,
    mutable: bool,
    inner: Rc<Expr>,
    tile: Rc<TileType>,
    expected: Option<Rc<TileType>>,
)
    requires
        walk::expr_type(f, limit, s, *inner, None) == Ok::<
            (StateView, Option<Rc<TileType>>),
            Stop,
        >((mid, Some(tile))),
    ensures
        walk::expr_type(
            f,
            limit + 1,
            s,
            Expr { id, kind: ExprKind::Reference { mutable, expr: inner } },
            expected,
        ) matches Ok((_, Some(found))) && {
            &&& *found.rust_ty == (Type::Reference { lifetime: None, mutable, elem: tile.rust_ty })
            &&& found.params == tile.params
            &&& found.handle == tile.handle
        },
{
    reveal_with_fuel(walk::expr_type, 3);
    reveal_with_fuel(walk::expr_rule, 3);
}

/// Parentheses change nothing: what is expected of them is expected of what they hold, and they are
/// of its type.
pub proof fn parentheses_are_what_they_hold(
    f: Frame,
    limit: nat,
    s: StateView,
    id: Option<NodeId>,
    inner: Rc<Expr>,
    expected: Option<Rc<TileType>>,
)
    ensures
        ({
            let whole = walk::expr_type(
                f,
                limit + 1,
                s,
                Expr { id, kind: ExprKind::Paren(inner) },
                expected,
            );
            match walk::expr_type(f, limit, s, *inner, expected) {
                Ok((_, found)) => whole matches Ok((_, ty)) && ty == found,
                Err(stop) => whole == Err::<(StateView, Option<Rc<TileType>>), Stop>(stop),
            }
        }),
{
    reveal_with_fuel(walk::expr_type, 3);
    reveal_with_fuel(walk::expr_rule, 3);
}

// Operators before an operand.

/// What is expected of an operator before its operand is expected of the operand, and the two are of
/// one type.
pub proof fn operator_keeps_the_expected_type(
    f: Frame,
    limit: nat,
    s: StateView,
    id: Option<NodeId>,
    op: UnOp,
    inner: Rc<Expr>,
    expected: Rc<TileType>,
)
    ensures
        ({
            let whole = walk::expr_type(
                f,
                limit + 1,
                s,
                Expr { id, kind: ExprKind::Unary { op, expr: inner } },
                Some(expected),
            );
            match walk::expr_type(f, limit, s, *inner, Some(expected)) {
                Ok((_, found)) => whole matches Ok((_, ty)) && ty == found,
                Err(stop) => whole == Err::<(StateView, Option<Rc<TileType>>), Stop>(stop),
            }
        }),
{
    reveal_with_fuel(walk::expr_type, 3);
    reveal_with_fuel(walk::expr_rule, 3);
}

// Names.

/// A name that stands for a type that is known is of that type, whatever is expected of it.
pub proof fn name_is_of_its_type(
    f: Frame,
    limit: nat,
    s: StateView,
    id: Option<NodeId>,
    path: Path,
    name: Symbol,
    tile: Rc<TileType>,
    expected: Option<Rc<TileType>>,
)
    requires
        exprs::single_name(path) == Some(name),
        name != names::NO_VALUE,
        s.local_terms.contains_key(name),
        s.local_terms[name] == InferredTy::Known(tile),
    ensures
        is_of(
            walk::expr_type(
                f,
                limit + 1,
                s,
                Expr { id, kind: ExprKind::Path { qself: None, path } },
                expected,
            ),
            tile,
        ),
{
    reveal_with_fuel(walk::expr_type, 2);
    reveal_with_fuel(walk::expr_rule, 2);
}

// Literals.

/// A literal with a suffix of which nothing is expected is of the type of its suffix.
pub proof fn suffix_types_a_literal(
    f: Frame,
    limit: nat,
    s: StateView,
    id: Option<NodeId>,
    lit: Lit,
    ty: Rc<Type>,
    tile: Rc<TileType>,
)
    requires
        compiles_to(f, *ty, tile),
    ensures
        is_of(
            walk::expr_type(
                f,
                limit + 1,
                s,
                Expr { id, kind: ExprKind::Lit { lit, ty: Some(ty) } },
                None,
            ),
            tile,
        ),
{
    reveal_with_fuel(walk::expr_type, 2);
    reveal_with_fuel(walk::expr_rule, 2);
}

} // verus!

//! What holds of the rules of inference, whatever the program.
use crate::ask;
use crate::env::{Stop, TileType};
use crate::exprs;
use crate::infer::lookups;
use crate::infer::state::{self, Frame, StateView};
use crate::infer::walk;
use crate::list::List;
use crate::resolved;
use crate::results;
use crate::syntax::{BinOp, Block, ClosureParam, Expr, ExprKind, Lit, NodeId, Pat, Stmt, Symbol, Type};
use crate::types;
use crate::unify::{self, BranchTerm, InferredTy};
use std::rc::Rc;
use vstd::prelude::*;

verus! {

/// Whether names stand for the same in two states.
pub open spec fn same_names(a: StateView, b: StateView) -> bool {
    &&& a.vars == b.vars
    &&& a.syn_vars == b.syn_vars
    &&& a.local_terms == b.local_terms
    &&& a.mutable_vars == b.mutable_vars
}

/// A type that is found for an expression is filed for it.
pub proof fn found_type_is_filed(
    f: Frame,
    limit: nat,
    s: StateView,
    expr: Expr,
    expected: Option<Rc<TileType>>,
)
    requires
        walk::expr_type(f, limit, s, expr, expected) is Ok,
    ensures
        ({
            let (after, found) = walk::expr_type(f, limit, s, expr, expected)->Ok_0;
            expr.id is Some && found is Some ==> {
                &&& results::filed(after.results.tiles, expr.id) == found
                &&& results::filed(after.results.resolved, expr.id) == Some(
                    Rc::new(resolved::resolved(*f.env.names, *found->0.rust_ty)),
                )
            }
        }),
{
}

/// A name that is declared with a type that compiles is of that type, whatever it is set to.
pub proof fn declared_name_has_its_type(
    f: Frame,
    limit: nat,
    s: StateView,
    name: Symbol,
    mutable: bool,
    ty: Rc<Type>,
    tile: Rc<TileType>,
    init: Option<Rc<Expr>>,
    expected: Option<Rc<TileType>>,
)
    requires
        ask::compiled(f.env, *ty) == Ok::<Option<Rc<TileType>>, Stop>(Some(tile)),
        walk::stmt_type(f, limit, s, declaration(name, mutable, ty, init), expected) is Ok,
    ensures
        ({
            let (after, found) = walk::stmt_type(
                f,
                limit,
                s,
                declaration(name, mutable, ty, init),
                expected,
            )->Ok_0;
            &&& found == Some(tile)
            &&& state::looked_up(after.vars, name) == Some(tile)
            &&& state::looked_up(after.local_terms, name) == Some(InferredTy::Known(tile))
            &&& mutable ==> after.mutable_vars.contains(name)
        }),
{
    let pat = Pat::Type {
        pat: Rc::new(Pat::Ident { name, mutable, subpat: None }),
        ty,
    };
    assert(exprs::annotation(pat) == Some(*ty));
    let below = (limit - 1) as nat;
    if let Ok((s, init_type)) = walk::local_init(f, below, s, pat, init, Some(tile)) {
        assert(walk::local_binding(f, below, s, pat, init, Some(tile)) == Ok::<
            (StateView, ()),
            Stop,
        >((state::bound(state::marked(s, name, mutable), name, tile), ()))) by {
            reveal_with_fuel(crate::infer::patterns::pattern_typed, 3);
            reveal_with_fuel(crate::infer::patterns::pattern_as_written, 2);
        }
    }
}

/// `let name: ty = init;`
pub open spec fn declaration(
    name: Symbol,
    mutable: bool,
    ty: Rc<Type>,
    init: Option<Rc<Expr>>,
) -> Stmt {
    Stmt::Local {
        pat: Rc::new(
            Pat::Type { pat: Rc::new(Pat::Ident { name, mutable, subpat: None }), ty },
        ),
        init,
    }
}

/// An operator that compares or combines truth values gives a `bool`, whatever is expected of it.
pub proof fn comparisons_give_bool(
    f: Frame,
    limit: nat,
    s: StateView,
    id: Option<NodeId>,
    op: BinOp,
    left: Rc<Expr>,
    right: Rc<Expr>,
    expected: Option<Rc<TileType>>,
)
    requires
        exprs::gives_bool(op),
        walk::expr_type(
            f,
            limit,
            s,
            Expr { id, kind: ExprKind::Binary { op, left, right } },
            expected,
        ) is Ok,
    ensures
        lookups::bool_tile(f) == Ok::<Option<Rc<TileType>>, Stop>(
            walk::expr_type(
                f,
                limit,
                s,
                Expr { id, kind: ExprKind::Binary { op, left, right } },
                expected,
            )->Ok_0.1,
        ),
{
    reveal_with_fuel(walk::expr_type, 4);
    reveal_with_fuel(walk::expr_rule, 4);
    reveal_with_fuel(walk::binary_rule, 4);
    reveal_with_fuel(walk::bool_binary_rule, 4);
}

/// A literal of which a type is expected is of that type.
pub proof fn expected_literal_is_of_its_type(
    f: Frame,
    limit: nat,
    s: StateView,
    id: Option<NodeId>,
    lit: Lit,
    own: Option<Rc<Type>>,
    expected: Rc<TileType>,
)
    requires
        limit > 0,
    ensures
        walk::expr_type(
            f,
            limit,
            s,
            Expr { id, kind: ExprKind::Lit { lit, ty: own } },
            Some(expected),
        ) matches Ok((_, found)) && found == Some(expected),
{
    reveal_with_fuel(walk::expr_type, 3);
    reveal_with_fuel(walk::expr_rule, 3);
}

/// A cast is of the type that it names, and that type is filed for it as it is written, even where
/// it does not compile.
pub proof fn cast_is_of_the_type_it_names(
    f: Frame,
    limit: nat,
    s: StateView,
    expr: Expr,
    source: Expr,
    ty: Rc<Type>,
)
    requires
        walk::cast_rule(f, limit, s, expr, source, ty) is Ok,
    ensures
        ({
            let (after, found) = walk::cast_rule(f, limit, s, expr, source, ty)->Ok_0;
            &&& found matches Some(tile) ==> ask::compiled(f.env, *ty) == Ok::<
                Option<Rc<TileType>>,
                Stop,
            >(Some(tile))
            &&& ask::compiled(f.env, *ty) is Err ==> types::surface_only(*ty)
            &&& expr.id is Some ==> results::filed(after.results.resolved, expr.id) == Some(
                Rc::new(resolved::resolved(*f.env.names, *ty)),
            )
        }),
{
    reveal_with_fuel(walk::cast_rule, 2);
}

/// The names that the body of a loop binds do not leave it.
pub proof fn loop_names_stay_inside(f: Frame, limit: nat, s: StateView, block: Block)
    requires
        walk::scoped_rule(f, limit, s, block) is Ok,
    ensures
        same_names(s, walk::scoped_rule(f, limit, s, block)->Ok_0.0),
{
}

/// The names that a closure binds do not leave it.
pub proof fn closure_names_stay_inside(
    f: Frame,
    limit: nat,
    s: StateView,
    params: List<ClosureParam>,
    body: Expr,
    given: List<TileType>,
    expected: Option<Rc<TileType>>,
)
    requires
        walk::closure_rule(f, limit, s, params, body, given, expected) is Ok,
    ensures
        same_names(s, walk::closure_rule(f, limit, s, params, body, given, expected)->Ok_0.0),
{
}

/// A branch that diverges leaves the type of a conditional to the other branch.
pub proof fn diverging_branch_says_nothing(f: Frame, s: StateView, term: InferredTy)
    ensures
        walk::joined(f, s, BranchTerm::Diverges, unify::branch_of(term)) == (s, term),
        walk::joined(f, s, unify::branch_of(term), BranchTerm::Diverges) == (s, term),
{
}

} // verus!

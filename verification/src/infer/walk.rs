//! The rules by which expressions, statements and blocks get their types.
//!
//! A limit goes down by one with every nested block, statement and expression; inference that uses
//! it up stops. What a rule does otherwise does not depend on it, as `steady` shows.
use crate::ask;
use crate::env::{self, Solver, Step, Stop, TileType};
use crate::exprs;
use crate::infer::lookups;
use crate::infer::macros;
use crate::infer::patterns;
use crate::infer::selection;
use crate::infer::state::{self, Frame, Outcome, StateView};
use crate::list::{self, List};
use crate::names;
use crate::receiver;
use crate::results::{self, MethodSelection};
use crate::scalar;
use crate::substitute::{self, ClosureSignature};
use crate::syntax::{
    BinOp, Block, ClosureParam, Expr, ExprKind, FieldValue, FnItem, GenericArg, Lit, Member, Pat,
    Path, QSelf, Stmt, Symbol, Type, UnOp,
};
use crate::types;
use crate::unify::{self, BranchTerm, InferVarKind, InferredTy};
use std::rc::Rc;
use vstd::prelude::*;

verus! {

// Blocks and statements.

/// The type of a block: that of its last statement.
pub open spec fn block_type(
    f: Frame,
    limit: nat,
    s: StateView,
    block: Block,
    expected: Option<Rc<TileType>>,
) -> Outcome<Option<Rc<TileType>>>
    decreases limit, 0int, s,
{
    if limit == 0 {
        Err(Stop::LimitReached)
    } else {
        stmts_type(f, (limit - 1) as nat, s, block.stmts, expected, None)
    }
}

/// The type of the last of some statements, each read in turn; what is expected of the block is
/// expected of its last statement and of those that return.
pub open spec fn stmts_type(
    f: Frame,
    limit: nat,
    s: StateView,
    stmts: List<Stmt>,
    expected: Option<Rc<TileType>>,
    last: Option<Rc<TileType>>,
) -> Outcome<Option<Rc<TileType>>>
    decreases limit, 1int, stmts,
{
    match stmts {
        List::Nil => Ok((s, last)),
        List::Cons(stmt, rest) => {
            let wanted = if *rest is Nil || exprs::is_return(*stmt) {
                expected
            } else {
                None
            };
            match stmt_type(f, limit, s, *stmt, wanted) {
                Err(stop) => Err(stop),
                Ok((s, last)) => stmts_type(f, limit, s, *rest, expected, last),
            }
        },
    }
}

/// The type of a statement.
pub open spec fn stmt_type(
    f: Frame,
    limit: nat,
    s: StateView,
    stmt: Stmt,
    expected: Option<Rc<TileType>>,
) -> Outcome<Option<Rc<TileType>>>
    decreases limit, 0int, s,
{
    if limit == 0 {
        Err(Stop::LimitReached)
    } else {
        stmt_rule(f, (limit - 1) as nat, s, stmt, expected)
    }
}

pub open spec fn stmt_rule(
    f: Frame,
    limit: nat,
    s: StateView,
    stmt: Stmt,
    expected: Option<Rc<TileType>>,
) -> Outcome<Option<Rc<TileType>>>
    decreases limit, 40int, s,
{
    match stmt {
        Stmt::Local { pat, init } => {
            let annotated = match exprs::annotation(*pat) {
                Some(ty) => ask::compiled(f.env, ty),
                None => Ok(None),
            };
            match annotated {
                Err(stop) => Err(stop),
                Ok(annotated) => match local_init(f, limit, s, *pat, init, annotated) {
                    Err(stop) => Err(stop),
                    Ok((s, init_type)) => {
                        let ty = list::or_else(annotated, init_type);
                        match local_binding(f, limit, s, *pat, init, ty) {
                            Err(stop) => Err(stop),
                            Ok((s, _)) => Ok((s, ty)),
                        }
                    },
                },
            }
        },
        Stmt::Expr { expr, semi } => expr_type(
            f,
            limit,
            s,
            *expr,
            if !semi || expr.kind is Return {
                expected
            } else {
                None
            },
        ),
        Stmt::Const { name, ty, expr } => match ask::compiled(f.env, *ty) {
            Err(stop) => Err(stop),
            Ok(declared) => match expr_type(f, limit, s, *expr, declared) {
                Err(stop) => Err(stop),
                Ok((s, init_type)) => Ok(
                    (
                        match list::or_else(declared, init_type) {
                            Some(tile) => state::bound(s, name, tile),
                            None => state::bound_as_written(s, name, ty),
                        },
                        None,
                    ),
                ),
            },
        },
        _ => Ok((s, None)),
    }
}

/// The type of what a variable is set to; a name whose type is not known yet stands for a term.
pub open spec fn local_init(
    f: Frame,
    limit: nat,
    s: StateView,
    pat: Pat,
    init: Option<Rc<Expr>>,
    annotated: Option<Rc<TileType>>,
) -> Outcome<Option<Rc<TileType>>>
    decreases limit, 39int, s,
{
    match init {
        None => Ok((s, None)),
        Some(init) => if annotated is Some {
            expr_type(f, limit, s, *init, annotated)
        } else {
            match expr_term(f, limit, s, *init, None) {
                Err(stop) => Err(stop),
                Ok((s, InferredTy::Known(ty))) => Ok((s, Some(ty))),
                Ok((s, InferredTy::Var(id))) => Ok(
                    (
                        match exprs::binding_name(pat) {
                            Some(name) => state::bound_to_term(s, name, InferredTy::Var(id)),
                            None => s,
                        },
                        None,
                    ),
                ),
                Ok((s, InferredTy::Unknown)) => Ok(
                    (
                        match exprs::binding_name(pat) {
                            Some(name) => state::bound_to_term(
                                state::with_var(s, InferVarKind::General, init.id, Some(*init)),
                                name,
                                unify::next_var(s.inference),
                            ),
                            None => s,
                        },
                        None,
                    ),
                ),
            }
        },
    }
}

/// The names of a variable's pattern bound: to its compiled type, to its type as written, or to
/// what its parts are set to.
pub open spec fn local_binding(
    f: Frame,
    limit: nat,
    s: StateView,
    pat: Pat,
    init: Option<Rc<Expr>>,
    ty: Option<Rc<TileType>>,
) -> Outcome<()>
    decreases limit, 39int, s,
{
    match ty {
        Some(ty) => patterns::pattern_compiled(f, s, pat, ty),
        None => {
            let written = match exprs::annotation(pat) {
                Some(ty) => Some(ty),
                None => match init {
                    Some(init) => results::surface_type(s.results, init.id),
                    None => None,
                },
            };
            match written {
                Some(ty) => patterns::pattern_as_written(f, s, pat, Rc::new(ty)),
                None => match init {
                    Some(init) => pattern_from_expr(f, limit, s, pat, *init),
                    None => Ok((s, ())),
                },
            }
        },
    }
}

// Patterns.

/// The names of a pattern bound to the type of an expression, where it has one.
pub open spec fn pattern_of_expr_type(
    f: Frame,
    limit: nat,
    s: StateView,
    pat: Pat,
    expr: Expr,
) -> Outcome<()>
    decreases limit, 2int, s,
{
    match expr_type(f, limit, s, expr, None) {
        Err(stop) => Err(stop),
        Ok((s, Some(ty))) => patterns::pattern_compiled(f, s, pat, ty),
        Ok((s, None)) => Ok((s, ())),
    }
}

/// The names of a pattern bound to the parts of an expression that they stand for.
pub open spec fn pattern_from_expr(
    f: Frame,
    limit: nat,
    s: StateView,
    pat: Pat,
    expr: Expr,
) -> Outcome<()>
    decreases limit, 30int, pat,
{
    match pat {
        Pat::Ident { name: _, mutable: _, subpat: _ } => match expr_term(f, limit, s, expr, None) {
            Err(stop) => Err(stop),
            Ok((s, term)) => if term is Unknown {
                patterns::pattern_termed(
                    f,
                    state::with_var(s, InferVarKind::General, expr.id, Some(expr)),
                    pat,
                    unify::next_var(s.inference),
                )
            } else {
                patterns::pattern_termed(f, s, pat, term)
            },
        },
        Pat::Type { pat: inner, ty } => match ask::compiled(f.env, *ty) {
            Err(stop) => Err(stop),
            Ok(expected) => match expr_type(f, limit, s, expr, expected) {
                Err(stop) => Err(stop),
                Ok((s, _)) => patterns::pattern_as_written(f, s, *inner, ty),
            },
        },
        Pat::Paren(inner) => pattern_from_expr(f, limit, s, *inner, expr),
        Pat::Reference(inner) => match expr.kind {
            ExprKind::Reference { mutable: _, expr: referent } => pattern_from_expr(
                f,
                limit,
                s,
                *inner,
                *referent,
            ),
            _ => pattern_of_expr_type(f, limit, s, pat, expr),
        },
        Pat::Tuple(pats) => {
            let items = match expr.kind {
                ExprKind::Tuple(items) => if pats@.len() == items@.len() {
                    Some(items)
                } else {
                    None
                },
                _ => None,
            };
            match items {
                Some(items) => patterns_from_exprs(f, limit, s, pats, items),
                None => match expr_type(f, limit, s, expr, None) {
                    Err(stop) => Err(stop),
                    Ok((s, Some(ty))) => patterns::pattern_compiled(f, s, pat, ty),
                    Ok((s, None)) => match results::surface_type(s.results, expr.id) {
                        Some(ty) => patterns::pattern_as_written(f, s, pat, Rc::new(ty)),
                        None => Ok((s, ())),
                    },
                },
            }
        },
        Pat::Slice(pats) => match expr.kind {
            ExprKind::Array(items) => slice_from_array(f, limit, s, pats, items),
            _ => pattern_of_expr_type(f, limit, s, pat, expr),
        },
        Pat::Or(cases) => cases_from_expr(f, limit, s, cases, expr),
        Pat::Wild => Ok((s, ())),
        Pat::Rest => Ok((s, ())),
        _ => pattern_of_expr_type(f, limit, s, pat, expr),
    }
}

pub open spec fn patterns_from_exprs(
    f: Frame,
    limit: nat,
    s: StateView,
    pats: List<Pat>,
    items: List<Expr>,
) -> Outcome<()>
    decreases limit, 30int, pats,
{
    match (pats, items) {
        (List::Cons(pat, pats), List::Cons(item, items)) => match pattern_from_expr(
            f,
            limit,
            s,
            *pat,
            *item,
        ) {
            Err(stop) => Err(stop),
            Ok((s, _)) => patterns_from_exprs(f, limit, s, *pats, *items),
        },
        _ => Ok((s, ())),
    }
}

pub open spec fn cases_from_expr(
    f: Frame,
    limit: nat,
    s: StateView,
    cases: List<Pat>,
    expr: Expr,
) -> Outcome<()>
    decreases limit, 30int, cases,
{
    match cases {
        List::Nil => Ok((s, ())),
        List::Cons(pat, rest) => match pattern_from_expr(f, limit, s, *pat, expr) {
            Err(stop) => Err(stop),
            Ok((s, _)) => cases_from_expr(f, limit, s, *rest, expr),
        },
    }
}

/// The terms of expressions.
pub open spec fn terms_of(
    f: Frame,
    limit: nat,
    s: StateView,
    items: List<Expr>,
) -> Outcome<List<InferredTy>>
    decreases limit, 10int, items,
{
    match items {
        List::Nil => Ok((s, List::Nil)),
        List::Cons(item, rest) => match expr_term(f, limit, s, *item, None) {
            Err(stop) => Err(stop),
            Ok((s, term)) => match terms_of(f, limit, s, *rest) {
                Err(stop) => Err(stop),
                Ok((s, more)) => Ok((s, List::Cons(Rc::new(term), Rc::new(more)))),
            },
        },
    }
}

/// All terms made one, in turn.
pub open spec fn all_unified(
    f: Frame,
    s: StateView,
    so_far: InferredTy,
    terms: List<InferredTy>,
) -> (
    StateView,
    InferredTy,
)
    decreases terms,
{
    match terms {
        List::Nil => (s, so_far),
        List::Cons(term, rest) => {
            let (s, so_far) = state::unified(f, s, so_far, *term);
            all_unified(f, s, so_far, *rest)
        },
    }
}

/// The patterns before the first `..` and those behind it.
pub open spec fn around_rest(pats: List<Pat>) -> Option<(List<Pat>, List<Pat>)>
    decreases pats,
{
    match pats {
        List::Nil => None,
        List::Cons(pat, rest) => if *pat is Rest {
            Some((List::Nil, *rest))
        } else {
            match around_rest(*rest) {
                Some((before, behind)) => Some((List::Cons(pat, Rc::new(before)), behind)),
                None => None,
            }
        },
    }
}

/// As many items from the end of a list as another has; all of them where it has more.
pub open spec fn ending<T, U>(items: List<T>, like: List<U>) -> List<T>
    decreases items,
{
    if items@.len() <= like@.len() {
        items
    } else {
        match items {
            List::Nil => List::Nil,
            List::Cons(_, rest) => ending(*rest, like),
        }
    }
}

/// Patterns bound to terms, as far as there are both; each term is made one with that of all items.
pub open spec fn patterns_termed(
    f: Frame,
    s: StateView,
    pats: List<Pat>,
    terms: List<InferredTy>,
    common: InferredTy,
) -> Outcome<()>
    decreases pats,
{
    match (pats, terms) {
        (List::Cons(pat, pats), List::Cons(term, terms)) => {
            let (s, term) = state::unified(f, s, *term, common);
            match patterns::pattern_termed(f, s, *pat, term) {
                Err(stop) => Err(stop),
                Ok((s, _)) => patterns_termed(f, s, *pats, *terms, common),
            }
        },
        _ => Ok((s, ())),
    }
}

/// The patterns of a slice bound to the terms of its items: those before `..` to the first items,
/// those behind it to the last; where they do not fit, nothing is bound.
pub open spec fn slice_termed(
    f: Frame,
    s: StateView,
    pats: List<Pat>,
    terms: List<InferredTy>,
    common: InferredTy,
) -> Outcome<()> {
    match around_rest(pats) {
        Some((before, behind)) => if before@.len() + behind@.len() > terms@.len() {
            Ok((s, ()))
        } else {
            match patterns_termed(f, s, before, terms, common) {
                Err(stop) => Err(stop),
                Ok((s, _)) => patterns_termed(f, s, behind, ending(terms, behind), common),
            }
        },
        None => if pats@.len() != terms@.len() {
            Ok((s, ()))
        } else {
            patterns_termed(f, s, pats, terms, common)
        },
    }
}

/// The patterns of a slice bound to the items of an array.
pub open spec fn slice_from_array(
    f: Frame,
    limit: nat,
    s: StateView,
    pats: List<Pat>,
    items: List<Expr>,
) -> Outcome<()>
    decreases limit, 20int, s,
{
    match terms_of(f, limit, s, items) {
        Err(stop) => Err(stop),
        Ok((s, terms)) => {
            let (s, common) = all_unified(f, s, InferredTy::Unknown, terms);
            slice_termed(f, s, pats, terms, common)
        },
    }
}

// Expressions.

/// The type of an expression; where it has one, it is recorded and filed.
pub open spec fn expr_type(
    f: Frame,
    limit: nat,
    s: StateView,
    expr: Expr,
    expected: Option<Rc<TileType>>,
) -> Outcome<Option<Rc<TileType>>>
    decreases limit, 0int, s,
{
    if limit == 0 {
        Err(Stop::LimitReached)
    } else {
        match expr_rule(f, (limit - 1) as nat, s, expr, expected) {
            Err(stop) => Err(stop),
            Ok((s, Some(ty))) => Ok(
                (
                    state::filed_tile(
                        f,
                        state::recorded(s, expr.id, InferredTy::Known(ty)),
                        expr.id,
                        ty,
                    ),
                    Some(ty),
                ),
            ),
            Ok((s, None)) => Ok((s, None)),
        }
    }
}

/// The rule for each form of expression.
pub open spec fn expr_rule(
    f: Frame,
    limit: nat,
    s: StateView,
    expr: Expr,
    expected: Option<Rc<TileType>>,
) -> Outcome<Option<Rc<TileType>>>
    decreases limit, 40int, s,
{
    match expr.kind {
        ExprKind::Path { qself, path } => path_rule(f, s, expr, qself, path, expected),
        ExprKind::Reference { mutable, expr: inner } => match expr_type(f, limit, s, *inner, None) {
            Err(stop) => Err(stop),
            Ok((s, Some(ty))) => Ok((s, Some(Rc::new(referenced(*ty, mutable))))),
            Ok((s, None)) => Ok((s, None)),
        },
        ExprKind::Paren(inner) => expr_type(f, limit, s, *inner, expected),
        ExprKind::Block(block) => block_rule(f, limit, s, expr, block, expected),
        ExprKind::Unsafe(block) => block_rule(f, limit, s, expr, block, expected),
        ExprKind::Tuple(elems) => tuple_rule(f, limit, s, elems, expected),
        ExprKind::Array(elems) => array_rule(f, limit, s, elems, expected),
        ExprKind::Repeat { expr: value, len } => repeat_rule(f, limit, s, *value, *len, expected),
        ExprKind::Range { start, end } => range_rule(f, limit, s, start, end),
        ExprKind::Field { base, member } => field_rule(f, limit, s, *base, member, expected),
        ExprKind::Index { expr: base, index } => index_rule(f, limit, s, *base, *index, expected),
        ExprKind::Call { func, args } => call_rule(f, limit, s, expr, func, args, expected),
        ExprKind::MethodCall { receiver, method, turbofish, args } => method_call_rule(
            f,
            limit,
            s,
            expr,
            expected,
        ),
        ExprKind::Struct { path, fields } => struct_rule(f, limit, s, path, fields, expected),
        ExprKind::Macro { path, tokens } => match macros::macro_type(f, path, tokens) {
            Err(stop) => Err(stop),
            Ok(ty) => Ok((s, ty)),
        },
        ExprKind::Cast { expr: source, ty } => cast_rule(f, limit, s, expr, *source, ty),
        ExprKind::Closure { params, body } => match closure_rule(
            f,
            limit,
            s,
            params,
            *body,
            List::Nil,
            None,
        ) {
            Err(stop) => Err(stop),
            Ok((s, _)) => Ok((s, expected)),
        },
        ExprKind::Assign { left, right } => match exprs::expr_name(*left) {
            Some(name) => match assign_rule(f, limit, s, name, *right) {
                Err(stop) => Err(stop),
                Ok((s, _)) => Ok((s, None)),
            },
            None => Ok((s, None)),
        },
        ExprKind::Binary { op, left, right } => binary_rule(
            f,
            limit,
            s,
            expr,
            op,
            *left,
            *right,
            expected,
        ),
        ExprKind::Unary { op, expr: inner } => if expected is None && op is Neg {
            match expr_term(f, limit, s, expr, None) {
                Err(stop) => Err(stop),
                Ok((s, term)) => Ok(settled(s, expr, term)),
            }
        } else {
            expr_type(f, limit, s, *inner, expected)
        },
        ExprKind::Lit { lit, ty } => if expected is Some {
            Ok((s, expected))
        } else {
            match ty {
                Some(ty) => match ask::compiled(f.env, *ty) {
                    Err(stop) => Err(stop),
                    Ok(tile) => Ok((s, tile)),
                },
                None => {
                    let (s, term) = lookups::literal_term(s, expr, lit);
                    Ok((state::recorded(s, expr.id, term), None))
                },
            }
        },
        ExprKind::If { cond, then_branch, else_branch } => match cond_rule(f, limit, s, *cond) {
            Err(stop) => Err(stop),
            Ok((s, _)) => if expected is Some {
                if_expected(f, limit, s, then_branch, else_branch, expected)
            } else {
                match if_term(f, limit, s, then_branch, else_branch) {
                    Err(stop) => Err(stop),
                    Ok((s, term)) => Ok(settled(s, expr, term)),
                }
            },
        },
        ExprKind::ForLoop { pat, expr: iter, body } => for_rule(f, limit, s, *pat, *iter, body),
        ExprKind::While { cond, body } => match cond_rule(f, limit, s, *cond) {
            Err(stop) => Err(stop),
            Ok((s, _)) => scoped_rule(f, limit, s, body),
        },
        ExprKind::Loop(body) => scoped_rule(f, limit, s, body),
        ExprKind::Return(value) => match value {
            Some(value) => match expr_type(f, limit, s, *value, expected) {
                Err(stop) => Err(stop),
                Ok((s, _)) => Ok((s, expected)),
            },
            None => Ok((s, expected)),
        },
        ExprKind::Other(_) => Ok((s, expected)),
    }
}

/// The type of a reference to a value.
pub open spec fn referenced(ty: TileType, mutable: bool) -> TileType {
    TileType { rust_ty: Rc::new(types::reference_to(mutable, *ty.rust_ty)), ..ty }
}

/// What a term says of an expression: its type where that is known; a variable is recorded.
pub open spec fn settled(s: StateView, expr: Expr, term: InferredTy) -> (
    StateView,
    Option<Rc<TileType>>,
) {
    match term {
        InferredTy::Known(ty) => (s, Some(ty)),
        InferredTy::Var(_) => (state::recorded(s, expr.id, term), None),
        InferredTy::Unknown => (s, None),
    }
}

/// The type of a name or a path.
pub open spec fn path_rule(
    f: Frame,
    s: StateView,
    expr: Expr,
    qself: Option<Rc<QSelf>>,
    path: Path,
    expected: Option<Rc<TileType>>,
) -> Outcome<Option<Rc<TileType>>> {
    match exprs::single_name(path) {
        Some(name) => if name == names::NO_VALUE {
            match types::explicit_none(qself is None, path) {
                Some(ty) => match ask::compiled(f.env, ty) {
                    Err(stop) => Err(stop),
                    Ok(tile) => Ok((s, tile)),
                },
                None => Ok(
                    (
                        s,
                        match expected {
                            Some(ty) => if types::option_payload(*ty.rust_ty) is Some {
                                Some(ty)
                            } else {
                                None
                            },
                            None => None,
                        },
                    ),
                ),
            }
        } else {
            match state::looked_up(s.local_terms, name) {
                Some(term) => {
                    let (s, term) = match expected {
                        Some(expected) => state::unified_with_known(f, s, term, expected),
                        None => (s, term),
                    };
                    let s = state::recorded(s, expr.id, term);
                    Ok((s, unify::known_type(s.inference.vars, term)))
                },
                None => match lookups::const_type(f, path) {
                    Err(stop) => Err(stop),
                    Ok(Some(ty)) => Ok((s, Some(ty))),
                    Ok(None) => match lookups::static_type(f, path) {
                        Err(stop) => Err(stop),
                        Ok(Some(ty)) => Ok((s, Some(ty))),
                        Ok(None) => Ok((s, state::looked_up(s.vars, name))),
                    },
                },
            }
        },
        None => match lookups::assoc_const_type(f, qself, path) {
            Err(stop) => Err(stop),
            Ok(Some(ty)) => Ok((s, Some(ty))),
            Ok(None) => match ask::marker(f.env, path) {
                Err(stop) => Err(stop),
                Ok(ty) => Ok((s, Some(ty))),
            },
        },
    }
}

/// The type of a block as an expression; where it has none, the type that is filed for its value is
/// filed for it too.
pub open spec fn block_rule(
    f: Frame,
    limit: nat,
    s: StateView,
    expr: Expr,
    block: Block,
    expected: Option<Rc<TileType>>,
) -> Outcome<Option<Rc<TileType>>>
    decreases limit, 2int, s,
{
    match block_type(f, limit, s, block, expected) {
        Err(stop) => Err(stop),
        Ok((s, Some(ty))) => Ok((s, Some(ty))),
        Ok((s, None)) => match lookups::tail_type(s, block) {
            Some(ty) => Ok((state::filed_as(f, s, expr.id, ty), None)),
            None => Ok((s, None)),
        },
    }
}

/// A condition, of which a `bool` is expected.
pub open spec fn cond_rule(
    f: Frame,
    limit: nat,
    s: StateView,
    cond: Expr,
) -> Outcome<Option<Rc<TileType>>>
    decreases limit, 2int, s,
{
    match lookups::bool_tile(f) {
        Err(stop) => Err(stop),
        Ok(tile) => expr_type(f, limit, s, cond, tile),
    }
}

/// A block of which nothing is expected and whose names do not leave it.
pub open spec fn scoped_rule(
    f: Frame,
    limit: nat,
    s: StateView,
    block: Block,
) -> Outcome<Option<Rc<TileType>>>
    decreases limit, 2int, s,
{
    match block_type(f, limit, s, block, None) {
        Err(stop) => Err(stop),
        Ok((inner, _)) => Ok((state::leaving(s, inner), None)),
    }
}

pub open spec fn for_rule(
    f: Frame,
    limit: nat,
    s: StateView,
    pat: Pat,
    iter: Expr,
    body: Block,
) -> Outcome<Option<Rc<TileType>>>
    decreases limit, 12int, s,
{
    match iter_rule(f, limit, s, iter) {
        Err(stop) => Err(stop),
        Ok((s, item)) => {
            let entered = match item {
                Some(item) => patterns::pattern_compiled(f, s, pat, item),
                None => Ok((s, ())),
            };
            match entered {
                Err(stop) => Err(stop),
                Ok((inner, _)) => match block_type(f, limit, inner, body, None) {
                    Err(stop) => Err(stop),
                    Ok((inner, _)) => Ok((state::leaving(s, inner), None)),
                },
            }
        },
    }
}

/// Both branches of a conditional of which a type is expected.
pub open spec fn if_expected(
    f: Frame,
    limit: nat,
    s: StateView,
    then_branch: Block,
    else_branch: Option<Rc<Expr>>,
    expected: Option<Rc<TileType>>,
) -> Outcome<Option<Rc<TileType>>>
    decreases limit, 2int, s,
{
    match block_type(f, limit, s, then_branch, expected) {
        Err(stop) => Err(stop),
        Ok((s, then_ty)) => match else_branch {
            None => Ok((s, list::or_else(then_ty, expected))),
            Some(other) => match expr_type(f, limit, s, *other, expected) {
                Err(stop) => Err(stop),
                Ok((s, else_ty)) => Ok(
                    (s, list::or_else(then_ty, list::or_else(else_ty, expected))),
                ),
            },
        },
    }
}

// Tuples and arrays.

pub open spec fn tuple_rule(
    f: Frame,
    limit: nat,
    s: StateView,
    elems: List<Expr>,
    expected: Option<Rc<TileType>>,
) -> Outcome<Option<Rc<TileType>>>
    decreases limit, 12int, s,
{
    match expected {
        Some(tuple) => match types::tuple_items(*tuple.rust_ty) {
            Some(items) => if items@.len() == elems@.len() {
                match elems_expected(f, limit, s, elems, items) {
                    Err(stop) => Err(stop),
                    Ok((s, _)) => Ok((s, expected)),
                }
            } else {
                Ok((s, expected))
            },
            None => Ok((s, expected)),
        },
        None => match elem_types(f, limit, s, elems, None, Which::All, List::Nil) {
            Err(stop) => Err(stop),
            Ok((s, found)) => if found@.len() != elems@.len() {
                Ok((s, None))
            } else {
                match ask::compiled(f.env, Type::Tuple(found)) {
                    Err(stop) => Err(stop),
                    Ok(ty) => Ok((s, ty)),
                }
            },
        },
    }
}

/// Each item read with its own type expected.
pub open spec fn elems_expected(
    f: Frame,
    limit: nat,
    s: StateView,
    elems: List<Expr>,
    items: List<Type>,
) -> Outcome<()>
    decreases limit, 11int, elems,
{
    match (elems, items) {
        (List::Cons(elem, elems), List::Cons(item, items)) => match ask::compiled(f.env, *item) {
            Err(stop) => Err(stop),
            Ok(expected) => match expr_type(f, limit, s, *elem, expected) {
                Err(stop) => Err(stop),
                Ok((s, _)) => elems_expected(f, limit, s, *elems, *items),
            },
        },
        _ => Ok((s, ())),
    }
}

/// Which items of an array are read.
#[derive(Clone, Copy, PartialEq, Eq, Structural, Debug)]
pub enum Which {
    All,
    /// Those that are numbers without a suffix.
    Numbers,
    /// Those that are not.
    Others,
}

pub open spec fn is_read(which: Which, elem: Expr) -> bool {
    match which {
        Which::All => true,
        Which::Numbers => exprs::unsuffixed_number(elem),
        Which::Others => !exprs::unsuffixed_number(elem),
    }
}

/// The types of the items that are read and have one, as they are written, behind those found.
pub open spec fn elem_types(
    f: Frame,
    limit: nat,
    s: StateView,
    elems: List<Expr>,
    expected: Option<Rc<TileType>>,
    which: Which,
    found: List<Type>,
) -> Outcome<List<Type>>
    decreases limit, 11int, elems,
{
    match elems {
        List::Nil => Ok((s, found)),
        List::Cons(elem, rest) => if is_read(which, *elem) {
            match expr_type(f, limit, s, *elem, expected) {
                Err(stop) => Err(stop),
                Ok((s, Some(ty))) => elem_types(
                    f,
                    limit,
                    s,
                    *rest,
                    expected,
                    which,
                    found.pushed(*ty.rust_ty),
                ),
                Ok((s, None)) => elem_types(f, limit, s, *rest, expected, which, found),
            }
        } else {
            elem_types(f, limit, s, *rest, expected, which, found)
        },
    }
}

/// Whether all types of a list are one type.
pub open spec fn all_are(list: List<Type>, ty: Type) -> bool
    decreases list,
{
    match list {
        List::Nil => true,
        List::Cons(head, rest) => *head == ty && all_are(*rest, ty),
    }
}

/// The types of an array's items: where nothing is expected of them, numbers without a suffix are
/// read last, and the type of the first other item is expected of them.
pub open spec fn array_elem_types(
    f: Frame,
    limit: nat,
    s: StateView,
    elems: List<Expr>,
    item: Option<Rc<TileType>>,
) -> Outcome<List<Type>>
    decreases limit, 12int, s,
{
    match item {
        Some(_) => elem_types(f, limit, s, elems, item, Which::All, List::Nil),
        None => match elem_types(f, limit, s, elems, None, Which::Others, List::Nil) {
            Err(stop) => Err(stop),
            Ok((s, found)) => {
                let first = match found {
                    List::Cons(ty, _) => ask::compiled_if_any(f.env, *ty),
                    List::Nil => Ok(None),
                };
                match first {
                    Err(stop) => Err(stop),
                    Ok(first) => elem_types(f, limit, s, elems, first, Which::Numbers, found),
                }
            },
        },
    }
}

pub open spec fn array_rule(
    f: Frame,
    limit: nat,
    s: StateView,
    elems: List<Expr>,
    expected: Option<Rc<TileType>>,
) -> Outcome<Option<Rc<TileType>>>
    decreases limit, 13int, s,
{
    let item = match expected {
        Some(ty) => lookups::item_tile(f, *ty),
        None => Ok(None),
    };
    match item {
        Err(stop) => Err(stop),
        Ok(item) => match array_elem_types(f, limit, s, elems, item) {
            Err(stop) => Err(stop),
            Ok((s, found)) => if expected is Some {
                Ok((s, expected))
            } else {
                match found {
                    List::Cons(first, _) => if all_are(found, *first) {
                        match ask::compiled(
                            f.env,
                            lookups::array_type(first, exprs::length(elems)),
                        ) {
                            Err(stop) => Err(stop),
                            Ok(ty) => Ok((s, ty)),
                        }
                    } else {
                        Ok((s, None))
                    },
                    List::Nil => Ok((s, None)),
                }
            },
        },
    }
}

pub open spec fn repeat_rule(
    f: Frame,
    limit: nat,
    s: StateView,
    value: Expr,
    len: Expr,
    expected: Option<Rc<TileType>>,
) -> Outcome<Option<Rc<TileType>>>
    decreases limit, 2int, s,
{
    let item = match expected {
        Some(ty) => lookups::item_tile(f, *ty),
        None => Ok(None),
    };
    match item {
        Err(stop) => Err(stop),
        Ok(item) => match expr_type(f, limit, s, value, item) {
            Err(stop) => Err(stop),
            Ok((s, found)) => if expected is Some {
                Ok((s, expected))
            } else {
                match (found, exprs::repeat_length(*f.env.generic_vars, len)) {
                    (Some(ty), Some(times)) => match ask::compiled(
                        f.env,
                        lookups::array_type(ty.rust_ty, times),
                    ) {
                        Err(stop) => Err(stop),
                        Ok(ty) => Ok((s, ty)),
                    },
                    _ => Ok((s, None)),
                }
            },
        },
    }
}

/// The type of a range's bounds; a number without a suffix at its start takes that of its end.
pub open spec fn range_rule(
    f: Frame,
    limit: nat,
    s: StateView,
    start: Option<Rc<Expr>>,
    end: Option<Rc<Expr>>,
) -> Outcome<Option<Rc<TileType>>>
    decreases limit, 2int, s,
{
    let number_first = match (start, end) {
        (Some(start), Some(_)) => exprs::unsuffixed_number(*start),
        _ => false,
    };
    if number_first {
        match expr_type(f, limit, s, *end->0, None) {
            Err(stop) => Err(stop),
            Ok((s, end_ty)) => match expr_type(f, limit, s, *start->0, end_ty) {
                Err(stop) => Err(stop),
                Ok((s, start_ty)) => Ok((s, list::or_else(start_ty, end_ty))),
            },
        }
    } else {
        let first = match start {
            Some(start) => expr_type(f, limit, s, *start, None),
            None => Ok((s, None)),
        };
        match first {
            Err(stop) => Err(stop),
            Ok((s, start_ty)) => {
                let second = match end {
                    Some(end) => expr_type(f, limit, s, *end, start_ty),
                    None => Ok((s, None)),
                };
                match second {
                    Err(stop) => Err(stop),
                    Ok((s, end_ty)) => if start_ty is None && start is Some && end_ty is Some {
                        match expr_type(f, limit, s, *start->0, end_ty) {
                            Err(stop) => Err(stop),
                            Ok((s, _)) => Ok((s, end_ty)),
                        }
                    } else {
                        Ok((s, list::or_else(start_ty, end_ty)))
                    },
                }
            },
        }
    }
}

// Fields and indices.

pub open spec fn field_rule(
    f: Frame,
    limit: nat,
    s: StateView,
    base: Expr,
    member: Member,
    expected: Option<Rc<TileType>>,
) -> Outcome<Option<Rc<TileType>>>
    decreases limit, 14int, s,
{
    match expr_type(f, limit, s, base, None) {
        Err(stop) => Err(stop),
        Ok((s, None)) => match expected {
            None => Ok((s, None)),
            Some(ty) => match tuple_expected_at_field(f, limit, s, base, member, ty) {
                Err(stop) => Err(stop),
                Ok((s, Some(_))) => Ok((s, expected)),
                Ok((s, None)) => Ok((s, None)),
            },
        },
        Ok((s, Some(base_ty))) => match field_type(f, *base_ty.rust_ty, member) {
            None => Ok((s, None)),
            Some(ty) => match ask::compiled(f.env, ty) {
                Err(stop) => Err(stop),
                Ok(tile) => Ok((s, tile)),
            },
        },
    }
}

/// The type of a tuple's item or of a struct's field.
pub open spec fn field_type(f: Frame, base: Type, member: Member) -> Option<Type> {
    match (base, member) {
        (Type::Tuple(elems), Member::Unnamed(index)) => elems.at(index as int),
        (Type::Path { qself, path }, Member::Named(name)) => if qself is None {
            match exprs::last_name(path) {
                Some(struct_name) => match env::fields_of(f.env.structs, struct_name) {
                    Some(env::Fields::Named(fields)) => env::field_type(fields, name),
                    _ => None,
                },
                None => None,
            }
        } else {
            None
        },
        _ => None,
    }
}

/// The type of a tuple one of whose items is expected to be of a type; the tuple is read again with
/// it expected.
pub open spec fn tuple_expected_at_field(
    f: Frame,
    limit: nat,
    s: StateView,
    base: Expr,
    member: Member,
    elem: Rc<TileType>,
) -> Outcome<Option<Rc<TileType>>>
    decreases limit, 13int, s,
{
    match (member, lookups::tuple_exprs(s, base)) {
        (Member::Unnamed(index), Some(elems)) => if index as int >= elems@.len() {
            Ok((s, None))
        } else {
            match item_types(f, limit, s, elems, Some(index as usize), elem.rust_ty) {
                Err(stop) => Err(stop),
                Ok((s, None)) => Ok((s, None)),
                Ok((s, Some(items))) => match ask::compiled(f.env, Type::Tuple(items)) {
                    Err(stop) => Err(stop),
                    Ok(None) => Ok((s, None)),
                    Ok(Some(tuple)) => match expr_type(f, limit, s, base, Some(tuple)) {
                        Err(stop) => Err(stop),
                        Ok((s, _)) => Ok((s, Some(tuple))),
                    },
                },
            }
        },
        _ => Ok((s, None)),
    }
}

/// The types of a tuple's items, one of which is given; none where one of the others has none.
pub open spec fn item_types(
    f: Frame,
    limit: nat,
    s: StateView,
    elems: List<Expr>,
    given_at: Option<usize>,
    given: Rc<Type>,
) -> Outcome<Option<List<Type>>>
    decreases limit, 12int, elems,
{
    match elems {
        List::Nil => Ok((s, Some(List::Nil))),
        List::Cons(elem, rest) => {
            let first = if given_at == Some(0usize) {
                Ok((s, Some(given)))
            } else {
                written_type(f, limit, s, *elem, None)
            };
            let left = match given_at {
                Some(index) => if index == 0 {
                    None
                } else {
                    Some((index - 1) as usize)
                },
                None => None,
            };
            match first {
                Err(stop) => Err(stop),
                Ok((s, None)) => Ok((s, None)),
                Ok((s, Some(ty))) => match item_types(f, limit, s, *rest, left, given) {
                    Ok((s, Some(more))) => Ok((s, Some(List::Cons(ty, Rc::new(more))))),
                    other => other,
                },
            }
        },
    }
}

pub open spec fn index_rule(
    f: Frame,
    limit: nat,
    s: StateView,
    base: Expr,
    index: Expr,
    expected: Option<Rc<TileType>>,
) -> Outcome<Option<Rc<TileType>>>
    decreases limit, 2int, s,
{
    match expr_type(f, limit, s, base, None) {
        Err(stop) => Err(stop),
        Ok((s, None)) => match expected {
            None => Ok((s, None)),
            Some(elem) => match lookups::array_expected_at_index(f, s, base, elem) {
                Err(stop) => Err(stop),
                Ok((s, None)) => Ok((s, None)),
                Ok((s, Some(array))) => match expr_type(f, limit, s, base, Some(array)) {
                    Err(stop) => Err(stop),
                    Ok((s, _)) => Ok((s, expected)),
                },
            },
        },
        Ok((s, Some(base_ty))) => match indexed_type(f, *base_ty.rust_ty, index) {
            None => Ok((s, None)),
            Some(ty) => match ask::compiled(f.env, ty) {
                Err(stop) => Err(stop),
                Ok(tile) => Ok((s, tile)),
            },
        },
    }
}

/// The type of what an index gives.
pub open spec fn indexed_type(f: Frame, base: Type, index: Expr) -> Option<Type> {
    match base {
        Type::Array { elem, len: _ } => Some(*elem),
        Type::Slice(elem) => Some(*elem),
        Type::Tuple(elems) => match exprs::fixed_index(index) {
            Some(position) => elems.at(position as int),
            None => None,
        },
        Type::Path { qself, path } => if qself is None && names_shape(f, path) {
            Some(scalar::named_type(names::I32))
        } else {
            None
        },
        _ => None,
    }
}

/// Whether a path ends in `Shape`, or in a name that starts with `Shape_`.
pub open spec fn names_shape(f: Frame, path: Path) -> bool {
    match exprs::last_name(path) {
        Some(name) => name == names::SHAPE || names::starts(f.env.names.text_of(name), "Shape_"@),
        None => false,
    }
}

// Structs, casts, closures, assignments.

pub open spec fn struct_rule(
    f: Frame,
    limit: nat,
    s: StateView,
    path: Path,
    fields: List<FieldValue>,
    expected: Option<Rc<TileType>>,
) -> Outcome<Option<Rc<TileType>>>
    decreases limit, 12int, s,
{
    match exprs::last_name(path) {
        None => Ok((s, expected)),
        Some(name) => match field_values(f, limit, s, name, fields) {
            Err(stop) => Err(stop),
            Ok((s, _)) => match ask::compiled(f.env, Type::Path { qself: None, path }) {
                Err(stop) => Err(stop),
                Ok(ty) => Ok((s, list::or_else(ty, expected))),
            },
        },
    }
}

/// What is expected of the value of a struct's field.
pub open spec fn expected_field(
    f: Frame,
    struct_name: Symbol,
    member: Member,
) -> Result<Option<Rc<TileType>>, Stop> {
    match member {
        Member::Unnamed(_) => Ok(None),
        Member::Named(name) => match env::fields_of(f.env.structs, struct_name) {
            Some(env::Fields::Named(fields)) => match env::field_type(fields, name) {
                Some(ty) => ask::compiled_if_any(f.env, ty),
                None => Ok(None),
            },
            _ => Ok(None),
        },
    }
}

pub open spec fn field_values(
    f: Frame,
    limit: nat,
    s: StateView,
    struct_name: Symbol,
    fields: List<FieldValue>,
) -> Outcome<()>
    decreases limit, 11int, fields,
{
    match fields {
        List::Nil => Ok((s, ())),
        List::Cons(field, rest) => match expected_field(f, struct_name, field.member) {
            Err(stop) => Err(stop),
            Ok(expected) => match expr_type(f, limit, s, *field.expr, expected) {
                Err(stop) => Err(stop),
                Ok((s, _)) => field_values(f, limit, s, struct_name, *rest),
            },
        },
    }
}

/// A cast is of the type that it names; `isize` and `usize` need not compile.
pub open spec fn cast_rule(
    f: Frame,
    limit: nat,
    s: StateView,
    expr: Expr,
    source: Expr,
    ty: Rc<Type>,
) -> Outcome<Option<Rc<TileType>>>
    decreases limit, 2int, s,
{
    match expr_type(f, limit, s, source, None) {
        Err(stop) => Err(stop),
        Ok((s, _)) => {
            let s = state::filed_as(f, s, expr.id, *ty);
            match ask::compiled_under(f.env, *ty, List::Nil) {
                Err(stop) => Err(stop),
                Ok(Ok(tile)) => Ok((s, tile)),
                Ok(Err(error)) => if types::surface_only(*ty) {
                    Ok((s, None))
                } else {
                    Err(Stop::Failed(error))
                },
            }
        },
    }
}

/// The parameters of a closure bound: to the given types, else to their own, else to new variables.
pub open spec fn closure_params(
    f: Frame,
    s: StateView,
    params: List<ClosureParam>,
    given: List<TileType>,
) -> Outcome<()>
    decreases params,
{
    match params {
        List::Nil => Ok((s, ())),
        List::Cons(param, rest) => match given {
            List::Cons(ty, given) => closure_params(
                f,
                state::bound(s, param.name, ty),
                *rest,
                *given,
            ),
            List::Nil => match param.ty {
                Some(written) => match ask::compiled(f.env, *written) {
                    Err(stop) => Err(stop),
                    Ok(Some(tile)) => closure_params(
                        f,
                        state::bound(s, param.name, tile),
                        *rest,
                        List::Nil,
                    ),
                    Ok(None) => closure_params(
                        f,
                        state::bound_as_written(s, param.name, written),
                        *rest,
                        List::Nil,
                    ),
                },
                None => closure_params(
                    f,
                    state::bound_to_term(
                        state::with_var(s, InferVarKind::General, None, None),
                        param.name,
                        unify::next_var(s.inference),
                    ),
                    *rest,
                    List::Nil,
                ),
            },
        },
    }
}

/// The body of a closure, whose names do not leave it.
pub open spec fn closure_rule(
    f: Frame,
    limit: nat,
    s: StateView,
    params: List<ClosureParam>,
    body: Expr,
    given: List<TileType>,
    expected: Option<Rc<TileType>>,
) -> Outcome<()>
    decreases limit, 2int, s,
{
    match closure_params(f, s, params, given) {
        Err(stop) => Err(stop),
        Ok((inner, _)) => match expr_type(f, limit, inner, body, expected) {
            Err(stop) => Err(stop),
            Ok((inner, _)) => Ok((state::leaving(s, inner), ())),
        },
    }
}

/// An assignment makes the name's term and the value's one.
pub open spec fn assign_rule(
    f: Frame,
    limit: nat,
    s: StateView,
    name: Symbol,
    value: Expr,
) -> Outcome<()>
    decreases limit, 2int, s,
{
    match state::looked_up(s.local_terms, name) {
        Some(term) => match expr_term(
            f,
            limit,
            s,
            value,
            unify::known_type(s.inference.vars, term),
        ) {
            Err(stop) => Err(stop),
            Ok((s, value_term)) => {
                let (s, term) = state::unified(f, s, term, value_term);
                Ok((state::bound_to_term(s, name, term), ()))
            },
        },
        None => {
            let ty = state::looked_up(s.vars, name);
            match expr_type(f, limit, s, value, ty) {
                Err(stop) => Err(stop),
                Ok((s, value_ty)) => match list::or_else(value_ty, ty) {
                    Some(ty) => Ok((state::bound(s, name, ty), ())),
                    None => Ok((s, ())),
                },
            }
        },
    }
}

// Operators.

/// The operands of an operator that gives a `bool`: they are `bool` themselves, or of one type.
pub open spec fn bool_binary_rule(
    f: Frame,
    limit: nat,
    s: StateView,
    op: BinOp,
    left: Expr,
    right: Expr,
) -> Outcome<Option<Rc<TileType>>>
    decreases limit, 2int, s,
{
    match lookups::bool_tile(f) {
        Err(stop) => Err(stop),
        Ok(tile) => if exprs::combines_bools(op) {
            match expr_type(f, limit, s, left, tile) {
                Err(stop) => Err(stop),
                Ok((s, _)) => match expr_type(f, limit, s, right, tile) {
                    Err(stop) => Err(stop),
                    Ok((s, _)) => Ok((s, tile)),
                },
            }
        } else {
            match expr_term(f, limit, s, left, None) {
                Err(stop) => Err(stop),
                Ok((s, lhs)) => match expr_term(f, limit, s, right, None) {
                    Err(stop) => Err(stop),
                    Ok((s, rhs)) => Ok((state::unified(f, s, lhs, rhs).0, tile)),
                },
            }
        },
    }
}

pub open spec fn binary_rule(
    f: Frame,
    limit: nat,
    s: StateView,
    expr: Expr,
    op: BinOp,
    left: Expr,
    right: Expr,
    expected: Option<Rc<TileType>>,
) -> Outcome<Option<Rc<TileType>>>
    decreases limit, 3int, s,
{
    if exprs::gives_bool(op) {
        bool_binary_rule(f, limit, s, op, left, right)
    } else if expected is None && exprs::keeps_operand_type(op) {
        match expr_term(f, limit, s, expr, None) {
            Err(stop) => Err(stop),
            Ok((s, term)) => Ok(settled(s, expr, term)),
        }
    } else if exprs::unsuffixed_number(left) {
        match expr_type(f, limit, s, right, expected) {
            Err(stop) => Err(stop),
            Ok((s, rhs)) => match expr_type(f, limit, s, left, list::or_else(rhs, expected)) {
                Err(stop) => Err(stop),
                Ok((s, lhs)) => Ok((s, list::or_else(lhs, list::or_else(rhs, expected)))),
            },
        }
    } else {
        match expr_type(f, limit, s, left, expected) {
            Err(stop) => Err(stop),
            Ok((s, lhs)) => match expr_type(f, limit, s, right, list::or_else(lhs, expected)) {
                Err(stop) => Err(stop),
                Ok((s, rhs)) => if lhs is None && rhs is Some {
                    match expr_type(f, limit, s, left, rhs) {
                        Err(stop) => Err(stop),
                        Ok((s, _)) => Ok((s, rhs)),
                    }
                } else {
                    Ok((s, list::or_else(lhs, list::or_else(rhs, expected))))
                },
            },
        }
    }
}

// Terms.

/// The term of an expression: its type where that is known, or a variable for it.
pub open spec fn expr_term(
    f: Frame,
    limit: nat,
    s: StateView,
    expr: Expr,
    expected: Option<Rc<TileType>>,
) -> Outcome<InferredTy>
    decreases limit, 0int, s,
{
    if limit == 0 {
        Err(Stop::LimitReached)
    } else {
        term_rule(f, (limit - 1) as nat, s, expr, expected)
    }
}

pub open spec fn term_rule(
    f: Frame,
    limit: nat,
    s: StateView,
    expr: Expr,
    expected: Option<Rc<TileType>>,
) -> Outcome<InferredTy>
    decreases limit, 40int, s,
{
    match (expected, unify::term_of(s.inference.terms, expr.id)) {
        (Some(expected), Some(term)) => {
            let (s, term) = state::unified_with_known(f, s, term, expected);
            Ok((state::recorded(s, expr.id, term), term))
        },
        (Some(ty), None) => match expr_type(f, limit, s, expr, expected) {
            Err(stop) => Err(stop),
            Ok((s, found)) => Ok(
                (
                    s,
                    InferredTy::Known(
                        match found {
                            Some(found) => found,
                            None => ty,
                        },
                    ),
                ),
            ),
        },
        (None, Some(term)) => Ok((s, term)),
        (None, None) => new_term(f, limit, s, expr),
    }
}

/// The term of an expression that has none yet.
pub open spec fn new_term(f: Frame, limit: nat, s: StateView, expr: Expr) -> Outcome<InferredTy>
    decreases limit, 39int, s,
{
    match expr.kind {
        ExprKind::Path { qself, path } => path_term(f, s, expr, qself, path),
        ExprKind::Lit { lit, ty } => match ty {
            Some(ty) => match ask::compiled(f.env, *ty) {
                Err(stop) => Err(stop),
                Ok(Some(tile)) => Ok((s, InferredTy::Known(tile))),
                Ok(None) => Ok((s, InferredTy::Unknown)),
            },
            None => Ok(lookups::literal_term(s, expr, lit)),
        },
        ExprKind::Unary { op: UnOp::Neg, expr: inner } => same_term(f, limit, s, expr, *inner),
        ExprKind::Paren(inner) => same_term(f, limit, s, expr, *inner),
        ExprKind::Block(block) => block_expr_term(f, limit, s, expr, block),
        ExprKind::Unsafe(block) => block_expr_term(f, limit, s, expr, block),
        ExprKind::Binary { op, left, right } => if exprs::keeps_operand_type(op) {
            match expr_term(f, limit, s, *left, None) {
                Err(stop) => Err(stop),
                Ok((s, lhs)) => match expr_term(f, limit, s, *right, None) {
                    Err(stop) => Err(stop),
                    Ok((s, rhs)) => {
                        let (s, term) = state::unified(f, s, lhs, rhs);
                        Ok((state::recorded(s, expr.id, term), term))
                    },
                },
            }
        } else if exprs::gives_bool(op) {
            match lookups::bool_tile(f) {
                Err(stop) => Err(stop),
                Ok(None) => Ok((s, InferredTy::Unknown)),
                Ok(Some(tile)) => match bool_binary_rule(f, limit, s, op, *left, *right) {
                    Err(stop) => Err(stop),
                    Ok((s, _)) => Ok(
                        (
                            state::recorded(s, expr.id, InferredTy::Known(tile)),
                            InferredTy::Known(tile),
                        ),
                    ),
                },
            }
        } else {
            other_term(f, limit, s, expr)
        },
        ExprKind::Cast { expr: source, ty } => match cast_rule(f, limit, s, expr, *source, ty) {
            Err(stop) => Err(stop),
            Ok((s, None)) => Ok((s, InferredTy::Unknown)),
            Ok((s, Some(tile))) => Ok(
                (
                    state::recorded(s, expr.id, InferredTy::Known(tile)),
                    InferredTy::Known(tile),
                ),
            ),
        },
        ExprKind::If { cond, then_branch, else_branch } => match cond_rule(f, limit, s, *cond) {
            Err(stop) => Err(stop),
            Ok((s, _)) => match if_term(f, limit, s, then_branch, else_branch) {
                Err(stop) => Err(stop),
                Ok((s, term)) => Ok((state::recorded(s, expr.id, term), term)),
            },
        },
        _ => other_term(f, limit, s, expr),
    }
}

/// The term of an expression that has a type or nothing.
pub open spec fn other_term(f: Frame, limit: nat, s: StateView, expr: Expr) -> Outcome<InferredTy>
    decreases limit, 2int, s,
{
    match expr_type(f, limit, s, expr, None) {
        Err(stop) => Err(stop),
        Ok((s, Some(ty))) => Ok((s, InferredTy::Known(ty))),
        Ok((s, None)) => Ok((s, InferredTy::Unknown)),
    }
}

/// The term of an expression that is of the type of another.
pub open spec fn same_term(
    f: Frame,
    limit: nat,
    s: StateView,
    expr: Expr,
    inner: Expr,
) -> Outcome<InferredTy>
    decreases limit, 2int, s,
{
    match expr_term(f, limit, s, inner, None) {
        Err(stop) => Err(stop),
        Ok((s, term)) => Ok((state::recorded(s, expr.id, term), term)),
    }
}

pub open spec fn path_term(
    f: Frame,
    s: StateView,
    expr: Expr,
    qself: Option<Rc<QSelf>>,
    path: Path,
) -> Outcome<InferredTy> {
    match exprs::single_name(path) {
        Some(name) => match state::looked_up(s.local_terms, name) {
            Some(term) => Ok((state::recorded(s, expr.id, term), term)),
            None => match state::looked_up(s.vars, name) {
                Some(ty) => Ok((s, InferredTy::Known(ty))),
                None => match lookups::const_type(f, path) {
                    Err(stop) => Err(stop),
                    Ok(Some(ty)) => Ok((s, InferredTy::Known(ty))),
                    Ok(None) => Ok((s, InferredTy::Unknown)),
                },
            },
        },
        None => match lookups::assoc_const_type(f, qself, path) {
            Err(stop) => Err(stop),
            Ok(Some(ty)) => Ok((s, InferredTy::Known(ty))),
            Ok(None) => Ok((s, InferredTy::Unknown)),
        },
    }
}

/// The term of a block as an expression; a block without one is read for its type.
pub open spec fn block_expr_term(
    f: Frame,
    limit: nat,
    s: StateView,
    expr: Expr,
    block: Block,
) -> Outcome<InferredTy>
    decreases limit, 13int, s,
{
    match block_term(f, limit, s, block) {
        Err(stop) => Err(stop),
        Ok((s, term)) => if term is Unknown {
            match expr_type(f, limit, s, expr, None) {
                Err(stop) => Err(stop),
                Ok((s, Some(ty))) => Ok((s, InferredTy::Known(ty))),
                Ok((s, None)) => Ok((state::recorded(s, expr.id, term), term)),
            }
        } else {
            Ok((state::recorded(s, expr.id, term), term))
        },
    }
}

/// The term of a block: that of the expression that it ends in.
pub open spec fn block_term(f: Frame, limit: nat, s: StateView, block: Block) -> Outcome<InferredTy>
    decreases limit, 12int, s,
{
    stmts_term(f, limit, s, block.stmts)
}

pub open spec fn stmts_term(
    f: Frame,
    limit: nat,
    s: StateView,
    stmts: List<Stmt>,
) -> Outcome<InferredTy>
    decreases limit, 11int, stmts,
{
    match stmts {
        List::Nil => Ok((s, InferredTy::Unknown)),
        List::Cons(stmt, rest) => if *rest is Nil {
            match *stmt {
                Stmt::Expr { expr, semi } => if semi {
                    match expr_type(f, limit, s, *expr, None) {
                        Err(stop) => Err(stop),
                        Ok((s, _)) => Ok((s, InferredTy::Unknown)),
                    }
                } else {
                    expr_term(f, limit, s, *expr, None)
                },
                _ => match stmt_type(f, limit, s, *stmt, None) {
                    Err(stop) => Err(stop),
                    Ok((s, _)) => Ok((s, InferredTy::Unknown)),
                },
            }
        } else {
            match stmt_type(f, limit, s, *stmt, None) {
                Err(stop) => Err(stop),
                Ok((s, _)) => stmts_term(f, limit, s, *rest),
            }
        },
    }
}

/// The term of a conditional: what its branches give, made one; a branch that diverges or of which
/// nothing is known leaves it to the other.
pub open spec fn if_term(
    f: Frame,
    limit: nat,
    s: StateView,
    then_branch: Block,
    else_branch: Option<Rc<Expr>>,
) -> Outcome<InferredTy>
    decreases limit, 14int, s,
{
    match then_term(f, limit, s, then_branch) {
        Err(stop) => Err(stop),
        Ok((s, then_side)) => match else_term(f, limit, s, else_branch) {
            Err(stop) => Err(stop),
            Ok((s, else_side)) => Ok(joined(f, s, then_side, else_side)),
        },
    }
}

pub open spec fn then_term(f: Frame, limit: nat, s: StateView, block: Block) -> Outcome<BranchTerm>
    decreases limit, 13int, s,
{
    if exprs::stmts_diverge(block.stmts) {
        match block_type(f, limit, s, block, None) {
            Err(stop) => Err(stop),
            Ok((s, _)) => Ok((s, BranchTerm::Diverges)),
        }
    } else {
        match block_term(f, limit, s, block) {
            Err(stop) => Err(stop),
            Ok((s, term)) => Ok((s, unify::branch_of(term))),
        }
    }
}

pub open spec fn else_term(
    f: Frame,
    limit: nat,
    s: StateView,
    other: Option<Rc<Expr>>,
) -> Outcome<BranchTerm>
    decreases limit, 13int, s,
{
    match other {
        None => Ok((s, BranchTerm::Unknown)),
        Some(expr) => if exprs::diverges(*expr) {
            match expr_type(f, limit, s, *expr, None) {
                Err(stop) => Err(stop),
                Ok((s, _)) => Ok((s, BranchTerm::Diverges)),
            }
        } else {
            match expr_term(f, limit, s, *expr, None) {
                Err(stop) => Err(stop),
                Ok((s, term)) => Ok((s, unify::branch_of(term))),
            }
        },
    }
}

pub open spec fn joined(f: Frame, s: StateView, lhs: BranchTerm, rhs: BranchTerm) -> (
    StateView,
    InferredTy,
) {
    match (lhs, rhs) {
        (BranchTerm::Value(lhs), BranchTerm::Value(rhs)) => state::unified(f, s, lhs, rhs),
        (BranchTerm::Value(term), _) => (s, term),
        (_, BranchTerm::Value(term)) => (s, term),
        _ => (s, InferredTy::Unknown),
    }
}

// Types as written.

/// The type of an expression as it is written: that of its compiled type, else the one that is
/// filed for it, else that of the name or referent that it is.
pub open spec fn written_type(
    f: Frame,
    limit: nat,
    s: StateView,
    expr: Expr,
    expected: Option<Rc<TileType>>,
) -> Outcome<Option<Rc<Type>>>
    decreases limit, 5int, expr,
{
    match expr_type(f, limit, s, expr, expected) {
        Err(stop) => Err(stop),
        Ok((s, Some(ty))) => Ok((s, Some(ty.rust_ty))),
        Ok((s, None)) => match results::surface_type(s.results, expr.id) {
            Some(ty) => Ok((s, Some(Rc::new(ty)))),
            None => match expr.kind {
                ExprKind::Path { qself: _, path } => match exprs::single_name(path) {
                    Some(name) => Ok((s, state::looked_up(s.syn_vars, name))),
                    None => Ok((s, None)),
                },
                ExprKind::Paren(inner) => written_type(f, limit, s, *inner, None),
                ExprKind::Reference { mutable, expr: inner } => match written_type(
                    f,
                    limit,
                    s,
                    *inner,
                    None,
                ) {
                    Err(stop) => Err(stop),
                    Ok((s, Some(ty))) => Ok(
                        (s, Some(Rc::new(types::reference_to(mutable, *ty)))),
                    ),
                    Ok((s, None)) => Ok((s, None)),
                },
                _ => Ok((s, None)),
            },
        },
    }
}

/// The type of the items that a loop goes over.
pub open spec fn iter_rule(
    f: Frame,
    limit: nat,
    s: StateView,
    iter: Expr,
) -> Outcome<Option<Rc<TileType>>>
    decreases limit, 11int, s,
{
    match iter.kind {
        ExprKind::MethodCall { receiver, method, turbofish: _, args } => if method
            == names::ITER_INDICES && args is Nil {
            match partition_items(f, limit, s, *receiver) {
                Err(stop) => Err(stop),
                Ok((s, Some(item))) => Ok((s, item)),
                Ok((s, None)) => plain_iter(f, limit, s, iter),
            }
        } else if method == names::STEP_BY {
            match stepped_range(*receiver) {
                Some((start, end)) => match args_read(f, limit, s, args) {
                    Err(stop) => Err(stop),
                    Ok((s, _)) => range_rule(f, limit, s, start, end),
                },
                None => plain_iter(f, limit, s, iter),
            }
        } else {
            plain_iter(f, limit, s, iter)
        },
        _ => plain_iter(f, limit, s, iter),
    }
}

/// What a loop over an expression goes over: integers where it is a `Dim`, else what it is.
pub open spec fn plain_iter(
    f: Frame,
    limit: nat,
    s: StateView,
    iter: Expr,
) -> Outcome<Option<Rc<TileType>>>
    decreases limit, 2int, s,
{
    match expr_type(f, limit, s, iter, None) {
        Err(stop) => Err(stop),
        Ok((s, None)) => Ok((s, None)),
        Ok((s, Some(ty))) => match ask::head(f.env, *ty.rust_ty) {
            Err(stop) => Err(stop),
            Ok((ident, _)) => if ident == Some(names::DIM) {
                match ask::compiled(f.env, scalar::named_type(names::I32)) {
                    Err(stop) => Err(stop),
                    Ok(ty) => Ok((s, ty)),
                }
            } else {
                Ok((s, Some(ty)))
            },
        },
    }
}

/// The range under a call of `step_by`, below parentheses.
pub open spec fn stepped_range(receiver: Expr) -> Option<(Option<Rc<Expr>>, Option<Rc<Expr>>)> {
    let inner = match receiver.kind {
        ExprKind::Paren(inner) => *inner,
        _ => receiver,
    };
    match inner.kind {
        ExprKind::Range { start, end } => Some((start, end)),
        _ => None,
    }
}

/// Each argument read with nothing expected.
pub open spec fn args_read(f: Frame, limit: nat, s: StateView, args: List<Expr>) -> Outcome<()>
    decreases limit, 1int, args,
{
    match args {
        List::Nil => Ok((s, ())),
        List::Cons(arg, rest) => match expr_type(f, limit, s, *arg, None) {
            Err(stop) => Err(stop),
            Ok((s, _)) => args_read(f, limit, s, *rest),
        },
    }
}

/// The type of the indices of a mapped partition: decided where the receiver is one, even to be
/// unknown.
pub open spec fn partition_items(
    f: Frame,
    limit: nat,
    s: StateView,
    receiver: Expr,
) -> Outcome<Option<Option<Rc<TileType>>>>
    decreases limit, 10int, s,
{
    match written_type(f, limit, s, receiver, None) {
        Err(stop) => Err(stop),
        Ok((s, None)) => Ok((s, None)),
        Ok((s, Some(ty))) => match partition_index_type(f, *ty) {
            Err(stop) => Err(stop),
            Ok(item) => Ok((s, item)),
        },
    }
}

/// The type of the indices of a mapped partition.
pub open spec fn partition_index_type(
    f: Frame,
    ty: Type,
) -> Result<Option<Option<Rc<TileType>>>, Stop> {
    match ask::head(f.env, ty) {
        Err(stop) => Err(stop),
        Ok((None, _)) => Ok(None),
        Ok((Some(ident), args)) => if names::starts(
            f.env.names.text_of(ident),
            "MappedPartitionMut"@,
        ) {
            match args {
                None => Ok(Some(None)),
                Some(args) => match args.at(1) {
                    None => Ok(Some(None)),
                    Some(shape) => match ask::dims(f.env, shape) {
                        Err(stop) => Err(stop),
                        Ok(None) => Ok(Some(None)),
                        Ok(Some(dims)) => match ask::compiled(
                            f.env,
                            types::shaped_type(names::PARTITION_INDEX, exprs::dim_exprs(dims)),
                        ) {
                            Err(stop) => Err(stop),
                            Ok(ty) => Ok(Some(ty)),
                        },
                    },
                },
            }
        } else {
            Ok(None)
        },
    }
}

// Calls.

/// The compiled types of arguments; none of them where one has none.
pub open spec fn arg_types(
    f: Frame,
    limit: nat,
    s: StateView,
    args: List<Expr>,
) -> Outcome<List<TileType>>
    decreases limit, 1int, args,
{
    match args {
        List::Nil => Ok((s, List::Nil)),
        List::Cons(arg, rest) => match expr_type(f, limit, s, *arg, None) {
            Err(stop) => Err(stop),
            Ok((s, None)) => Ok((s, List::Nil)),
            Ok((s, Some(ty))) => match arg_types(f, limit, s, *rest) {
                Err(stop) => Err(stop),
                Ok((s, more)) => Ok(
                    (
                        s,
                        if more is Nil && !(*rest is Nil) {
                            List::Nil
                        } else {
                            List::Cons(ty, Rc::new(more))
                        },
                    ),
                ),
            },
        },
    }
}

/// A call whose function is named by a path.
pub open spec fn call_rule(
    f: Frame,
    limit: nat,
    s: StateView,
    call: Expr,
    func: Rc<Expr>,
    args: List<Expr>,
    expected: Option<Rc<TileType>>,
) -> Outcome<Option<Rc<TileType>>>
    decreases limit, 38int, s,
{
    match func.kind {
        ExprKind::Path { qself: _, path } => match dim_call(f, limit, s, path, args) {
            Err(stop) => Err(stop),
            Ok((s, Some(ty))) => Ok((s, ty)),
            Ok((s, None)) => match exprs::last_name(path) {
                None => unknown_call(f, limit, s, args, expected),
                Some(name) => if name == names::WITH_VALUE && types::sole(args) is Some {
                    some_call(f, limit, s, types::sole(args)->0, expected)
                } else {
                    match env::function_named(f.env.functions, name) {
                        None => unknown_call(f, limit, s, args, expected),
                        Some(item) => function_call(
                            f,
                            limit,
                            s,
                            item,
                            call,
                            func,
                            args,
                            expected,
                        ),
                    }
                },
            },
        },
        _ => Ok((s, expected)),
    }
}

/// The call of a function that is not known: its arguments are read.
pub open spec fn unknown_call(
    f: Frame,
    limit: nat,
    s: StateView,
    args: List<Expr>,
    expected: Option<Rc<TileType>>,
) -> Outcome<Option<Rc<TileType>>>
    decreases limit, 2int, s,
{
    match arg_types(f, limit, s, args) {
        Err(stop) => Err(stop),
        Ok((s, _)) => Ok((s, expected)),
    }
}

/// The call of `Dim::new` with one argument, of which an `i32` is expected; not decided where the
/// path or the arguments are others, or where `i32` has no compiled type.
pub open spec fn dim_call(
    f: Frame,
    limit: nat,
    s: StateView,
    path: Path,
    args: List<Expr>,
) -> Outcome<Option<Option<Rc<TileType>>>>
    decreases limit, 2int, s,
{
    match types::sole(args) {
        Some(arg) => if exprs::names_dim_new(path) {
            match ask::compiled(f.env, scalar::named_type(names::I32)) {
                Err(stop) => Err(stop),
                Ok(None) => Ok((s, None)),
                Ok(Some(integer)) => match expr_type(f, limit, s, arg, Some(integer)) {
                    Err(stop) => Err(stop),
                    Ok((s, _)) => match ask::compiled(f.env, scalar::named_type(names::DIM)) {
                        Err(stop) => Err(stop),
                        Ok(ty) => Ok((s, Some(ty))),
                    },
                },
            }
        } else {
            Ok((s, None))
        },
        None => Ok((s, None)),
    }
}

/// `Some(arg)`
pub open spec fn some_call(
    f: Frame,
    limit: nat,
    s: StateView,
    arg: Expr,
    expected: Option<Rc<TileType>>,
) -> Outcome<Option<Rc<TileType>>>
    decreases limit, 2int, s,
{
    match expected {
        Some(option) => {
            let payload = match types::option_payload(*option.rust_ty) {
                Some(ty) => ask::compiled_if_any(f.env, ty),
                None => Ok(None),
            };
            match payload {
                Err(stop) => Err(stop),
                Ok(payload) => match expr_type(f, limit, s, arg, payload) {
                    Err(stop) => Err(stop),
                    Ok((s, _)) => Ok((s, expected)),
                },
            }
        },
        None => match expr_type(f, limit, s, arg, None) {
            Err(stop) => Err(stop),
            Ok((s, None)) => Ok((s, None)),
            Ok((s, Some(payload))) => match ask::compiled(
                f.env,
                types::option_of(*payload.rust_ty),
            ) {
                Err(stop) => Err(stop),
                Ok(ty) => Ok((s, ty)),
            },
        },
    }
}

/// The call of a function: its closures are read first, then its arguments; a wrapper is read as
/// the method call that it stands for, where that means a method.
pub open spec fn function_call(
    f: Frame,
    limit: nat,
    s: StateView,
    item: FnItem,
    call: Expr,
    func: Rc<Expr>,
    args: List<Expr>,
    expected: Option<Rc<TileType>>,
) -> Outcome<Option<Rc<TileType>>>
    decreases limit, 37int, s,
{
    match closure_args(f, limit, s, item, func, args, expected) {
        Err(stop) => Err(stop),
        Ok((s, _)) => match call_arg_types(f, limit, s, item, func, args, expected) {
            Err(stop) => Err(stop),
            Ok((s, types)) => match ask::unwrapped(f.env, item.id, call) {
                Err(stop) => Err(stop),
                Ok(None) => selection::function_return(
                    f,
                    limit,
                    s,
                    item,
                    call,
                    func,
                    args,
                    types,
                    expected,
                ),
                Ok(Some(lowered)) => match method_selection(f, limit, s, *lowered) {
                    Err(stop) => Err(stop),
                    Ok((s, Some(selected))) => Ok(
                        (
                            StateView {
                                results: results::with_selection(
                                    results::with_lowered(s.results, call.id, lowered),
                                    call.id,
                                    selected,
                                ),
                                ..s
                            },
                            list::or_else(selected.return_type, expected),
                        ),
                    ),
                    Ok((s, None)) => selection::function_return(
                        f,
                        limit,
                        s,
                        item,
                        call,
                        func,
                        args,
                        types,
                        expected,
                    ),
                },
            },
        },
    }
}

/// The compiled types of a call's arguments, each read with what its parameter lets expect; none of
/// them where one has none.
pub open spec fn call_arg_types(
    f: Frame,
    limit: nat,
    s: StateView,
    item: FnItem,
    func: Rc<Expr>,
    args: List<Expr>,
    expected: Option<Rc<TileType>>,
) -> Outcome<List<TileType>>
    decreases limit, 12int, s,
{
    match lookups::call_expected_args(f, limit, item, func, expected) {
        Err(stop) => Err(stop),
        Ok(wanted) => args_against_params(f, limit, s, args, item.param_types, wanted),
    }
}

pub open spec fn args_against_params(
    f: Frame,
    limit: nat,
    s: StateView,
    args: List<Expr>,
    params: List<Type>,
    wanted: List<Option<Rc<TileType>>>,
) -> Outcome<List<TileType>>
    decreases limit, 11int, args,
{
    match args {
        List::Nil => Ok((s, List::Nil)),
        List::Cons(arg, rest) => {
            let own = match wanted {
                List::Cons(own, _) => *own,
                List::Nil => None,
            };
            let own = match own {
                Some(ty) => Ok(Some(ty)),
                None => match params {
                    List::Cons(param, _) => lookups::scalar_param(f, *param),
                    List::Nil => Ok(None),
                },
            };
            match own {
                Err(stop) => Err(stop),
                Ok(own) => match expr_type(f, limit, s, *arg, own) {
                    Err(stop) => Err(stop),
                    Ok((s, None)) => Ok((s, List::Nil)),
                    Ok((s, Some(ty))) => match args_against_params(
                        f,
                        limit,
                        s,
                        *rest,
                        lookups::behind_first(params),
                        lookups::behind_first(wanted),
                    ) {
                        Err(stop) => Err(stop),
                        Ok((s, more)) => Ok(
                            (
                                s,
                                if more is Nil && !(*rest is Nil) {
                                    List::Nil
                                } else {
                                    List::Cons(ty, Rc::new(more))
                                },
                            ),
                        ),
                    },
                },
            }
        },
    }
}

/// The signatures of the closures among the arguments of a call.
pub open spec fn closure_signatures(
    item: FnItem,
    args: List<Expr>,
    params: List<Type>,
) -> List<Option<ClosureSignature>>
    decreases args,
{
    match (args, params) {
        (List::Cons(arg, args), List::Cons(param, params)) => List::Cons(
            Rc::new(
                if arg.kind is Closure {
                    substitute::param_signature(item.generics, *param)
                } else {
                    None
                },
            ),
            Rc::new(closure_signatures(item, *args, *params)),
        ),
        _ => List::Nil,
    }
}

pub open spec fn has_signature(signatures: List<Option<ClosureSignature>>) -> bool
    decreases signatures,
{
    match signatures {
        List::Nil => false,
        List::Cons(signature, rest) => *signature is Some || has_signature(*rest),
    }
}

/// The arguments of a call that takes closures read for what they say of the closures' parameters.
pub open spec fn closure_args(
    f: Frame,
    limit: nat,
    s: StateView,
    item: FnItem,
    func: Rc<Expr>,
    args: List<Expr>,
    expected: Option<Rc<TileType>>,
) -> Outcome<()>
    decreases limit, 12int, s,
{
    let signatures = closure_signatures(item, args, item.param_types);
    if !has_signature(signatures) {
        Ok((s, ()))
    } else {
        args_for_closures(
            f,
            limit,
            s,
            args,
            item.param_types,
            signatures,
            substitute::closure_names(item.generics, signatures),
            lookups::call_solver(item, func, expected),
        )
    }
}

/// What is expected of an argument, as far as the solver has been told.
pub open spec fn expected_so_far(
    f: Frame,
    limit: nat,
    param: Type,
    solver: Solver,
) -> Result<Option<Rc<TileType>>, Stop> {
    match ask::bindings(f.env, solver) {
        Err(stop) => Err(stop),
        Ok(bindings) => {
            let first = match substitute::substituted(bindings, param) {
                Some(ty) => lookups::expected_param(f, limit, *ty),
                None => Ok(None),
            };
            match first {
                Ok(None) => lookups::scalar_param(f, param),
                other => other,
            }
        },
    }
}

pub open spec fn args_for_closures(
    f: Frame,
    limit: nat,
    s: StateView,
    args: List<Expr>,
    params: List<Type>,
    signatures: List<Option<ClosureSignature>>,
    wanted: Set<Symbol>,
    solver: Solver,
) -> Outcome<()>
    decreases limit, 11int, args,
{
    match (args, params, signatures) {
        (List::Cons(arg, args), List::Cons(param, params), List::Cons(signature, signatures)) => {
            match arg.kind {
                ExprKind::Closure { params: names, body } => {
                    let known = match *signature {
                        Some(signature) => lookups::closure_types(f, limit, signature, solver),
                        None => Ok(None),
                    };
                    match known {
                        Err(stop) => Err(stop),
                        Ok(known) => {
                            let (given, result) = match known {
                                Some((given, result)) => (given, result),
                                None => (List::Nil, None),
                            };
                            match closure_rule(f, limit, s, names, *body, given, result) {
                                Err(stop) => Err(stop),
                                Ok((s, _)) => args_for_closures(
                                    f,
                                    limit,
                                    s,
                                    *args,
                                    *params,
                                    *signatures,
                                    wanted,
                                    solver,
                                ),
                            }
                        },
                    }
                },
                _ => match expected_so_far(f, limit, *param, solver) {
                    Err(stop) => Err(stop),
                    Ok(expected) => match written_type(f, limit, s, *arg, expected) {
                        Err(stop) => Err(stop),
                        Ok((s, ty)) => {
                            let solver = match ty {
                                Some(ty) => if substitute::mentions_one_of(*param, wanted)
                                    && types::constrains(*param, *ty) {
                                    solver.after(Step::Constraint { param, arg: ty })
                                } else {
                                    solver
                                },
                                None => solver,
                            };
                            args_for_closures(
                                f,
                                limit,
                                s,
                                *args,
                                *params,
                                *signatures,
                                wanted,
                                solver,
                            )
                        },
                    },
                },
            }
        },
        _ => Ok((s, ())),
    }
}

// Method calls.

pub open spec fn method_call_rule(
    f: Frame,
    limit: nat,
    s: StateView,
    call: Expr,
    expected: Option<Rc<TileType>>,
) -> Outcome<Option<Rc<TileType>>>
    decreases limit, 38int, s,
{
    match global_call(f, limit, s, call) {
        Err(stop) => Err(stop),
        Ok((s, Some(ty))) => Ok((s, Some(ty))),
        Ok((s, None)) => match method_selection(f, limit, s, call) {
            Err(stop) => Err(stop),
            Ok((s, Some(selected))) => Ok(
                (
                    StateView {
                        results: results::with_selection(s.results, call.id, selected),
                        ..s
                    },
                    list::or_else(selected.return_type, expected),
                ),
            ),
            Ok((s, None)) => Ok((s, expected)),
        },
    }
}

/// Each argument read; of the first one a type may be expected, which must compile.
pub open spec fn global_args(
    f: Frame,
    limit: nat,
    s: StateView,
    args: List<Expr>,
    first: Option<Rc<Type>>,
) -> Outcome<()>
    decreases limit, 1int, args,
{
    match args {
        List::Nil => Ok((s, ())),
        List::Cons(arg, rest) => {
            let expected = match first {
                Some(ty) => ask::compiled(f.env, *ty),
                None => Ok(None),
            };
            match expected {
                Err(stop) => Err(stop),
                Ok(expected) => match expr_type(f, limit, s, *arg, expected) {
                    Err(stop) => Err(stop),
                    Ok((s, _)) => global_args(f, limit, s, *rest, None),
                },
            }
        },
    }
}

/// What a method of a static in global memory gives, and whether a tile is its first argument.
pub open spec fn global_result(method: Symbol, tile: Rc<Type>) -> Option<(Type, bool)> {
    let token = Rc::new(scalar::named_type(names::TOKEN));
    let pair = Type::Tuple(
        List::Cons(tile, Rc::new(List::Cons(token, Rc::new(List::Nil)))),
    );
    if method == names::LOAD {
        Some((pair, false))
    } else if method == names::ATOMIC_ADD {
        Some((pair, true))
    } else if method == names::STORE {
        Some((*token, true))
    } else {
        None
    }
}

/// A call of a method of a static in global memory.
pub open spec fn global_call(
    f: Frame,
    limit: nat,
    s: StateView,
    call: Expr,
) -> Outcome<Option<Rc<TileType>>>
    decreases limit, 2int, s,
{
    match call.kind {
        ExprKind::MethodCall { receiver, method, turbofish: _, args } => match lookups::global_static(
            f,
            *receiver,
        ) {
            Err(stop) => Err(stop),
            Ok(None) => Ok((s, None)),
            Ok(Some((element, shape))) => {
                let tile = Rc::new(types::tile_of(*element, shape));
                match global_result(method, tile) {
                    None => Ok((s, None)),
                    Some((ty, takes_tile)) => match global_args(
                        f,
                        limit,
                        s,
                        args,
                        if takes_tile {
                            Some(tile)
                        } else {
                            None
                        },
                    ) {
                        Err(stop) => Err(stop),
                        Ok((s, _)) => match ask::compiled(f.env, ty) {
                            Err(stop) => Err(stop),
                            Ok(tile) => Ok((state::filed_as(f, s, call.id, ty), tile)),
                        },
                    },
                }
            },
        },
        _ => Ok((s, None)),
    }
}

/// The types of a method call's arguments as they are written, behind those found; none where one
/// has none.
pub open spec fn method_args(
    f: Frame,
    limit: nat,
    s: StateView,
    args: List<Expr>,
    wanted: List<Type>,
    found: List<Type>,
) -> Outcome<Option<List<Type>>>
    decreases limit, 11int, args,
{
    match args {
        List::Nil => Ok((s, Some(found))),
        List::Cons(arg, rest) => {
            let expected = match wanted {
                List::Cons(param, _) => lookups::expected_param(f, limit, *param),
                List::Nil => Ok(None),
            };
            match expected {
                Err(stop) => Err(stop),
                Ok(expected) => match written_type(f, limit, s, *arg, expected) {
                    Err(stop) => Err(stop),
                    Ok((s, None)) => Ok((s, None)),
                    Ok((s, Some(ty))) => method_args(
                        f,
                        limit,
                        s,
                        *rest,
                        lookups::behind_first(wanted),
                        found.pushed(*ty),
                    ),
                },
            }
        },
    }
}

/// The method that a call means when its receiver is of a type.
pub open spec fn method_probe(
    f: Frame,
    limit: nat,
    s: StateView,
    call: Expr,
    method: Symbol,
    turbofish: Option<List<GenericArg>>,
    args: List<Expr>,
    receiver: Rc<Type>,
) -> Outcome<Option<Rc<MethodSelection>>>
    decreases limit, 12int, s,
{
    match lookups::method_expected_args(f, *receiver, method) {
        Err(stop) => Err(stop),
        Ok(wanted) => {
            let wanted = match wanted {
                Some(wanted) => wanted,
                None => List::Nil,
            };
            match method_args(
                f,
                limit,
                s,
                args,
                wanted,
                List::Cons(receiver, Rc::new(List::Nil)),
            ) {
                Err(stop) => Err(stop),
                Ok((s, None)) => Ok((s, None)),
                Ok((s, Some(types))) => selection::selected_method(
                    f,
                    limit,
                    s,
                    call,
                    turbofish,
                    types,
                ),
            }
        },
    }
}

/// The method that the first type of the receiver gives that gives one; what is found out for the
/// others is forgotten.
pub open spec fn first_method(
    f: Frame,
    limit: nat,
    s: StateView,
    call: Expr,
    method: Symbol,
    turbofish: Option<List<GenericArg>>,
    args: List<Expr>,
    receivers: List<Type>,
) -> Outcome<Option<Rc<MethodSelection>>>
    decreases limit, 13int, receivers,
{
    match receivers {
        List::Nil => Ok((s, None)),
        List::Cons(receiver, rest) => match method_probe(
            f,
            limit,
            s,
            call,
            method,
            turbofish,
            args,
            receiver,
        ) {
            Err(stop) => Err(stop),
            Ok((probed, Some(selected))) => Ok((probed, Some(selected))),
            Ok((_, None)) => first_method(f, limit, s, call, method, turbofish, args, *rest),
        },
    }
}

/// The method that a call means.
pub open spec fn method_selection(
    f: Frame,
    limit: nat,
    s: StateView,
    call: Expr,
) -> Outcome<Option<Rc<MethodSelection>>>
    decreases limit, 14int, s,
{
    match call.kind {
        ExprKind::MethodCall { receiver, method, turbofish, args } => match written_type(
            f,
            limit,
            s,
            *receiver,
            None,
        ) {
            Err(stop) => Err(stop),
            Ok((s, None)) => no_method(f, limit, s, args),
            Ok((s, Some(ty))) => {
                let receivers = receiver::candidates(
                    *f.env.names,
                    *ty,
                    lookups::borrows_mutably(s, *receiver, *ty),
                );
                match first_method(f, limit, s, call, method, turbofish, args, receivers) {
                    Err(stop) => Err(stop),
                    Ok((s, Some(selected))) => Ok((s, Some(selected))),
                    Ok((s, None)) => no_method(f, limit, s, args),
                }
            },
        },
        _ => Ok((s, None)),
    }
}

/// A call that means no method: its arguments are read.
pub open spec fn no_method(
    f: Frame,
    limit: nat,
    s: StateView,
    args: List<Expr>,
) -> Outcome<Option<Rc<MethodSelection>>>
    decreases limit, 2int, s,
{
    match arg_types(f, limit, s, args) {
        Err(stop) => Err(stop),
        Ok((s, _)) => Ok((s, None)),
    }
}

} // verus!

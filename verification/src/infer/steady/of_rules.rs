//! What the rules for blocks, statements and expressions find out stays.
use crate::ask;
use crate::env::{self, Solver, Step, TileType};
use crate::exprs;
use crate::infer::lookups;
use crate::infer::patterns;
use crate::infer::state::{self, Frame, StateView};
use crate::infer::steady;
use crate::infer::steady::of_calls;
use crate::infer::steady::of_lookups;
use crate::infer::steady::of_patterns;
use crate::infer::walk::{self, Which};
use crate::list::{self, List};
use crate::names;
use crate::receiver;
use crate::results;
use crate::scalar;
use crate::substitute::{self, ClosureSignature};
use crate::syntax::{
    BinOp, Block, ClosureParam, Expr, ExprKind, FieldValue, FnItem, GenericArg, Member, Pat, Path,
    QSelf, Stmt, Symbol, Type, UnOp,
};
use crate::types;
use crate::unify::{self, BranchTerm, InferVarKind, InferredTy};
use std::rc::Rc;
use vstd::prelude::*;

verus! {

// Blocks, statements and patterns.

/// What is found out about a block comes out the same with a larger limit and with more questions
/// answered.
pub proof fn block_type_stays(
    f: Frame,
    g: Frame,
    limit: nat,
    more: nat,
    s: StateView,
    block: Block,
    expected: Option<Rc<TileType>>,
)
    requires
        steady::learns(f, g),
        limit <= more,
    ensures
        steady::stays(
            walk::block_type(f, limit, s, block, expected),
            walk::block_type(g, more, s, block, expected),
        ),
    decreases limit, 0int, s,
{
    if limit > 0 {
        stmts_type_stays(
            f,
            g,
            (limit - 1) as nat,
            (more - 1) as nat,
            s,
            block.stmts,
            expected,
            None,
        );
    }
}

proof fn stmts_type_stays(
    f: Frame,
    g: Frame,
    limit: nat,
    more: nat,
    s: StateView,
    stmts: List<Stmt>,
    expected: Option<Rc<TileType>>,
    last: Option<Rc<TileType>>,
)
    requires
        steady::learns(f, g),
        limit <= more,
    ensures
        steady::stays(
            walk::stmts_type(f, limit, s, stmts, expected, last),
            walk::stmts_type(g, more, s, stmts, expected, last),
        ),
    decreases limit, 1int, stmts,
{
    if let List::Cons(stmt, rest) = stmts {
        let wanted = if list::held(&rest) is Nil || exprs::is_return(list::held(&stmt)) {
            expected
        } else {
            None
        };
        stmt_type_stays(f, g, limit, more, s, list::held(&stmt), wanted);
        if let Ok((s, last)) = walk::stmt_type(f, limit, s, list::held(&stmt), wanted) {
            stmts_type_stays(f, g, limit, more, s, list::held(&rest), expected, last);
        }
    }
}

/// What is found out about a statement comes out the same with a larger limit and with more
/// questions answered.
pub proof fn stmt_type_stays(
    f: Frame,
    g: Frame,
    limit: nat,
    more: nat,
    s: StateView,
    stmt: Stmt,
    expected: Option<Rc<TileType>>,
)
    requires
        steady::learns(f, g),
        limit <= more,
    ensures
        steady::stays(
            walk::stmt_type(f, limit, s, stmt, expected),
            walk::stmt_type(g, more, s, stmt, expected),
        ),
    decreases limit, 0int, s,
{
    if limit > 0 {
        stmt_rule_stays(f, g, (limit - 1) as nat, (more - 1) as nat, s, stmt, expected);
    }
}

proof fn stmt_rule_stays(
    f: Frame,
    g: Frame,
    limit: nat,
    more: nat,
    s: StateView,
    stmt: Stmt,
    expected: Option<Rc<TileType>>,
)
    requires
        steady::learns(f, g),
        limit <= more,
    ensures
        steady::stays(
            walk::stmt_rule(f, limit, s, stmt, expected),
            walk::stmt_rule(g, more, s, stmt, expected),
        ),
    decreases limit, 40int, s,
{
    match stmt {
        Stmt::Local { pat, init } => {
            let annotated = match exprs::annotation(list::held(&pat)) {
                Some(ty) => ask::compiled(f.env, ty),
                None => Ok(None),
            };
            if let Ok(annotated) = annotated {
                local_init_stays(f, g, limit, more, s, list::held(&pat), init, annotated);
                if let Ok((s, init_type)) = walk::local_init(
                    f,
                    limit,
                    s,
                    list::held(&pat),
                    init,
                    annotated,
                ) {
                    let ty = list::or_else(annotated, init_type);
                    local_binding_stays(f, g, limit, more, s, list::held(&pat), init, ty);
                }
            }
        },
        Stmt::Expr { expr, semi } => {
            expr_type_stays(
                f,
                g,
                limit,
                more,
                s,
                list::held(&expr),
                if !semi || list::held(&expr).kind is Return {
                    expected
                } else {
                    None
                },
            );
        },
        Stmt::Const { name, ty, expr } => {
            if let Ok(declared) = ask::compiled(f.env, list::held(&ty)) {
                expr_type_stays(f, g, limit, more, s, list::held(&expr), declared);
            }
        },
        _ => {},
    }
}

proof fn local_init_stays(
    f: Frame,
    g: Frame,
    limit: nat,
    more: nat,
    s: StateView,
    pat: Pat,
    init: Option<Rc<Expr>>,
    annotated: Option<Rc<TileType>>,
)
    requires
        steady::learns(f, g),
        limit <= more,
    ensures
        steady::stays(
            walk::local_init(f, limit, s, pat, init, annotated),
            walk::local_init(g, more, s, pat, init, annotated),
        ),
    decreases limit, 39int, s,
{
    if let Some(init) = init {
        if annotated is Some {
            expr_type_stays(f, g, limit, more, s, list::held(&init), annotated);
        } else {
            expr_term_stays(f, g, limit, more, s, list::held(&init), None);
        }
    }
}

proof fn local_binding_stays(
    f: Frame,
    g: Frame,
    limit: nat,
    more: nat,
    s: StateView,
    pat: Pat,
    init: Option<Rc<Expr>>,
    ty: Option<Rc<TileType>>,
)
    requires
        steady::learns(f, g),
        limit <= more,
    ensures
        steady::stays(
            walk::local_binding(f, limit, s, pat, init, ty),
            walk::local_binding(g, more, s, pat, init, ty),
        ),
    decreases limit, 39int, s,
{
    match ty {
        Some(ty) => {
            of_patterns::pattern_compiled_stays(f, g, s, pat, ty);
        },
        None => {
            let written = match exprs::annotation(pat) {
                Some(ty) => Some(ty),
                None => match init {
                    Some(init) => results::surface_type(s.results, init.id),
                    None => None,
                },
            };
            match written {
                Some(ty) => {
                    of_patterns::pattern_as_written_stays(f, g, s, pat, Rc::new(ty));
                },
                None => {
                    if let Some(init) = init {
                        pattern_from_expr_stays(f, g, limit, more, s, pat, list::held(&init));
                    }
                },
            }
        },
    }
}

proof fn pattern_of_expr_type_stays(
    f: Frame,
    g: Frame,
    limit: nat,
    more: nat,
    s: StateView,
    pat: Pat,
    expr: Expr,
)
    requires
        steady::learns(f, g),
        limit <= more,
    ensures
        steady::stays(
            walk::pattern_of_expr_type(f, limit, s, pat, expr),
            walk::pattern_of_expr_type(g, more, s, pat, expr),
        ),
    decreases limit, 2int, s,
{
    expr_type_stays(f, g, limit, more, s, expr, None);
    if let Ok((s, Some(ty))) = walk::expr_type(f, limit, s, expr, None) {
        of_patterns::pattern_compiled_stays(f, g, s, pat, ty);
    }
}

proof fn pattern_from_expr_stays(
    f: Frame,
    g: Frame,
    limit: nat,
    more: nat,
    s: StateView,
    pat: Pat,
    expr: Expr,
)
    requires
        steady::learns(f, g),
        limit <= more,
    ensures
        steady::stays(
            walk::pattern_from_expr(f, limit, s, pat, expr),
            walk::pattern_from_expr(g, more, s, pat, expr),
        ),
    decreases limit, 30int, pat,
{
    match pat {
        Pat::Ident { name: _, mutable: _, subpat: _ } => {
            expr_term_stays(f, g, limit, more, s, expr, None);
            if let Ok((s, term)) = walk::expr_term(f, limit, s, expr, None) {
                if term is Unknown {
                    of_patterns::pattern_termed_stays(
                        f,
                        g,
                        state::with_var(s, InferVarKind::General, expr.id, Some(expr)),
                        pat,
                        unify::next_var(s.inference),
                    );
                } else {
                    of_patterns::pattern_termed_stays(f, g, s, pat, term);
                }
            }
        },
        Pat::Type { pat: inner, ty } => {
            if let Ok(expected) = ask::compiled(f.env, list::held(&ty)) {
                expr_type_stays(f, g, limit, more, s, expr, expected);
                if let Ok((s, _)) = walk::expr_type(f, limit, s, expr, expected) {
                    of_patterns::pattern_as_written_stays(f, g, s, list::held(&inner), ty);
                }
            }
        },
        Pat::Paren(inner) => {
            pattern_from_expr_stays(f, g, limit, more, s, list::held(&inner), expr);
        },
        Pat::Reference(inner) => {
            match expr.kind {
                ExprKind::Reference { mutable: _, expr: referent } => {
                    pattern_from_expr_stays(
                        f,
                        g,
                        limit,
                        more,
                        s,
                        list::held(&inner),
                        list::held(&referent),
                    );
                },
                _ => {
                    pattern_of_expr_type_stays(f, g, limit, more, s, pat, expr);
                },
            }
        },
        Pat::Tuple(pats) => {
            let items = match expr.kind {
                ExprKind::Tuple(items) => if pats@.len() == items@.len() {
                    Some(items)
                } else {
                    None
                },
                _ => None,
            };
            match items {
                Some(items) => {
                    patterns_from_exprs_stays(f, g, limit, more, s, pats, items);
                },
                None => {
                    expr_type_stays(f, g, limit, more, s, expr, None);
                    match walk::expr_type(f, limit, s, expr, None) {
                        Err(_) => {},
                        Ok((s, Some(ty))) => {
                            of_patterns::pattern_compiled_stays(f, g, s, pat, ty);
                        },
                        Ok((s, None)) => {
                            if let Some(ty) = results::surface_type(s.results, expr.id) {
                                of_patterns::pattern_as_written_stays(f, g, s, pat, Rc::new(ty));
                            }
                        },
                    }
                },
            }
        },
        Pat::Slice(pats) => {
            match expr.kind {
                ExprKind::Array(items) => {
                    slice_from_array_stays(f, g, limit, more, s, pats, items);
                },
                _ => {
                    pattern_of_expr_type_stays(f, g, limit, more, s, pat, expr);
                },
            }
        },
        Pat::Or(cases) => {
            cases_from_expr_stays(f, g, limit, more, s, cases, expr);
        },
        Pat::Wild => {},
        Pat::Rest => {},
        _ => {
            pattern_of_expr_type_stays(f, g, limit, more, s, pat, expr);
        },
    }
}

proof fn patterns_from_exprs_stays(
    f: Frame,
    g: Frame,
    limit: nat,
    more: nat,
    s: StateView,
    pats: List<Pat>,
    items: List<Expr>,
)
    requires
        steady::learns(f, g),
        limit <= more,
    ensures
        steady::stays(
            walk::patterns_from_exprs(f, limit, s, pats, items),
            walk::patterns_from_exprs(g, more, s, pats, items),
        ),
    decreases limit, 30int, pats,
{
    if let (List::Cons(pat, pats), List::Cons(item, items)) = (pats, items) {
        pattern_from_expr_stays(f, g, limit, more, s, list::held(&pat), list::held(&item));
        if let Ok((s, _)) = walk::pattern_from_expr(
            f,
            limit,
            s,
            list::held(&pat),
            list::held(&item),
        ) {
            patterns_from_exprs_stays(f, g, limit, more, s, list::held(&pats), list::held(&items));
        }
    }
}

proof fn cases_from_expr_stays(
    f: Frame,
    g: Frame,
    limit: nat,
    more: nat,
    s: StateView,
    cases: List<Pat>,
    expr: Expr,
)
    requires
        steady::learns(f, g),
        limit <= more,
    ensures
        steady::stays(
            walk::cases_from_expr(f, limit, s, cases, expr),
            walk::cases_from_expr(g, more, s, cases, expr),
        ),
    decreases limit, 30int, cases,
{
    if let List::Cons(pat, rest) = cases {
        pattern_from_expr_stays(f, g, limit, more, s, list::held(&pat), expr);
        if let Ok((s, _)) = walk::pattern_from_expr(f, limit, s, list::held(&pat), expr) {
            cases_from_expr_stays(f, g, limit, more, s, list::held(&rest), expr);
        }
    }
}

proof fn terms_of_stays(f: Frame, g: Frame, limit: nat, more: nat, s: StateView, items: List<Expr>)
    requires
        steady::learns(f, g),
        limit <= more,
    ensures
        steady::stays(walk::terms_of(f, limit, s, items), walk::terms_of(g, more, s, items)),
    decreases limit, 10int, items,
{
    if let List::Cons(item, rest) = items {
        expr_term_stays(f, g, limit, more, s, list::held(&item), None);
        if let Ok((s, term)) = walk::expr_term(f, limit, s, list::held(&item), None) {
            terms_of_stays(f, g, limit, more, s, list::held(&rest));
        }
    }
}

proof fn all_unified_stays(
    f: Frame,
    g: Frame,
    s: StateView,
    so_far: InferredTy,
    terms: List<InferredTy>,
)
    requires
        steady::learns(f, g),
    ensures
        walk::all_unified(g, s, so_far, terms) == walk::all_unified(f, s, so_far, terms),
    decreases terms,
{
    if let List::Cons(term, rest) = terms {
        let (s, so_far) = state::unified(f, s, so_far, list::held(&term));
        all_unified_stays(f, g, s, so_far, list::held(&rest));
    }
}

proof fn patterns_termed_stays(
    f: Frame,
    g: Frame,
    s: StateView,
    pats: List<Pat>,
    terms: List<InferredTy>,
    common: InferredTy,
)
    requires
        steady::learns(f, g),
    ensures
        steady::stays(
            walk::patterns_termed(f, s, pats, terms, common),
            walk::patterns_termed(g, s, pats, terms, common),
        ),
    decreases pats,
{
    if let (List::Cons(pat, pats), List::Cons(term, terms)) = (pats, terms) {
        let (s, term) = state::unified(f, s, list::held(&term), common);
        of_patterns::pattern_termed_stays(f, g, s, list::held(&pat), term);
        if let Ok((s, _)) = patterns::pattern_termed(f, s, list::held(&pat), term) {
            patterns_termed_stays(f, g, s, list::held(&pats), list::held(&terms), common);
        }
    }
}

proof fn slice_termed_stays(
    f: Frame,
    g: Frame,
    s: StateView,
    pats: List<Pat>,
    terms: List<InferredTy>,
    common: InferredTy,
)
    requires
        steady::learns(f, g),
    ensures
        steady::stays(
            walk::slice_termed(f, s, pats, terms, common),
            walk::slice_termed(g, s, pats, terms, common),
        ),
{
    match walk::around_rest(pats) {
        Some((before, behind)) => {
            if !(before@.len() + behind@.len() > terms@.len()) {
                patterns_termed_stays(f, g, s, before, terms, common);
                if let Ok((s, _)) = walk::patterns_termed(f, s, before, terms, common) {
                    patterns_termed_stays(f, g, s, behind, walk::ending(terms, behind), common);
                }
            }
        },
        None => {
            if !(pats@.len() != terms@.len()) {
                patterns_termed_stays(f, g, s, pats, terms, common);
            }
        },
    }
}

proof fn slice_from_array_stays(
    f: Frame,
    g: Frame,
    limit: nat,
    more: nat,
    s: StateView,
    pats: List<Pat>,
    items: List<Expr>,
)
    requires
        steady::learns(f, g),
        limit <= more,
    ensures
        steady::stays(
            walk::slice_from_array(f, limit, s, pats, items),
            walk::slice_from_array(g, more, s, pats, items),
        ),
    decreases limit, 20int, s,
{
    terms_of_stays(f, g, limit, more, s, items);
    if let Ok((s, terms)) = walk::terms_of(f, limit, s, items) {
        all_unified_stays(f, g, s, InferredTy::Unknown, terms);
        let (s, common) = walk::all_unified(f, s, InferredTy::Unknown, terms);
        slice_termed_stays(f, g, s, pats, terms, common);
    }
}

// Expressions.

/// What is found out about an expression comes out the same with a larger limit and with more
/// questions answered.
pub proof fn expr_type_stays(
    f: Frame,
    g: Frame,
    limit: nat,
    more: nat,
    s: StateView,
    expr: Expr,
    expected: Option<Rc<TileType>>,
)
    requires
        steady::learns(f, g),
        limit <= more,
    ensures
        steady::stays(
            walk::expr_type(f, limit, s, expr, expected),
            walk::expr_type(g, more, s, expr, expected),
        ),
    decreases limit, 0int, s,
{
    if limit > 0 {
        expr_rule_stays(f, g, (limit - 1) as nat, (more - 1) as nat, s, expr, expected);
    }
}

proof fn expr_rule_stays(
    f: Frame,
    g: Frame,
    limit: nat,
    more: nat,
    s: StateView,
    expr: Expr,
    expected: Option<Rc<TileType>>,
)
    requires
        steady::learns(f, g),
        limit <= more,
    ensures
        steady::stays(
            walk::expr_rule(f, limit, s, expr, expected),
            walk::expr_rule(g, more, s, expr, expected),
        ),
    decreases limit, 40int, s,
{
    match expr.kind {
        ExprKind::Path { qself, path } => {
            path_rule_stays(f, g, s, expr, qself, path, expected);
        },
        ExprKind::Reference { mutable, expr: inner } => {
            expr_type_stays(f, g, limit, more, s, list::held(&inner), None);
        },
        ExprKind::Paren(inner) => {
            expr_type_stays(f, g, limit, more, s, list::held(&inner), expected);
        },
        ExprKind::Block(block) => {
            block_rule_stays(f, g, limit, more, s, expr, block, expected);
        },
        ExprKind::Unsafe(block) => {
            block_rule_stays(f, g, limit, more, s, expr, block, expected);
        },
        ExprKind::Tuple(elems) => {
            tuple_rule_stays(f, g, limit, more, s, elems, expected);
        },
        ExprKind::Array(elems) => {
            array_rule_stays(f, g, limit, more, s, elems, expected);
        },
        ExprKind::Repeat { expr: value, len } => {
            repeat_rule_stays(f, g, limit, more, s, list::held(&value), list::held(&len), expected);
        },
        ExprKind::Range { start, end } => {
            range_rule_stays(f, g, limit, more, s, start, end);
        },
        ExprKind::Field { base, member } => {
            field_rule_stays(f, g, limit, more, s, list::held(&base), member, expected);
        },
        ExprKind::Index { expr: base, index } => {
            index_rule_stays(f, g, limit, more, s, list::held(&base), list::held(&index), expected);
        },
        ExprKind::Call { func, args } => {
            call_rule_stays(f, g, limit, more, s, expr, func, args, expected);
        },
        ExprKind::MethodCall { receiver, method, turbofish, args } => {
            method_call_rule_stays(f, g, limit, more, s, expr, expected);
        },
        ExprKind::Struct { path, fields } => {
            struct_rule_stays(f, g, limit, more, s, path, fields, expected);
        },
        ExprKind::Macro { path, tokens } => {
            of_lookups::macro_type_stays(f, g, path, tokens);
        },
        ExprKind::Cast { expr: source, ty } => {
            cast_rule_stays(f, g, limit, more, s, expr, list::held(&source), ty);
        },
        ExprKind::Closure { params, body } => {
            closure_rule_stays(f, g, limit, more, s, params, list::held(&body), List::Nil, None);
        },
        ExprKind::Assign { left, right } => {
            if let Some(name) = exprs::expr_name(list::held(&left)) {
                assign_rule_stays(f, g, limit, more, s, name, list::held(&right));
            }
        },
        ExprKind::Binary { op, left, right } => {
            binary_rule_stays(
                f,
                g,
                limit,
                more,
                s,
                expr,
                op,
                list::held(&left),
                list::held(&right),
                expected,
            );
        },
        ExprKind::Unary { op, expr: inner } => {
            if expected is None && op is Neg {
                expr_term_stays(f, g, limit, more, s, expr, None);
            } else {
                expr_type_stays(f, g, limit, more, s, list::held(&inner), expected);
            }
        },
        ExprKind::Lit { lit, ty } => {},
        ExprKind::If { cond, then_branch, else_branch } => {
            cond_rule_stays(f, g, limit, more, s, list::held(&cond));
            if let Ok((s, _)) = walk::cond_rule(f, limit, s, list::held(&cond)) {
                if expected is Some {
                    if_expected_stays(f, g, limit, more, s, then_branch, else_branch, expected);
                } else {
                    if_term_stays(f, g, limit, more, s, then_branch, else_branch);
                }
            }
        },
        ExprKind::ForLoop { pat, expr: iter, body } => {
            for_rule_stays(f, g, limit, more, s, list::held(&pat), list::held(&iter), body);
        },
        ExprKind::While { cond, body } => {
            cond_rule_stays(f, g, limit, more, s, list::held(&cond));
            if let Ok((s, _)) = walk::cond_rule(f, limit, s, list::held(&cond)) {
                scoped_rule_stays(f, g, limit, more, s, body);
            }
        },
        ExprKind::Loop(body) => {
            scoped_rule_stays(f, g, limit, more, s, body);
        },
        ExprKind::Return(value) => {
            if let Some(value) = value {
                expr_type_stays(f, g, limit, more, s, list::held(&value), expected);
            }
        },
        _ => {},
    }
}

proof fn path_rule_stays(
    f: Frame,
    g: Frame,
    s: StateView,
    expr: Expr,
    qself: Option<Rc<QSelf>>,
    path: Path,
    expected: Option<Rc<TileType>>,
)
    requires
        steady::learns(f, g),
    ensures
        steady::stays(
            walk::path_rule(f, s, expr, qself, path, expected),
            walk::path_rule(g, s, expr, qself, path, expected),
        ),
{
    match exprs::single_name(path) {
        Some(name) => {
            if !(name == names::NO_VALUE) {
                if let None = state::looked_up(s.local_terms, name) {
                    of_lookups::const_type_stays(f, g, path);
                    if let Ok(None) = lookups::const_type(f, path) {
                        of_lookups::static_type_stays(f, g, path);
                    }
                }
            }
        },
        None => {
            of_lookups::assoc_const_type_stays(f, g, qself, path);
        },
    }
}

proof fn block_rule_stays(
    f: Frame,
    g: Frame,
    limit: nat,
    more: nat,
    s: StateView,
    expr: Expr,
    block: Block,
    expected: Option<Rc<TileType>>,
)
    requires
        steady::learns(f, g),
        limit <= more,
    ensures
        steady::stays(
            walk::block_rule(f, limit, s, expr, block, expected),
            walk::block_rule(g, more, s, expr, block, expected),
        ),
    decreases limit, 2int, s,
{
    block_type_stays(f, g, limit, more, s, block, expected);
}

proof fn cond_rule_stays(f: Frame, g: Frame, limit: nat, more: nat, s: StateView, cond: Expr)
    requires
        steady::learns(f, g),
        limit <= more,
    ensures
        steady::stays(walk::cond_rule(f, limit, s, cond), walk::cond_rule(g, more, s, cond)),
    decreases limit, 2int, s,
{
    of_lookups::bool_tile_stays(f, g);
    if let Ok(tile) = lookups::bool_tile(f) {
        expr_type_stays(f, g, limit, more, s, cond, tile);
    }
}

proof fn scoped_rule_stays(f: Frame, g: Frame, limit: nat, more: nat, s: StateView, block: Block)
    requires
        steady::learns(f, g),
        limit <= more,
    ensures
        steady::stays(walk::scoped_rule(f, limit, s, block), walk::scoped_rule(g, more, s, block)),
    decreases limit, 2int, s,
{
    block_type_stays(f, g, limit, more, s, block, None);
}

proof fn for_rule_stays(
    f: Frame,
    g: Frame,
    limit: nat,
    more: nat,
    s: StateView,
    pat: Pat,
    iter: Expr,
    body: Block,
)
    requires
        steady::learns(f, g),
        limit <= more,
    ensures
        steady::stays(
            walk::for_rule(f, limit, s, pat, iter, body),
            walk::for_rule(g, more, s, pat, iter, body),
        ),
    decreases limit, 12int, s,
{
    iter_rule_stays(f, g, limit, more, s, iter);
    if let Ok((s, item)) = walk::iter_rule(f, limit, s, iter) {
        if let Some(item) = item {
            of_patterns::pattern_compiled_stays(f, g, s, pat, item);
        }
        let entered = match item {
            Some(item) => patterns::pattern_compiled(f, s, pat, item),
            None => Ok((s, ())),
        };
        if let Ok((inner, _)) = entered {
            block_type_stays(f, g, limit, more, inner, body, None);
        }
    }
}

proof fn if_expected_stays(
    f: Frame,
    g: Frame,
    limit: nat,
    more: nat,
    s: StateView,
    then_branch: Block,
    else_branch: Option<Rc<Expr>>,
    expected: Option<Rc<TileType>>,
)
    requires
        steady::learns(f, g),
        limit <= more,
    ensures
        steady::stays(
            walk::if_expected(f, limit, s, then_branch, else_branch, expected),
            walk::if_expected(g, more, s, then_branch, else_branch, expected),
        ),
    decreases limit, 2int, s,
{
    block_type_stays(f, g, limit, more, s, then_branch, expected);
    if let Ok((s, then_ty)) = walk::block_type(f, limit, s, then_branch, expected) {
        if let Some(other) = else_branch {
            expr_type_stays(f, g, limit, more, s, list::held(&other), expected);
        }
    }
}

// Tuples, arrays and ranges.

proof fn tuple_rule_stays(
    f: Frame,
    g: Frame,
    limit: nat,
    more: nat,
    s: StateView,
    elems: List<Expr>,
    expected: Option<Rc<TileType>>,
)
    requires
        steady::learns(f, g),
        limit <= more,
    ensures
        steady::stays(
            walk::tuple_rule(f, limit, s, elems, expected),
            walk::tuple_rule(g, more, s, elems, expected),
        ),
    decreases limit, 12int, s,
{
    match expected {
        Some(tuple) => {
            if let Some(items) = types::tuple_items(list::held(&tuple.rust_ty)) {
                if items@.len() == elems@.len() {
                    elems_expected_stays(f, g, limit, more, s, elems, items);
                }
            }
        },
        None => {
            elem_types_stays(f, g, limit, more, s, elems, None, Which::All, List::Nil);
        },
    }
}

proof fn elems_expected_stays(
    f: Frame,
    g: Frame,
    limit: nat,
    more: nat,
    s: StateView,
    elems: List<Expr>,
    items: List<Type>,
)
    requires
        steady::learns(f, g),
        limit <= more,
    ensures
        steady::stays(
            walk::elems_expected(f, limit, s, elems, items),
            walk::elems_expected(g, more, s, elems, items),
        ),
    decreases limit, 11int, elems,
{
    if let (List::Cons(elem, elems), List::Cons(item, items)) = (elems, items) {
        if let Ok(expected) = ask::compiled(f.env, list::held(&item)) {
            expr_type_stays(f, g, limit, more, s, list::held(&elem), expected);
            if let Ok((s, _)) = walk::expr_type(f, limit, s, list::held(&elem), expected) {
                elems_expected_stays(f, g, limit, more, s, list::held(&elems), list::held(&items));
            }
        }
    }
}

proof fn elem_types_stays(
    f: Frame,
    g: Frame,
    limit: nat,
    more: nat,
    s: StateView,
    elems: List<Expr>,
    expected: Option<Rc<TileType>>,
    which: Which,
    found: List<Type>,
)
    requires
        steady::learns(f, g),
        limit <= more,
    ensures
        steady::stays(
            walk::elem_types(f, limit, s, elems, expected, which, found),
            walk::elem_types(g, more, s, elems, expected, which, found),
        ),
    decreases limit, 11int, elems,
{
    if let List::Cons(elem, rest) = elems {
        if walk::is_read(which, list::held(&elem)) {
            expr_type_stays(f, g, limit, more, s, list::held(&elem), expected);
            match walk::expr_type(f, limit, s, list::held(&elem), expected) {
                Err(_) => {},
                Ok((s, Some(ty))) => {
                    elem_types_stays(
                        f,
                        g,
                        limit,
                        more,
                        s,
                        list::held(&rest),
                        expected,
                        which,
                        found.pushed(list::held(&ty.rust_ty)),
                    );
                },
                Ok((s, None)) => {
                    elem_types_stays(
                        f,
                        g,
                        limit,
                        more,
                        s,
                        list::held(&rest),
                        expected,
                        which,
                        found,
                    );
                },
            }
        } else {
            elem_types_stays(f, g, limit, more, s, list::held(&rest), expected, which, found);
        }
    }
}

proof fn array_elem_types_stays(
    f: Frame,
    g: Frame,
    limit: nat,
    more: nat,
    s: StateView,
    elems: List<Expr>,
    item: Option<Rc<TileType>>,
)
    requires
        steady::learns(f, g),
        limit <= more,
    ensures
        steady::stays(
            walk::array_elem_types(f, limit, s, elems, item),
            walk::array_elem_types(g, more, s, elems, item),
        ),
    decreases limit, 12int, s,
{
    match item {
        Some(_) => {
            elem_types_stays(f, g, limit, more, s, elems, item, Which::All, List::Nil);
        },
        None => {
            elem_types_stays(f, g, limit, more, s, elems, None, Which::Others, List::Nil);
            if let Ok((s, found)) = walk::elem_types(
                f,
                limit,
                s,
                elems,
                None,
                Which::Others,
                List::Nil,
            ) {
                let first = match found {
                    List::Cons(ty, _) => ask::compiled_if_any(f.env, list::held(&ty)),
                    List::Nil => Ok(None),
                };
                if let Ok(first) = first {
                    elem_types_stays(f, g, limit, more, s, elems, first, Which::Numbers, found);
                }
            }
        },
    }
}

proof fn array_rule_stays(
    f: Frame,
    g: Frame,
    limit: nat,
    more: nat,
    s: StateView,
    elems: List<Expr>,
    expected: Option<Rc<TileType>>,
)
    requires
        steady::learns(f, g),
        limit <= more,
    ensures
        steady::stays(
            walk::array_rule(f, limit, s, elems, expected),
            walk::array_rule(g, more, s, elems, expected),
        ),
    decreases limit, 13int, s,
{
    if let Some(ty) = expected {
        of_lookups::item_tile_stays(f, g, list::held(&ty));
    }
    let item = match expected {
        Some(ty) => lookups::item_tile(f, list::held(&ty)),
        None => Ok(None),
    };
    if let Ok(item) = item {
        array_elem_types_stays(f, g, limit, more, s, elems, item);
    }
}

proof fn repeat_rule_stays(
    f: Frame,
    g: Frame,
    limit: nat,
    more: nat,
    s: StateView,
    value: Expr,
    len: Expr,
    expected: Option<Rc<TileType>>,
)
    requires
        steady::learns(f, g),
        limit <= more,
    ensures
        steady::stays(
            walk::repeat_rule(f, limit, s, value, len, expected),
            walk::repeat_rule(g, more, s, value, len, expected),
        ),
    decreases limit, 2int, s,
{
    if let Some(ty) = expected {
        of_lookups::item_tile_stays(f, g, list::held(&ty));
    }
    let item = match expected {
        Some(ty) => lookups::item_tile(f, list::held(&ty)),
        None => Ok(None),
    };
    if let Ok(item) = item {
        expr_type_stays(f, g, limit, more, s, value, item);
    }
}

proof fn range_rule_stays(
    f: Frame,
    g: Frame,
    limit: nat,
    more: nat,
    s: StateView,
    start: Option<Rc<Expr>>,
    end: Option<Rc<Expr>>,
)
    requires
        steady::learns(f, g),
        limit <= more,
    ensures
        steady::stays(
            walk::range_rule(f, limit, s, start, end),
            walk::range_rule(g, more, s, start, end),
        ),
    decreases limit, 2int, s,
{
    let number_first = match (start, end) {
        (Some(start), Some(_)) => exprs::unsuffixed_number(list::held(&start)),
        _ => false,
    };
    if number_first {
        expr_type_stays(f, g, limit, more, s, list::held(&end->0), None);
        if let Ok((s, end_ty)) = walk::expr_type(f, limit, s, list::held(&end->0), None) {
            expr_type_stays(f, g, limit, more, s, list::held(&start->0), end_ty);
        }
    } else {
        if let Some(start) = start {
            expr_type_stays(f, g, limit, more, s, list::held(&start), None);
        }
        let first = match start {
            Some(start) => walk::expr_type(f, limit, s, list::held(&start), None),
            None => Ok((s, None)),
        };
        if let Ok((s, start_ty)) = first {
            if let Some(end) = end {
                expr_type_stays(f, g, limit, more, s, list::held(&end), start_ty);
            }
            let second = match end {
                Some(end) => walk::expr_type(f, limit, s, list::held(&end), start_ty),
                None => Ok((s, None)),
            };
            if let Ok((s, end_ty)) = second {
                if start_ty is None && start is Some && end_ty is Some {
                    expr_type_stays(f, g, limit, more, s, list::held(&start->0), end_ty);
                }
            }
        }
    }
}

// Fields, indices, structs, casts, closures, assignments.

proof fn field_rule_stays(
    f: Frame,
    g: Frame,
    limit: nat,
    more: nat,
    s: StateView,
    base: Expr,
    member: Member,
    expected: Option<Rc<TileType>>,
)
    requires
        steady::learns(f, g),
        limit <= more,
    ensures
        steady::stays(
            walk::field_rule(f, limit, s, base, member, expected),
            walk::field_rule(g, more, s, base, member, expected),
        ),
    decreases limit, 14int, s,
{
    expr_type_stays(f, g, limit, more, s, base, None);
    match walk::expr_type(f, limit, s, base, None) {
        Err(_) => {},
        Ok((s, None)) => {
            if let Some(ty) = expected {
                tuple_expected_at_field_stays(f, g, limit, more, s, base, member, ty);
            }
        },
        Ok((s, Some(base_ty))) => {
            field_type_stays(f, g, list::held(&base_ty.rust_ty), member);
        },
    }
}

proof fn field_type_stays(f: Frame, g: Frame, base: Type, member: Member)
    requires
        steady::learns(f, g),
    ensures
        walk::field_type(g, base, member) == walk::field_type(f, base, member),
{
}

proof fn tuple_expected_at_field_stays(
    f: Frame,
    g: Frame,
    limit: nat,
    more: nat,
    s: StateView,
    base: Expr,
    member: Member,
    elem: Rc<TileType>,
)
    requires
        steady::learns(f, g),
        limit <= more,
    ensures
        steady::stays(
            walk::tuple_expected_at_field(f, limit, s, base, member, elem),
            walk::tuple_expected_at_field(g, more, s, base, member, elem),
        ),
    decreases limit, 13int, s,
{
    if let (Member::Unnamed(index), Some(elems)) = (member, lookups::tuple_exprs(s, base)) {
        if !(index as int >= elems@.len()) {
            item_types_stays(
                f,
                g,
                limit,
                more,
                s,
                elems,
                Some(index as usize),
                list::held(&elem).rust_ty,
            );
            if let Ok((s, Some(items))) = walk::item_types(
                f,
                limit,
                s,
                elems,
                Some(index as usize),
                list::held(&elem).rust_ty,
            ) {
                if let Ok(Some(tuple)) = ask::compiled(f.env, Type::Tuple(items)) {
                    expr_type_stays(f, g, limit, more, s, base, Some(tuple));
                }
            }
        }
    }
}

proof fn item_types_stays(
    f: Frame,
    g: Frame,
    limit: nat,
    more: nat,
    s: StateView,
    elems: List<Expr>,
    given_at: Option<usize>,
    given: Rc<Type>,
)
    requires
        steady::learns(f, g),
        limit <= more,
    ensures
        steady::stays(
            walk::item_types(f, limit, s, elems, given_at, given),
            walk::item_types(g, more, s, elems, given_at, given),
        ),
    decreases limit, 12int, elems,
{
    if let List::Cons(elem, rest) = elems {
        if !(given_at == Some(0usize)) {
            written_type_stays(f, g, limit, more, s, list::held(&elem), None);
        }
        let first = if given_at == Some(0usize) {
            Ok((s, Some(given)))
        } else {
            walk::written_type(f, limit, s, list::held(&elem), None)
        };
        let left = match given_at {
            Some(index) => if index == 0 {
                None
            } else {
                Some((index - 1) as usize)
            },
            None => None,
        };
        if let Ok((s, Some(ty))) = first {
            item_types_stays(f, g, limit, more, s, list::held(&rest), left, given);
        }
    }
}

proof fn index_rule_stays(
    f: Frame,
    g: Frame,
    limit: nat,
    more: nat,
    s: StateView,
    base: Expr,
    index: Expr,
    expected: Option<Rc<TileType>>,
)
    requires
        steady::learns(f, g),
        limit <= more,
    ensures
        steady::stays(
            walk::index_rule(f, limit, s, base, index, expected),
            walk::index_rule(g, more, s, base, index, expected),
        ),
    decreases limit, 2int, s,
{
    expr_type_stays(f, g, limit, more, s, base, None);
    match walk::expr_type(f, limit, s, base, None) {
        Err(_) => {},
        Ok((s, None)) => {
            if let Some(elem) = expected {
                of_lookups::array_expected_at_index_stays(f, g, s, base, elem);
                if let Ok((s, Some(array))) = lookups::array_expected_at_index(f, s, base, elem) {
                    expr_type_stays(f, g, limit, more, s, base, Some(array));
                }
            }
        },
        Ok((s, Some(base_ty))) => {
            indexed_type_stays(f, g, list::held(&base_ty.rust_ty), index);
        },
    }
}

proof fn indexed_type_stays(f: Frame, g: Frame, base: Type, index: Expr)
    requires
        steady::learns(f, g),
    ensures
        walk::indexed_type(g, base, index) == walk::indexed_type(f, base, index),
{
    if let Type::Path { qself, path } = base {
        names_shape_stays(f, g, path);
        if !(qself is None && walk::names_shape(f, path)) {
        }
    }
}

proof fn names_shape_stays(f: Frame, g: Frame, path: Path)
    requires
        steady::learns(f, g),
    ensures
        walk::names_shape(g, path) == walk::names_shape(f, path),
{
}

proof fn struct_rule_stays(
    f: Frame,
    g: Frame,
    limit: nat,
    more: nat,
    s: StateView,
    path: Path,
    fields: List<FieldValue>,
    expected: Option<Rc<TileType>>,
)
    requires
        steady::learns(f, g),
        limit <= more,
    ensures
        steady::stays(
            walk::struct_rule(f, limit, s, path, fields, expected),
            walk::struct_rule(g, more, s, path, fields, expected),
        ),
    decreases limit, 12int, s,
{
    if let Some(name) = exprs::last_name(path) {
        field_values_stays(f, g, limit, more, s, name, fields);
    }
}

proof fn expected_field_stays(f: Frame, g: Frame, struct_name: Symbol, member: Member)
    requires
        steady::learns(f, g),
    ensures
        steady::stays(
            walk::expected_field(f, struct_name, member),
            walk::expected_field(g, struct_name, member),
        ),
{
}

proof fn field_values_stays(
    f: Frame,
    g: Frame,
    limit: nat,
    more: nat,
    s: StateView,
    struct_name: Symbol,
    fields: List<FieldValue>,
)
    requires
        steady::learns(f, g),
        limit <= more,
    ensures
        steady::stays(
            walk::field_values(f, limit, s, struct_name, fields),
            walk::field_values(g, more, s, struct_name, fields),
        ),
    decreases limit, 11int, fields,
{
    if let List::Cons(field, rest) = fields {
        expected_field_stays(f, g, struct_name, field.member);
        if let Ok(expected) = walk::expected_field(f, struct_name, field.member) {
            expr_type_stays(f, g, limit, more, s, list::held(&field.expr), expected);
            if let Ok((s, _)) = walk::expr_type(f, limit, s, list::held(&field.expr), expected) {
                field_values_stays(f, g, limit, more, s, struct_name, list::held(&rest));
            }
        }
    }
}

proof fn cast_rule_stays(
    f: Frame,
    g: Frame,
    limit: nat,
    more: nat,
    s: StateView,
    expr: Expr,
    source: Expr,
    ty: Rc<Type>,
)
    requires
        steady::learns(f, g),
        limit <= more,
    ensures
        steady::stays(
            walk::cast_rule(f, limit, s, expr, source, ty),
            walk::cast_rule(g, more, s, expr, source, ty),
        ),
    decreases limit, 2int, s,
{
    expr_type_stays(f, g, limit, more, s, source, None);
}

proof fn closure_params_stays(
    f: Frame,
    g: Frame,
    s: StateView,
    params: List<ClosureParam>,
    given: List<TileType>,
)
    requires
        steady::learns(f, g),
    ensures
        steady::stays(
            walk::closure_params(f, s, params, given),
            walk::closure_params(g, s, params, given),
        ),
    decreases params,
{
    if let List::Cons(param, rest) = params {
        match given {
            List::Cons(ty, given) => {
                closure_params_stays(
                    f,
                    g,
                    state::bound(s, param.name, ty),
                    list::held(&rest),
                    list::held(&given),
                );
            },
            List::Nil => {
                match param.ty {
                    Some(written) => {
                        match ask::compiled(f.env, list::held(&written)) {
                            Err(_) => {},
                            Ok(Some(tile)) => {
                                closure_params_stays(
                                    f,
                                    g,
                                    state::bound(s, param.name, tile),
                                    list::held(&rest),
                                    List::Nil,
                                );
                            },
                            Ok(None) => {
                                closure_params_stays(
                                    f,
                                    g,
                                    state::bound_as_written(s, param.name, written),
                                    list::held(&rest),
                                    List::Nil,
                                );
                            },
                        }
                    },
                    None => {
                        closure_params_stays(
                            f,
                            g,
                            state::bound_to_term(
                                state::with_var(s, InferVarKind::General, None, None),
                                param.name,
                                unify::next_var(s.inference),
                            ),
                            list::held(&rest),
                            List::Nil,
                        );
                    },
                }
            },
        }
    }
}

proof fn closure_rule_stays(
    f: Frame,
    g: Frame,
    limit: nat,
    more: nat,
    s: StateView,
    params: List<ClosureParam>,
    body: Expr,
    given: List<TileType>,
    expected: Option<Rc<TileType>>,
)
    requires
        steady::learns(f, g),
        limit <= more,
    ensures
        steady::stays(
            walk::closure_rule(f, limit, s, params, body, given, expected),
            walk::closure_rule(g, more, s, params, body, given, expected),
        ),
    decreases limit, 2int, s,
{
    closure_params_stays(f, g, s, params, given);
    if let Ok((inner, _)) = walk::closure_params(f, s, params, given) {
        expr_type_stays(f, g, limit, more, inner, body, expected);
    }
}

proof fn assign_rule_stays(
    f: Frame,
    g: Frame,
    limit: nat,
    more: nat,
    s: StateView,
    name: Symbol,
    value: Expr,
)
    requires
        steady::learns(f, g),
        limit <= more,
    ensures
        steady::stays(
            walk::assign_rule(f, limit, s, name, value),
            walk::assign_rule(g, more, s, name, value),
        ),
    decreases limit, 2int, s,
{
    match state::looked_up(s.local_terms, name) {
        Some(term) => {
            expr_term_stays(f, g, limit, more, s, value, unify::known_type(s.inference.vars, term));
        },
        None => {
            let ty = state::looked_up(s.vars, name);
            expr_type_stays(f, g, limit, more, s, value, ty);
        },
    }
}

// Operators and terms.

proof fn bool_binary_rule_stays(
    f: Frame,
    g: Frame,
    limit: nat,
    more: nat,
    s: StateView,
    op: BinOp,
    left: Expr,
    right: Expr,
)
    requires
        steady::learns(f, g),
        limit <= more,
    ensures
        steady::stays(
            walk::bool_binary_rule(f, limit, s, op, left, right),
            walk::bool_binary_rule(g, more, s, op, left, right),
        ),
    decreases limit, 2int, s,
{
    of_lookups::bool_tile_stays(f, g);
    if let Ok(tile) = lookups::bool_tile(f) {
        if exprs::combines_bools(op) {
            expr_type_stays(f, g, limit, more, s, left, tile);
            if let Ok((s, _)) = walk::expr_type(f, limit, s, left, tile) {
                expr_type_stays(f, g, limit, more, s, right, tile);
            }
        } else {
            expr_term_stays(f, g, limit, more, s, left, None);
            if let Ok((s, lhs)) = walk::expr_term(f, limit, s, left, None) {
                expr_term_stays(f, g, limit, more, s, right, None);
            }
        }
    }
}

proof fn binary_rule_stays(
    f: Frame,
    g: Frame,
    limit: nat,
    more: nat,
    s: StateView,
    expr: Expr,
    op: BinOp,
    left: Expr,
    right: Expr,
    expected: Option<Rc<TileType>>,
)
    requires
        steady::learns(f, g),
        limit <= more,
    ensures
        steady::stays(
            walk::binary_rule(f, limit, s, expr, op, left, right, expected),
            walk::binary_rule(g, more, s, expr, op, left, right, expected),
        ),
    decreases limit, 3int, s,
{
    if exprs::gives_bool(op) {
        bool_binary_rule_stays(f, g, limit, more, s, op, left, right);
    } else if expected is None && exprs::keeps_operand_type(op) {
        expr_term_stays(f, g, limit, more, s, expr, None);
    } else if exprs::unsuffixed_number(left) {
        expr_type_stays(f, g, limit, more, s, right, expected);
        if let Ok((s, rhs)) = walk::expr_type(f, limit, s, right, expected) {
            expr_type_stays(f, g, limit, more, s, left, list::or_else(rhs, expected));
        }
    } else {
        expr_type_stays(f, g, limit, more, s, left, expected);
        if let Ok((s, lhs)) = walk::expr_type(f, limit, s, left, expected) {
            expr_type_stays(f, g, limit, more, s, right, list::or_else(lhs, expected));
            if let Ok((s, rhs)) = walk::expr_type(
                f,
                limit,
                s,
                right,
                list::or_else(lhs, expected),
            ) {
                if lhs is None && rhs is Some {
                    expr_type_stays(f, g, limit, more, s, left, rhs);
                }
            }
        }
    }
}

/// The term of an expression comes out the same with a larger limit and with more questions
/// answered.
pub proof fn expr_term_stays(
    f: Frame,
    g: Frame,
    limit: nat,
    more: nat,
    s: StateView,
    expr: Expr,
    expected: Option<Rc<TileType>>,
)
    requires
        steady::learns(f, g),
        limit <= more,
    ensures
        steady::stays(
            walk::expr_term(f, limit, s, expr, expected),
            walk::expr_term(g, more, s, expr, expected),
        ),
    decreases limit, 0int, s,
{
    if limit > 0 {
        term_rule_stays(f, g, (limit - 1) as nat, (more - 1) as nat, s, expr, expected);
    }
}

proof fn term_rule_stays(
    f: Frame,
    g: Frame,
    limit: nat,
    more: nat,
    s: StateView,
    expr: Expr,
    expected: Option<Rc<TileType>>,
)
    requires
        steady::learns(f, g),
        limit <= more,
    ensures
        steady::stays(
            walk::term_rule(f, limit, s, expr, expected),
            walk::term_rule(g, more, s, expr, expected),
        ),
    decreases limit, 40int, s,
{
    match (expected, unify::term_of(s.inference.terms, expr.id)) {
        (Some(expected), Some(term)) => {},
        (Some(ty), None) => {
            expr_type_stays(f, g, limit, more, s, expr, expected);
        },
        (None, Some(term)) => {},
        (None, None) => {
            new_term_stays(f, g, limit, more, s, expr);
        },
    }
}

proof fn new_term_stays(f: Frame, g: Frame, limit: nat, more: nat, s: StateView, expr: Expr)
    requires
        steady::learns(f, g),
        limit <= more,
    ensures
        steady::stays(walk::new_term(f, limit, s, expr), walk::new_term(g, more, s, expr)),
    decreases limit, 39int, s,
{
    match expr.kind {
        ExprKind::Path { qself, path } => {
            path_term_stays(f, g, s, expr, qself, path);
        },
        ExprKind::Lit { lit, ty } => {},
        ExprKind::Unary { op: UnOp::Neg, expr: inner } => {
            same_term_stays(f, g, limit, more, s, expr, list::held(&inner));
        },
        ExprKind::Paren(inner) => {
            same_term_stays(f, g, limit, more, s, expr, list::held(&inner));
        },
        ExprKind::Block(block) => {
            block_expr_term_stays(f, g, limit, more, s, expr, block);
        },
        ExprKind::Unsafe(block) => {
            block_expr_term_stays(f, g, limit, more, s, expr, block);
        },
        ExprKind::Binary { op, left, right } => {
            if exprs::keeps_operand_type(op) {
                expr_term_stays(f, g, limit, more, s, list::held(&left), None);
                if let Ok((s, lhs)) = walk::expr_term(f, limit, s, list::held(&left), None) {
                    expr_term_stays(f, g, limit, more, s, list::held(&right), None);
                }
            } else if exprs::gives_bool(op) {
                of_lookups::bool_tile_stays(f, g);
                if let Ok(Some(tile)) = lookups::bool_tile(f) {
                    bool_binary_rule_stays(
                        f,
                        g,
                        limit,
                        more,
                        s,
                        op,
                        list::held(&left),
                        list::held(&right),
                    );
                }
            } else {
                other_term_stays(f, g, limit, more, s, expr);
            }
        },
        ExprKind::Cast { expr: source, ty } => {
            cast_rule_stays(f, g, limit, more, s, expr, list::held(&source), ty);
        },
        ExprKind::If { cond, then_branch, else_branch } => {
            cond_rule_stays(f, g, limit, more, s, list::held(&cond));
            if let Ok((s, _)) = walk::cond_rule(f, limit, s, list::held(&cond)) {
                if_term_stays(f, g, limit, more, s, then_branch, else_branch);
            }
        },
        _ => {
            other_term_stays(f, g, limit, more, s, expr);
        },
    }
}

proof fn other_term_stays(f: Frame, g: Frame, limit: nat, more: nat, s: StateView, expr: Expr)
    requires
        steady::learns(f, g),
        limit <= more,
    ensures
        steady::stays(walk::other_term(f, limit, s, expr), walk::other_term(g, more, s, expr)),
    decreases limit, 2int, s,
{
    expr_type_stays(f, g, limit, more, s, expr, None);
}

proof fn same_term_stays(
    f: Frame,
    g: Frame,
    limit: nat,
    more: nat,
    s: StateView,
    expr: Expr,
    inner: Expr,
)
    requires
        steady::learns(f, g),
        limit <= more,
    ensures
        steady::stays(
            walk::same_term(f, limit, s, expr, inner),
            walk::same_term(g, more, s, expr, inner),
        ),
    decreases limit, 2int, s,
{
    expr_term_stays(f, g, limit, more, s, inner, None);
}

proof fn path_term_stays(
    f: Frame,
    g: Frame,
    s: StateView,
    expr: Expr,
    qself: Option<Rc<QSelf>>,
    path: Path,
)
    requires
        steady::learns(f, g),
    ensures
        steady::stays(
            walk::path_term(f, s, expr, qself, path),
            walk::path_term(g, s, expr, qself, path),
        ),
{
    match exprs::single_name(path) {
        Some(name) => {
            if let None = state::looked_up(s.local_terms, name) {
                if let None = state::looked_up(s.vars, name) {
                    of_lookups::const_type_stays(f, g, path);
                }
            }
        },
        None => {
            of_lookups::assoc_const_type_stays(f, g, qself, path);
        },
    }
}

proof fn block_expr_term_stays(
    f: Frame,
    g: Frame,
    limit: nat,
    more: nat,
    s: StateView,
    expr: Expr,
    block: Block,
)
    requires
        steady::learns(f, g),
        limit <= more,
    ensures
        steady::stays(
            walk::block_expr_term(f, limit, s, expr, block),
            walk::block_expr_term(g, more, s, expr, block),
        ),
    decreases limit, 13int, s,
{
    block_term_stays(f, g, limit, more, s, block);
    if let Ok((s, term)) = walk::block_term(f, limit, s, block) {
        if term is Unknown {
            expr_type_stays(f, g, limit, more, s, expr, None);
        }
    }
}

proof fn block_term_stays(f: Frame, g: Frame, limit: nat, more: nat, s: StateView, block: Block)
    requires
        steady::learns(f, g),
        limit <= more,
    ensures
        steady::stays(walk::block_term(f, limit, s, block), walk::block_term(g, more, s, block)),
    decreases limit, 12int, s,
{
    stmts_term_stays(f, g, limit, more, s, block.stmts);
}

proof fn stmts_term_stays(
    f: Frame,
    g: Frame,
    limit: nat,
    more: nat,
    s: StateView,
    stmts: List<Stmt>,
)
    requires
        steady::learns(f, g),
        limit <= more,
    ensures
        steady::stays(walk::stmts_term(f, limit, s, stmts), walk::stmts_term(g, more, s, stmts)),
    decreases limit, 11int, stmts,
{
    if let List::Cons(stmt, rest) = stmts {
        if list::held(&rest) is Nil {
            match list::held(&stmt) {
                Stmt::Expr { expr, semi } => {
                    if semi {
                        expr_type_stays(f, g, limit, more, s, list::held(&expr), None);
                    } else {
                        expr_term_stays(f, g, limit, more, s, list::held(&expr), None);
                    }
                },
                _ => {
                    stmt_type_stays(f, g, limit, more, s, list::held(&stmt), None);
                },
            }
        } else {
            stmt_type_stays(f, g, limit, more, s, list::held(&stmt), None);
            if let Ok((s, _)) = walk::stmt_type(f, limit, s, list::held(&stmt), None) {
                stmts_term_stays(f, g, limit, more, s, list::held(&rest));
            }
        }
    }
}

proof fn if_term_stays(
    f: Frame,
    g: Frame,
    limit: nat,
    more: nat,
    s: StateView,
    then_branch: Block,
    else_branch: Option<Rc<Expr>>,
)
    requires
        steady::learns(f, g),
        limit <= more,
    ensures
        steady::stays(
            walk::if_term(f, limit, s, then_branch, else_branch),
            walk::if_term(g, more, s, then_branch, else_branch),
        ),
    decreases limit, 14int, s,
{
    then_term_stays(f, g, limit, more, s, then_branch);
    if let Ok((s, then_side)) = walk::then_term(f, limit, s, then_branch) {
        else_term_stays(f, g, limit, more, s, else_branch);
        if let Ok((s, else_side)) = walk::else_term(f, limit, s, else_branch) {
            joined_stays(f, g, s, then_side, else_side);
        }
    }
}

proof fn then_term_stays(f: Frame, g: Frame, limit: nat, more: nat, s: StateView, block: Block)
    requires
        steady::learns(f, g),
        limit <= more,
    ensures
        steady::stays(walk::then_term(f, limit, s, block), walk::then_term(g, more, s, block)),
    decreases limit, 13int, s,
{
    if exprs::stmts_diverge(block.stmts) {
        block_type_stays(f, g, limit, more, s, block, None);
    } else {
        block_term_stays(f, g, limit, more, s, block);
    }
}

proof fn else_term_stays(
    f: Frame,
    g: Frame,
    limit: nat,
    more: nat,
    s: StateView,
    other: Option<Rc<Expr>>,
)
    requires
        steady::learns(f, g),
        limit <= more,
    ensures
        steady::stays(walk::else_term(f, limit, s, other), walk::else_term(g, more, s, other)),
    decreases limit, 13int, s,
{
    if let Some(expr) = other {
        if exprs::diverges(list::held(&expr)) {
            expr_type_stays(f, g, limit, more, s, list::held(&expr), None);
        } else {
            expr_term_stays(f, g, limit, more, s, list::held(&expr), None);
        }
    }
}

proof fn joined_stays(f: Frame, g: Frame, s: StateView, lhs: BranchTerm, rhs: BranchTerm)
    requires
        steady::learns(f, g),
    ensures
        walk::joined(g, s, lhs, rhs) == walk::joined(f, s, lhs, rhs),
{
}

// Types as written.

proof fn written_type_stays(
    f: Frame,
    g: Frame,
    limit: nat,
    more: nat,
    s: StateView,
    expr: Expr,
    expected: Option<Rc<TileType>>,
)
    requires
        steady::learns(f, g),
        limit <= more,
    ensures
        steady::stays(
            walk::written_type(f, limit, s, expr, expected),
            walk::written_type(g, more, s, expr, expected),
        ),
    decreases limit, 5int, expr,
{
    expr_type_stays(f, g, limit, more, s, expr, expected);
    if let Ok((s, None)) = walk::expr_type(f, limit, s, expr, expected) {
        if let None = results::surface_type(s.results, expr.id) {
            match expr.kind {
                ExprKind::Path { qself: _, path } => {},
                ExprKind::Paren(inner) => {
                    written_type_stays(f, g, limit, more, s, list::held(&inner), None);
                },
                ExprKind::Reference { mutable, expr: inner } => {
                    written_type_stays(f, g, limit, more, s, list::held(&inner), None);
                },
                _ => {},
            }
        }
    }
}

proof fn iter_rule_stays(f: Frame, g: Frame, limit: nat, more: nat, s: StateView, iter: Expr)
    requires
        steady::learns(f, g),
        limit <= more,
    ensures
        steady::stays(walk::iter_rule(f, limit, s, iter), walk::iter_rule(g, more, s, iter)),
    decreases limit, 11int, s,
{
    match iter.kind {
        ExprKind::MethodCall { receiver, method, turbofish: _, args } => {
            if method == names::ITER_INDICES && args is Nil {
                partition_items_stays(f, g, limit, more, s, list::held(&receiver));
                if let Ok((s, None)) = walk::partition_items(f, limit, s, list::held(&receiver)) {
                    plain_iter_stays(f, g, limit, more, s, iter);
                }
            } else if method == names::STEP_BY {
                match walk::stepped_range(list::held(&receiver)) {
                    Some((start, end)) => {
                        args_read_stays(f, g, limit, more, s, args);
                        if let Ok((s, _)) = walk::args_read(f, limit, s, args) {
                            range_rule_stays(f, g, limit, more, s, start, end);
                        }
                    },
                    None => {
                        plain_iter_stays(f, g, limit, more, s, iter);
                    },
                }
            } else {
                plain_iter_stays(f, g, limit, more, s, iter);
            }
        },
        _ => {
            plain_iter_stays(f, g, limit, more, s, iter);
        },
    }
}

proof fn plain_iter_stays(f: Frame, g: Frame, limit: nat, more: nat, s: StateView, iter: Expr)
    requires
        steady::learns(f, g),
        limit <= more,
    ensures
        steady::stays(walk::plain_iter(f, limit, s, iter), walk::plain_iter(g, more, s, iter)),
    decreases limit, 2int, s,
{
    expr_type_stays(f, g, limit, more, s, iter, None);
}

proof fn args_read_stays(f: Frame, g: Frame, limit: nat, more: nat, s: StateView, args: List<Expr>)
    requires
        steady::learns(f, g),
        limit <= more,
    ensures
        steady::stays(walk::args_read(f, limit, s, args), walk::args_read(g, more, s, args)),
    decreases limit, 1int, args,
{
    if let List::Cons(arg, rest) = args {
        expr_type_stays(f, g, limit, more, s, list::held(&arg), None);
        if let Ok((s, _)) = walk::expr_type(f, limit, s, list::held(&arg), None) {
            args_read_stays(f, g, limit, more, s, list::held(&rest));
        }
    }
}

proof fn partition_items_stays(
    f: Frame,
    g: Frame,
    limit: nat,
    more: nat,
    s: StateView,
    receiver: Expr,
)
    requires
        steady::learns(f, g),
        limit <= more,
    ensures
        steady::stays(
            walk::partition_items(f, limit, s, receiver),
            walk::partition_items(g, more, s, receiver),
        ),
    decreases limit, 10int, s,
{
    written_type_stays(f, g, limit, more, s, receiver, None);
    if let Ok((s, Some(ty))) = walk::written_type(f, limit, s, receiver, None) {
        partition_index_type_stays(f, g, list::held(&ty));
    }
}

proof fn partition_index_type_stays(f: Frame, g: Frame, ty: Type)
    requires
        steady::learns(f, g),
    ensures
        steady::stays(walk::partition_index_type(f, ty), walk::partition_index_type(g, ty)),
{
}

// Calls.

proof fn arg_types_stays(f: Frame, g: Frame, limit: nat, more: nat, s: StateView, args: List<Expr>)
    requires
        steady::learns(f, g),
        limit <= more,
    ensures
        steady::stays(walk::arg_types(f, limit, s, args), walk::arg_types(g, more, s, args)),
    decreases limit, 1int, args,
{
    if let List::Cons(arg, rest) = args {
        expr_type_stays(f, g, limit, more, s, list::held(&arg), None);
        if let Ok((s, Some(ty))) = walk::expr_type(f, limit, s, list::held(&arg), None) {
            arg_types_stays(f, g, limit, more, s, list::held(&rest));
        }
    }
}

proof fn call_rule_stays(
    f: Frame,
    g: Frame,
    limit: nat,
    more: nat,
    s: StateView,
    call: Expr,
    func: Rc<Expr>,
    args: List<Expr>,
    expected: Option<Rc<TileType>>,
)
    requires
        steady::learns(f, g),
        limit <= more,
    ensures
        steady::stays(
            walk::call_rule(f, limit, s, call, func, args, expected),
            walk::call_rule(g, more, s, call, func, args, expected),
        ),
    decreases limit, 38int, s,
{
    if let ExprKind::Path { qself: _, path } = func.kind {
        dim_call_stays(f, g, limit, more, s, path, args);
        if let Ok((s, None)) = walk::dim_call(f, limit, s, path, args) {
            match exprs::last_name(path) {
                None => {
                    unknown_call_stays(f, g, limit, more, s, args, expected);
                },
                Some(name) => {
                    if name == names::WITH_VALUE && types::sole(args) is Some {
                        some_call_stays(f, g, limit, more, s, types::sole(args)->0, expected);
                    } else {
                        match env::function_named(f.env.functions, name) {
                            None => {
                                unknown_call_stays(f, g, limit, more, s, args, expected);
                            },
                            Some(item) => {
                                function_call_stays(
                                    f,
                                    g,
                                    limit,
                                    more,
                                    s,
                                    item,
                                    call,
                                    func,
                                    args,
                                    expected,
                                );
                            },
                        }
                    }
                },
            }
        }
    }
}

proof fn unknown_call_stays(
    f: Frame,
    g: Frame,
    limit: nat,
    more: nat,
    s: StateView,
    args: List<Expr>,
    expected: Option<Rc<TileType>>,
)
    requires
        steady::learns(f, g),
        limit <= more,
    ensures
        steady::stays(
            walk::unknown_call(f, limit, s, args, expected),
            walk::unknown_call(g, more, s, args, expected),
        ),
    decreases limit, 2int, s,
{
    arg_types_stays(f, g, limit, more, s, args);
}

proof fn dim_call_stays(
    f: Frame,
    g: Frame,
    limit: nat,
    more: nat,
    s: StateView,
    path: Path,
    args: List<Expr>,
)
    requires
        steady::learns(f, g),
        limit <= more,
    ensures
        steady::stays(
            walk::dim_call(f, limit, s, path, args),
            walk::dim_call(g, more, s, path, args),
        ),
    decreases limit, 2int, s,
{
    if let Some(arg) = types::sole(args) {
        if exprs::names_dim_new(path) {
            if let Ok(Some(integer)) = ask::compiled(f.env, scalar::named_type(names::I32)) {
                expr_type_stays(f, g, limit, more, s, arg, Some(integer));
            }
        }
    }
}

proof fn some_call_stays(
    f: Frame,
    g: Frame,
    limit: nat,
    more: nat,
    s: StateView,
    arg: Expr,
    expected: Option<Rc<TileType>>,
)
    requires
        steady::learns(f, g),
        limit <= more,
    ensures
        steady::stays(
            walk::some_call(f, limit, s, arg, expected),
            walk::some_call(g, more, s, arg, expected),
        ),
    decreases limit, 2int, s,
{
    match expected {
        Some(option) => {
            let payload = match types::option_payload(list::held(&option.rust_ty)) {
                Some(ty) => ask::compiled_if_any(f.env, ty),
                None => Ok(None),
            };
            if let Ok(payload) = payload {
                expr_type_stays(f, g, limit, more, s, arg, payload);
            }
        },
        None => {
            expr_type_stays(f, g, limit, more, s, arg, None);
        },
    }
}

proof fn function_call_stays(
    f: Frame,
    g: Frame,
    limit: nat,
    more: nat,
    s: StateView,
    item: FnItem,
    call: Expr,
    func: Rc<Expr>,
    args: List<Expr>,
    expected: Option<Rc<TileType>>,
)
    requires
        steady::learns(f, g),
        limit <= more,
    ensures
        steady::stays(
            walk::function_call(f, limit, s, item, call, func, args, expected),
            walk::function_call(g, more, s, item, call, func, args, expected),
        ),
    decreases limit, 37int, s,
{
    closure_args_stays(f, g, limit, more, s, item, func, args, expected);
    if let Ok((s, _)) = walk::closure_args(f, limit, s, item, func, args, expected) {
        call_arg_types_stays(f, g, limit, more, s, item, func, args, expected);
        if let Ok((s, types)) = walk::call_arg_types(f, limit, s, item, func, args, expected) {
            match ask::unwrapped(f.env, item.id, call) {
                Err(_) => {},
                Ok(None) => {
                    of_calls::function_return_stays(
                        f,
                        g,
                        limit,
                        more,
                        s,
                        item,
                        call,
                        func,
                        args,
                        types,
                        expected,
                    );
                },
                Ok(Some(lowered)) => {
                    method_selection_stays(f, g, limit, more, s, list::held(&lowered));
                    if let Ok((s, None)) = walk::method_selection(
                        f,
                        limit,
                        s,
                        list::held(&lowered),
                    ) {
                        of_calls::function_return_stays(
                            f,
                            g,
                            limit,
                            more,
                            s,
                            item,
                            call,
                            func,
                            args,
                            types,
                            expected,
                        );
                    }
                },
            }
        }
    }
}

proof fn call_arg_types_stays(
    f: Frame,
    g: Frame,
    limit: nat,
    more: nat,
    s: StateView,
    item: FnItem,
    func: Rc<Expr>,
    args: List<Expr>,
    expected: Option<Rc<TileType>>,
)
    requires
        steady::learns(f, g),
        limit <= more,
    ensures
        steady::stays(
            walk::call_arg_types(f, limit, s, item, func, args, expected),
            walk::call_arg_types(g, more, s, item, func, args, expected),
        ),
    decreases limit, 12int, s,
{
    of_lookups::call_expected_args_stays(f, g, limit, more, item, func, expected);
    if let Ok(wanted) = lookups::call_expected_args(f, limit, item, func, expected) {
        args_against_params_stays(f, g, limit, more, s, args, item.param_types, wanted);
    }
}

proof fn args_against_params_stays(
    f: Frame,
    g: Frame,
    limit: nat,
    more: nat,
    s: StateView,
    args: List<Expr>,
    params: List<Type>,
    wanted: List<Option<Rc<TileType>>>,
)
    requires
        steady::learns(f, g),
        limit <= more,
    ensures
        steady::stays(
            walk::args_against_params(f, limit, s, args, params, wanted),
            walk::args_against_params(g, more, s, args, params, wanted),
        ),
    decreases limit, 11int, args,
{
    if let List::Cons(arg, rest) = args {
        let own = match wanted {
            List::Cons(own, _) => list::held(&own),
            List::Nil => None,
        };
        if let None = own {
            if let List::Cons(param, _) = params {
                of_lookups::scalar_param_stays(f, g, list::held(&param));
            }
        }
        let own = match own {
            Some(ty) => Ok(Some(ty)),
            None => match params {
                List::Cons(param, _) => lookups::scalar_param(f, list::held(&param)),
                List::Nil => Ok(None),
            },
        };
        if let Ok(own) = own {
            expr_type_stays(f, g, limit, more, s, list::held(&arg), own);
            if let Ok((s, Some(ty))) = walk::expr_type(f, limit, s, list::held(&arg), own) {
                args_against_params_stays(
                    f,
                    g,
                    limit,
                    more,
                    s,
                    list::held(&rest),
                    lookups::behind_first(params),
                    lookups::behind_first(wanted),
                );
            }
        }
    }
}

proof fn closure_args_stays(
    f: Frame,
    g: Frame,
    limit: nat,
    more: nat,
    s: StateView,
    item: FnItem,
    func: Rc<Expr>,
    args: List<Expr>,
    expected: Option<Rc<TileType>>,
)
    requires
        steady::learns(f, g),
        limit <= more,
    ensures
        steady::stays(
            walk::closure_args(f, limit, s, item, func, args, expected),
            walk::closure_args(g, more, s, item, func, args, expected),
        ),
    decreases limit, 12int, s,
{
    let signatures = walk::closure_signatures(item, args, item.param_types);
    if walk::has_signature(signatures) {
        args_for_closures_stays(
            f,
            g,
            limit,
            more,
            s,
            args,
            item.param_types,
            signatures,
            substitute::closure_names(item.generics, signatures),
            lookups::call_solver(item, func, expected),
        );
    }
}

proof fn expected_so_far_stays(
    f: Frame,
    g: Frame,
    limit: nat,
    more: nat,
    param: Type,
    solver: Solver,
)
    requires
        steady::learns(f, g),
        limit <= more,
    ensures
        steady::stays(
            walk::expected_so_far(f, limit, param, solver),
            walk::expected_so_far(g, more, param, solver),
        ),
{
    if let Ok(bindings) = ask::bindings(f.env, solver) {
        if let Some(ty) = substitute::substituted(bindings, param) {
            of_lookups::expected_param_stays(f, g, limit, more, list::held(&ty));
        }
        let first = match substitute::substituted(bindings, param) {
            Some(ty) => lookups::expected_param(f, limit, list::held(&ty)),
            None => Ok(None),
        };
        if let Ok(None) = first {
            of_lookups::scalar_param_stays(f, g, param);
        }
    }
}

proof fn args_for_closures_stays(
    f: Frame,
    g: Frame,
    limit: nat,
    more: nat,
    s: StateView,
    args: List<Expr>,
    params: List<Type>,
    signatures: List<Option<ClosureSignature>>,
    wanted: Set<Symbol>,
    solver: Solver,
)
    requires
        steady::learns(f, g),
        limit <= more,
    ensures
        steady::stays(
            walk::args_for_closures(f, limit, s, args, params, signatures, wanted, solver),
            walk::args_for_closures(g, more, s, args, params, signatures, wanted, solver),
        ),
    decreases limit, 11int, args,
{
    if let (List::Cons(arg, args), List::Cons(param, params), List::Cons(signature, signatures)) = (
        args,
        params,
        signatures,
    ) {
        match arg.kind {
            ExprKind::Closure { params: names, body } => {
                if let Some(signature) = list::held(&signature) {
                    of_lookups::closure_types_stays(f, g, limit, more, signature, solver);
                }
                let known = match list::held(&signature) {
                    Some(signature) => lookups::closure_types(f, limit, signature, solver),
                    None => Ok(None),
                };
                if let Ok(known) = known {
                    let (given, result) = match known {
                        Some((given, result)) => (given, result),
                        None => (List::Nil, None),
                    };
                    closure_rule_stays(
                        f,
                        g,
                        limit,
                        more,
                        s,
                        names,
                        list::held(&body),
                        given,
                        result,
                    );
                    if let Ok((s, _)) = walk::closure_rule(
                        f,
                        limit,
                        s,
                        names,
                        list::held(&body),
                        given,
                        result,
                    ) {
                        args_for_closures_stays(
                            f,
                            g,
                            limit,
                            more,
                            s,
                            list::held(&args),
                            list::held(&params),
                            list::held(&signatures),
                            wanted,
                            solver,
                        );
                    }
                }
            },
            _ => {
                expected_so_far_stays(f, g, limit, more, list::held(&param), solver);
                if let Ok(expected) = walk::expected_so_far(f, limit, list::held(&param), solver) {
                    written_type_stays(f, g, limit, more, s, list::held(&arg), expected);
                    if let Ok((s, ty)) = walk::written_type(
                        f,
                        limit,
                        s,
                        list::held(&arg),
                        expected,
                    ) {
                        let solver = match ty {
                            Some(ty) => if substitute::mentions_one_of(list::held(&param), wanted)
                                && types::constrains(
                                list::held(&param),
                                list::held(&ty),
                            ) {
                                solver.after(Step::Constraint { param, arg: ty })
                            } else {
                                solver
                            },
                            None => solver,
                        };
                        args_for_closures_stays(
                            f,
                            g,
                            limit,
                            more,
                            s,
                            list::held(&args),
                            list::held(&params),
                            list::held(&signatures),
                            wanted,
                            solver,
                        );
                    }
                }
            },
        }
    }
}

// Method calls.

proof fn method_call_rule_stays(
    f: Frame,
    g: Frame,
    limit: nat,
    more: nat,
    s: StateView,
    call: Expr,
    expected: Option<Rc<TileType>>,
)
    requires
        steady::learns(f, g),
        limit <= more,
    ensures
        steady::stays(
            walk::method_call_rule(f, limit, s, call, expected),
            walk::method_call_rule(g, more, s, call, expected),
        ),
    decreases limit, 38int, s,
{
    global_call_stays(f, g, limit, more, s, call);
    if let Ok((s, None)) = walk::global_call(f, limit, s, call) {
        method_selection_stays(f, g, limit, more, s, call);
    }
}

proof fn global_args_stays(
    f: Frame,
    g: Frame,
    limit: nat,
    more: nat,
    s: StateView,
    args: List<Expr>,
    first: Option<Rc<Type>>,
)
    requires
        steady::learns(f, g),
        limit <= more,
    ensures
        steady::stays(
            walk::global_args(f, limit, s, args, first),
            walk::global_args(g, more, s, args, first),
        ),
    decreases limit, 1int, args,
{
    if let List::Cons(arg, rest) = args {
        let expected = match first {
            Some(ty) => ask::compiled(f.env, list::held(&ty)),
            None => Ok(None),
        };
        if let Ok(expected) = expected {
            expr_type_stays(f, g, limit, more, s, list::held(&arg), expected);
            if let Ok((s, _)) = walk::expr_type(f, limit, s, list::held(&arg), expected) {
                global_args_stays(f, g, limit, more, s, list::held(&rest), None);
            }
        }
    }
}

proof fn global_call_stays(f: Frame, g: Frame, limit: nat, more: nat, s: StateView, call: Expr)
    requires
        steady::learns(f, g),
        limit <= more,
    ensures
        steady::stays(walk::global_call(f, limit, s, call), walk::global_call(g, more, s, call)),
    decreases limit, 2int, s,
{
    if let ExprKind::MethodCall { receiver, method, turbofish: _, args } = call.kind {
        of_lookups::global_static_stays(f, g, list::held(&receiver));
        if let Ok(Some((element, shape))) = lookups::global_static(f, list::held(&receiver),) {
            let tile = Rc::new(types::tile_of(list::held(&element), shape));
            if let Some((ty, takes_tile)) = walk::global_result(method, tile) {
                global_args_stays(
                    f,
                    g,
                    limit,
                    more,
                    s,
                    args,
                    if takes_tile {
                        Some(tile)
                    } else {
                        None
                    },
                );
            }
        }
    }
}

proof fn method_args_stays(
    f: Frame,
    g: Frame,
    limit: nat,
    more: nat,
    s: StateView,
    args: List<Expr>,
    wanted: List<Type>,
    found: List<Type>,
)
    requires
        steady::learns(f, g),
        limit <= more,
    ensures
        steady::stays(
            walk::method_args(f, limit, s, args, wanted, found),
            walk::method_args(g, more, s, args, wanted, found),
        ),
    decreases limit, 11int, args,
{
    if let List::Cons(arg, rest) = args {
        if let List::Cons(param, _) = wanted {
            of_lookups::expected_param_stays(f, g, limit, more, list::held(&param));
        }
        let expected = match wanted {
            List::Cons(param, _) => lookups::expected_param(f, limit, list::held(&param)),
            List::Nil => Ok(None),
        };
        if let Ok(expected) = expected {
            written_type_stays(f, g, limit, more, s, list::held(&arg), expected);
            if let Ok((s, Some(ty))) = walk::written_type(f, limit, s, list::held(&arg), expected) {
                method_args_stays(
                    f,
                    g,
                    limit,
                    more,
                    s,
                    list::held(&rest),
                    lookups::behind_first(wanted),
                    found.pushed(list::held(&ty)),
                );
            }
        }
    }
}

proof fn method_probe_stays(
    f: Frame,
    g: Frame,
    limit: nat,
    more: nat,
    s: StateView,
    call: Expr,
    method: Symbol,
    turbofish: Option<List<GenericArg>>,
    args: List<Expr>,
    receiver: Rc<Type>,
)
    requires
        steady::learns(f, g),
        limit <= more,
    ensures
        steady::stays(
            walk::method_probe(f, limit, s, call, method, turbofish, args, receiver),
            walk::method_probe(g, more, s, call, method, turbofish, args, receiver),
        ),
    decreases limit, 12int, s,
{
    of_lookups::method_expected_args_stays(f, g, list::held(&receiver), method);
    if let Ok(wanted) = lookups::method_expected_args(f, list::held(&receiver), method) {
        let wanted = match wanted {
            Some(wanted) => wanted,
            None => List::Nil,
        };
        method_args_stays(
            f,
            g,
            limit,
            more,
            s,
            args,
            wanted,
            List::Cons(receiver, Rc::new(List::Nil)),
        );
        if let Ok((s, Some(types))) = walk::method_args(
            f,
            limit,
            s,
            args,
            wanted,
            List::Cons(receiver, Rc::new(List::Nil)),
        ) {
            of_calls::selected_method_stays(f, g, limit, more, s, call, turbofish, types);
        }
    }
}

proof fn first_method_stays(
    f: Frame,
    g: Frame,
    limit: nat,
    more: nat,
    s: StateView,
    call: Expr,
    method: Symbol,
    turbofish: Option<List<GenericArg>>,
    args: List<Expr>,
    receivers: List<Type>,
)
    requires
        steady::learns(f, g),
        limit <= more,
    ensures
        steady::stays(
            walk::first_method(f, limit, s, call, method, turbofish, args, receivers),
            walk::first_method(g, more, s, call, method, turbofish, args, receivers),
        ),
    decreases limit, 13int, receivers,
{
    if let List::Cons(receiver, rest) = receivers {
        method_probe_stays(f, g, limit, more, s, call, method, turbofish, args, receiver);
        if let Ok((_, None)) = walk::method_probe(
            f,
            limit,
            s,
            call,
            method,
            turbofish,
            args,
            receiver,
        ) {
            first_method_stays(
                f,
                g,
                limit,
                more,
                s,
                call,
                method,
                turbofish,
                args,
                list::held(&rest),
            );
        }
    }
}

/// The method that a call means comes out the same with a larger limit and with more questions
/// answered.
pub proof fn method_selection_stays(
    f: Frame,
    g: Frame,
    limit: nat,
    more: nat,
    s: StateView,
    call: Expr,
)
    requires
        steady::learns(f, g),
        limit <= more,
    ensures
        steady::stays(
            walk::method_selection(f, limit, s, call),
            walk::method_selection(g, more, s, call),
        ),
    decreases limit, 14int, s,
{
    if let ExprKind::MethodCall { receiver, method, turbofish, args } = call.kind {
        written_type_stays(f, g, limit, more, s, list::held(&receiver), None);
        match walk::written_type(f, limit, s, list::held(&receiver), None,) {
            Err(_) => {},
            Ok((s, None)) => {
                no_method_stays(f, g, limit, more, s, args);
            },
            Ok((s, Some(ty))) => {
                let receivers = receiver::candidates(
                    list::held(&f.env.names),
                    list::held(&ty),
                    lookups::borrows_mutably(s, list::held(&receiver), list::held(&ty)),
                );
                first_method_stays(f, g, limit, more, s, call, method, turbofish, args, receivers);
                if let Ok((s, None)) = walk::first_method(
                    f,
                    limit,
                    s,
                    call,
                    method,
                    turbofish,
                    args,
                    receivers,
                ) {
                    no_method_stays(f, g, limit, more, s, args);
                }
            },
        }
    }
}

proof fn no_method_stays(f: Frame, g: Frame, limit: nat, more: nat, s: StateView, args: List<Expr>)
    requires
        steady::learns(f, g),
        limit <= more,
    ensures
        steady::stays(walk::no_method(f, limit, s, args), walk::no_method(g, more, s, args)),
    decreases limit, 2int, s,
{
    arg_types_stays(f, g, limit, more, s, args);
}

} // verus!

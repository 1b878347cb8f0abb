//! What holds of the terms of expressions, by which expressions whose types are not known yet are
//! tied to each other.
use crate::ask;
use crate::env::{Solver, Step, Stop, TileType};
use crate::exprs;
use crate::infer::compounds;
use crate::infer::lookups;
use crate::infer::patterns;
use crate::infer::state::{self, Frame, Outcome, StateView};
use crate::infer::walk;
use crate::list::{self, List};
use crate::names;
use crate::results::{self, MethodSelection};
use crate::substitute::{self, ClosureSignature};
use crate::syntax::{
    BinOp, Block, ClosureParam, Expr, ExprKind, FnItem, GenericArg, Lit, NodeId, Pat, Path, Stmt,
    Symbol, Type, UnOp,
};
use crate::types;
use crate::unify::{self, BranchTerm, InferVarId, InferVarKind, InferredTy};
use std::rc::Rc;
use vstd::prelude::*;

verus! {

/// The outcome in which an expression has a term.
pub open spec fn termed(s: StateView, term: InferredTy) -> Outcome<InferredTy> {
    Ok((s, term))
}

/// The outcome in which something was read, and nothing more is said of it.
pub open spec fn done(s: StateView) -> Outcome<()> {
    Ok((s, ()))
}

/// Whether an expression has no term yet.
pub open spec fn has_no_term(s: StateView, expr: Expr) -> bool {
    unify::term_of(s.inference.terms, expr.id) is None
}

/// A term that an expression has stays its term, and takes the type that is expected of it.
pub proof fn term_of_an_expression_stays(
    f: Frame,
    limit: nat,
    s: StateView,
    expr: Expr,
    term: InferredTy,
    expected: Rc<TileType>,
)
    requires
        unify::term_of(s.inference.terms, expr.id) == Some(term),
    ensures
        walk::expr_term(f, limit + 1, s, expr, None) == termed(s, term),
        ({
            let (after, own) = unify::unified_with_known(
                *f.env.names,
                s.inference,
                term,
                expected,
            );
            walk::expr_term(f, limit + 1, s, expr, Some(expected)) matches Ok((end, given)) && given
                == own && end.inference == unify::recorded(after, expr.id, own) && end.results
                == s.results && end.local_terms == s.local_terms
        }),
{
    assert(walk::term_rule(f, limit, s, expr, None) == termed(s, term));
}

/// An expression without a term of which a type is expected is read with it; its term is the type
/// that it has, or else the one that is expected.
pub proof fn expected_type_is_the_term(
    f: Frame,
    limit: nat,
    s: StateView,
    mid: StateView,
    expr: Expr,
    found: Rc<TileType>,
    expected: Rc<TileType>,
)
    requires
        has_no_term(s, expr),
    ensures
        walk::expr_type(f, limit, s, expr, Some(expected)) == compounds::read(mid, Some(found))
            ==> walk::expr_term(f, limit + 1, s, expr, Some(expected)) == termed(
            mid,
            InferredTy::Known(found),
        ),
        walk::expr_type(f, limit, s, expr, Some(expected)) == compounds::read(mid, None)
            ==> walk::expr_term(f, limit + 1, s, expr, Some(expected)) == termed(
            mid,
            InferredTy::Known(expected),
        ),
{
}

/// A number without a suffix has a new variable for its term, of its kind, which waits for it.
pub proof fn plain_number_has_a_variable(
    f: Frame,
    limit: nat,
    s: StateView,
    id: NodeId,
    lit: Lit,
    kind: InferVarKind,
)
    requires
        has_no_term(s, Expr { id: Some(id), kind: ExprKind::Lit { lit, ty: None } }),
        (lit matches Lit::Int { suffix, .. } && suffix is None && kind == InferVarKind::Int) || (
        lit matches Lit::Float { suffix, .. } && suffix is None && kind == InferVarKind::Float),
        s.inference.vars.len() < usize::MAX,
    ensures
        ({
            let expr = Expr { id: Some(id), kind: ExprKind::Lit { lit, ty: None } };
            let at = s.inference.vars.len() as int;
            walk::expr_term(f, limit + 1, s, expr, None) matches Ok((end, term)) && term
                == InferredTy::Var(InferVarId { index: at as usize }) && end.inference
                == unify::with_var(s.inference, kind, Some(id), Some(expr)) && end.results
                == s.results
        }),
{
    let expr = Expr { id: Some(id), kind: ExprKind::Lit { lit, ty: None } };
    assert(walk::new_term(f, limit, s, expr) == Ok::<(StateView, InferredTy), Stop>(
        lookups::literal_term(s, expr, lit),
    ));
    assert(walk::term_rule(f, limit, s, expr, None) == walk::new_term(f, limit, s, expr));
}

/// A negated expression and one in parentheses have the term of what they hold.
pub proof fn inner_term_is_the_term(
    f: Frame,
    limit: nat,
    s: StateView,
    mid: StateView,
    id: Option<NodeId>,
    inner: Rc<Expr>,
    term: InferredTy,
)
    requires
        walk::expr_term(f, limit, s, *inner, None) == termed(mid, term),
    ensures
        ({
            let expr = Expr { id, kind: ExprKind::Paren(inner) };
            has_no_term(s, expr) ==> walk::expr_term(f, limit + 1, s, expr, None) == termed(
                state::recorded(mid, id, term),
                term,
            )
        }),
        ({
            let expr = Expr { id, kind: ExprKind::Unary { op: UnOp::Neg, expr: inner } };
            has_no_term(s, expr) ==> walk::expr_term(f, limit + 1, s, expr, None) == termed(
                state::recorded(mid, id, term),
                term,
            )
        }),
{
    let paren = Expr { id, kind: ExprKind::Paren(inner) };
    let neg = Expr { id, kind: ExprKind::Unary { op: UnOp::Neg, expr: inner } };
    assert(walk::same_term(f, limit, s, paren, list::held(&inner)) == termed(
        state::recorded(mid, id, term),
        term,
    ));
    assert(walk::same_term(f, limit, s, neg, list::held(&inner)) == termed(
        state::recorded(mid, id, term),
        term,
    ));
    assert(walk::new_term(f, limit, s, paren) == walk::same_term(
        f,
        limit,
        s,
        paren,
        list::held(&inner),
    ));
    assert(walk::new_term(f, limit, s, neg) == walk::same_term(
        f,
        limit,
        s,
        neg,
        list::held(&inner),
    ));
    if has_no_term(s, paren) {
        assert(walk::term_rule(f, limit, s, paren, None) == walk::new_term(f, limit, s, paren));
    }
    if has_no_term(s, neg) {
        assert(walk::term_rule(f, limit, s, neg, None) == walk::new_term(f, limit, s, neg));
    }
}

/// An operator that keeps the type of its operands makes the terms of the two one, the left one's
/// first.
pub proof fn operands_are_made_one(
    f: Frame,
    limit: nat,
    s: StateView,
    one: StateView,
    two: StateView,
    id: Option<NodeId>,
    op: BinOp,
    left: Rc<Expr>,
    right: Rc<Expr>,
    lhs: InferredTy,
    rhs: InferredTy,
)
    requires
        has_no_term(s, Expr { id, kind: ExprKind::Binary { op, left, right } }),
        exprs::keeps_operand_type(op),
        walk::expr_term(f, limit, s, *left, None) == termed(one, lhs),
        walk::expr_term(f, limit, one, *right, None) == termed(two, rhs),
    ensures
        ({
            let (after, own) = unify::unified(*f.env.names, two.inference, lhs, rhs);
            walk::expr_term(
                f,
                limit + 1,
                s,
                Expr { id, kind: ExprKind::Binary { op, left, right } },
                None,
            ) matches Ok((end, term)) && term == own && end.inference == unify::recorded(
                after,
                id,
                own,
            ) && end.results == two.results
        }),
{
    let expr = Expr { id, kind: ExprKind::Binary { op, left, right } };
    let (after, own) = state::unified(f, two, lhs, rhs);
    assert(walk::new_term(f, limit, s, expr) == termed(state::recorded(after, id, own), own));
    assert(walk::term_rule(f, limit, s, expr, None) == walk::new_term(f, limit, s, expr));
}

/// The term of a name is the one that it stands for; a name of a known type has that type, and else a
/// constant that of its declaration.
pub proof fn name_has_the_term_it_stands_for(
    f: Frame,
    limit: nat,
    s: StateView,
    id: Option<NodeId>,
    path: Path,
    name: Symbol,
    constant: Option<Rc<TileType>>,
)
    requires
        exprs::single_name(path) == Some(name),
        has_no_term(s, Expr { id, kind: ExprKind::Path { qself: None, path } }),
    ensures
        ({
            let expr = Expr { id, kind: ExprKind::Path { qself: None, path } };
            let given = walk::expr_term(f, limit + 1, s, expr, None);
            &&& s.local_terms.contains_key(name) ==> given == termed(
                state::recorded(s, id, s.local_terms[name]),
                s.local_terms[name],
            )
            &&& !s.local_terms.contains_key(name) && s.vars.contains_key(name) ==> given == termed(
                s,
                InferredTy::Known(s.vars[name]),
            )
            &&& !s.local_terms.contains_key(name) && !s.vars.contains_key(name)
                && lookups::const_type(f, path) == Ok::<Option<Rc<TileType>>, Stop>(constant)
                ==> given == termed(
                s,
                match constant {
                    Some(ty) => InferredTy::Known(ty),
                    None => InferredTy::Unknown,
                },
            )
        }),
{
    let expr = Expr { id, kind: ExprKind::Path { qself: None, path } };
    assert(walk::new_term(f, limit, s, expr) == walk::path_term(f, s, expr, None, path));
    assert(walk::term_rule(f, limit, s, expr, None) == walk::new_term(f, limit, s, expr));
}

/// The statements of a block are read in turn, and its term is that of the expression that it ends
/// in; one that ends otherwise has none.
pub proof fn block_has_the_term_of_its_end(
    f: Frame,
    limit: nat,
    s: StateView,
    mid: StateView,
    stmt: Stmt,
    rest: List<Stmt>,
    ty: Option<Rc<TileType>>,
    last: Rc<Expr>,
)
    ensures
        walk::stmts_term(
            f,
            limit,
            s,
            List::Cons(Rc::new(Stmt::Expr { expr: last, semi: false }), Rc::new(List::Nil)),
        ) == walk::expr_term(f, limit, s, *last, None),
        walk::expr_type(f, limit, s, *last, None) == compounds::read(mid, ty) ==> walk::stmts_term(
            f,
            limit,
            s,
            List::Cons(Rc::new(Stmt::Expr { expr: last, semi: true }), Rc::new(List::Nil)),
        ) == termed(mid, InferredTy::Unknown),
        !(rest is Nil) && walk::stmt_type(f, limit, s, stmt, None) == compounds::read(mid, ty)
            ==> walk::stmts_term(f, limit, s, List::Cons(Rc::new(stmt), Rc::new(rest)))
            == walk::stmts_term(f, limit, mid, rest),
        walk::stmts_term(f, limit, s, List::Nil) == termed(s, InferredTy::Unknown),
{
}

/// The branches of a conditional are made one where both have a value; else the one that has a value
/// says what the conditional is.
pub proof fn branches_are_made_one(f: Frame, s: StateView, lhs: InferredTy, rhs: InferredTy)
    ensures
        ({
            let (after, own) = unify::unified(*f.env.names, s.inference, lhs, rhs);
            let (end, term) = walk::joined(f, s, BranchTerm::Value(lhs), BranchTerm::Value(rhs));
            term == own && end.inference == after
        }),
        walk::joined(f, s, BranchTerm::Value(lhs), BranchTerm::Unknown) == (s, lhs),
        walk::joined(f, s, BranchTerm::Unknown, BranchTerm::Value(rhs)) == (s, rhs),
        walk::joined(f, s, BranchTerm::Unknown, BranchTerm::Diverges) == (s, InferredTy::Unknown),
        walk::joined(f, s, BranchTerm::Diverges, BranchTerm::Diverges) == (s, InferredTy::Unknown),
        !(lhs is Unknown) ==> unify::branch_of(lhs) == BranchTerm::Value(lhs),
        unify::branch_of(InferredTy::Unknown) == BranchTerm::Unknown,
{
}

/// The terms of expressions come in the order of the expressions: those of the first ones, then that
/// of the last.
pub proof fn terms_are_in_order(
    f: Frame,
    limit: nat,
    s: StateView,
    items: List<Expr>,
    last: Expr,
    mid: StateView,
    terms: List<InferredTy>,
    end: StateView,
    term: InferredTy,
)
    requires
        walk::terms_of(f, limit, s, items) == Ok::<(StateView, List<InferredTy>), Stop>((mid, terms)),
        walk::expr_term(f, limit, mid, last, None) == termed(end, term),
    ensures
        walk::terms_of(f, limit, s, items.pushed(last)) == Ok::<
            (StateView, List<InferredTy>),
            Stop,
        >((end, terms.pushed(term))),
        terms.pushed(term)@ == terms@.push(term),
    decreases items,
{
    list::pushed_item_is_last(terms, term);
    match items {
        List::Nil => {
            let none = List::<Expr>::Nil;
            assert(items.pushed(last) == List::Cons(Rc::new(last), Rc::new(none)));
            assert(walk::terms_of(f, limit, end, none) == Ok::<
                (StateView, List<InferredTy>),
                Stop,
            >((end, List::Nil)));
        },
        List::Cons(first, rest) => {
            assert(items.pushed(last) == List::Cons(
                first,
                Rc::new(list::held(&rest).pushed(last)),
            ));
            let (next, own) = walk::expr_term(f, limit, s, list::held(&first), None)->Ok_0;
            let more = walk::terms_of(f, limit, next, list::held(&rest))->Ok_0.1;
            terms_are_in_order(f, limit, next, list::held(&rest), last, mid, more, end, term);
        },
    }
}

/// All terms are made one with what the terms before came to, one after the other.
pub proof fn terms_are_made_one_in_turn(
    f: Frame,
    s: StateView,
    so_far: InferredTy,
    terms: List<InferredTy>,
    last: InferredTy,
)
    ensures
        walk::all_unified(f, s, so_far, terms.pushed(last)) == ({
            let (mid, own) = walk::all_unified(f, s, so_far, terms);
            state::unified(f, mid, own, last)
        }),
    decreases terms,
{
    match terms {
        List::Nil => {
            let none = List::<InferredTy>::Nil;
            assert(terms.pushed(last) == List::Cons(Rc::new(last), Rc::new(none)));
            let (end, own) = state::unified(f, s, so_far, last);
            assert(walk::all_unified(f, end, own, none) == (end, own));
        },
        List::Cons(first, rest) => {
            assert(terms.pushed(last) == List::Cons(
                first,
                Rc::new(list::held(&rest).pushed(last)),
            ));
            let (next, own) = state::unified(f, s, so_far, list::held(&first));
            terms_are_made_one_in_turn(f, next, own, list::held(&rest), last);
        },
    }
}

// Patterns.

/// A name in a pattern is bound to the term of the expression that it stands for, or to a new
/// variable where nothing is known of the expression.
pub proof fn name_is_bound_to_the_term(
    f: Frame,
    limit: nat,
    s: StateView,
    mid: StateView,
    name: Symbol,
    mutable: bool,
    expr: Expr,
    term: InferredTy,
)
    requires
        walk::expr_term(f, limit, s, expr, None) == termed(mid, term),
    ensures
        ({
            let pat = Pat::Ident { name, mutable, subpat: None };
            let given = walk::pattern_from_expr(f, limit, s, pat, expr);
            &&& !(term is Unknown) && unify::known_type(mid.inference.vars, term) is None ==> (
            given matches Ok((end, _)) && end.local_terms == mid.local_terms.insert(name, term)
                && end.inference == mid.inference && (mutable ==> end.mutable_vars.contains(name)))
            &&& !(term is Unknown) && unify::known_type(mid.inference.vars, term) is Some ==> (
            given matches Ok((end, _)) && end.vars == mid.vars.insert(
                name,
                unify::known_type(mid.inference.vars, term)->0,
            ))
            &&& term is Unknown ==> given == patterns::pattern_termed(
                f,
                state::with_var(mid, InferVarKind::General, expr.id, Some(expr)),
                pat,
                InferredTy::Var(InferVarId { index: mid.inference.vars.len() as usize }),
            )
        }),
{
}

/// An annotated pattern expects its type of the expression.
pub proof fn annotation_is_expected(
    f: Frame,
    limit: nat,
    s: StateView,
    mid: StateView,
    inner: Rc<Pat>,
    ty: Rc<Type>,
    expr: Expr,
    expected: Option<Rc<TileType>>,
    found: Option<Rc<TileType>>,
)
    requires
        ask::compiled(f.env, *ty) == Ok::<Option<Rc<TileType>>, Stop>(expected),
        walk::expr_type(f, limit, s, expr, expected) == compounds::read(mid, found),
    ensures
        walk::pattern_from_expr(f, limit, s, Pat::Type { pat: inner, ty }, expr)
            == patterns::pattern_as_written(f, mid, *inner, ty),
{
}

/// A tuple of patterns takes a tuple of as many items apart: the first pattern stands for the first
/// item, and so on.
pub proof fn tuple_is_taken_apart_in_order(
    f: Frame,
    limit: nat,
    s: StateView,
    mid: StateView,
    id: Option<NodeId>,
    pat: Pat,
    pats: List<Pat>,
    item: Expr,
    items: List<Expr>,
)
    requires
        pats@.len() == items@.len(),
        walk::pattern_from_expr(f, limit, s, pat, item) == done(mid),
    ensures
        walk::pattern_from_expr(
            f,
            limit,
            s,
            Pat::Tuple(List::Cons(Rc::new(pat), Rc::new(pats))),
            Expr { id, kind: ExprKind::Tuple(List::Cons(Rc::new(item), Rc::new(items))) },
        ) == walk::patterns_from_exprs(f, limit, mid, pats, items),
        walk::pattern_from_expr(
            f,
            limit,
            mid,
            Pat::Tuple(pats),
            Expr { id, kind: ExprKind::Tuple(items) },
        ) == walk::patterns_from_exprs(f, limit, mid, pats, items),
        walk::patterns_from_exprs(f, limit, s, List::Nil, List::Nil) == done(s),
{
    let all_pats = List::Cons(Rc::new(pat), Rc::new(pats));
    let all = List::Cons(Rc::new(item), Rc::new(items));
    assert(all_pats@ == seq![pat] + pats@);
    assert(all@ == seq![item] + items@);
    assert(walk::patterns_from_exprs(f, limit, s, all_pats, all) == walk::patterns_from_exprs(
        f,
        limit,
        mid,
        pats,
        items,
    ));
    assert(walk::pattern_from_expr(
        f,
        limit,
        s,
        Pat::Tuple(all_pats),
        Expr { id, kind: ExprKind::Tuple(all) },
    ) == walk::patterns_from_exprs(f, limit, s, all_pats, all));
}

/// A reference in a pattern takes a reference off the expression, and parentheses change nothing; a
/// pattern that binds nothing reads nothing.
pub proof fn reference_is_taken_off(
    f: Frame,
    limit: nat,
    s: StateView,
    id: Option<NodeId>,
    mutable: bool,
    inner: Rc<Pat>,
    referent: Rc<Expr>,
    expr: Expr,
)
    ensures
        walk::pattern_from_expr(
            f,
            limit,
            s,
            Pat::Reference(inner),
            Expr { id, kind: ExprKind::Reference { mutable, expr: referent } },
        ) == walk::pattern_from_expr(f, limit, s, *inner, *referent),
        walk::pattern_from_expr(f, limit, s, Pat::Paren(inner), expr) == walk::pattern_from_expr(
            f,
            limit,
            s,
            *inner,
            expr,
        ),
        walk::pattern_from_expr(f, limit, s, Pat::Wild, expr) == done(s),
{
}

/// The patterns of a slice stand for the items of an array: as many patterns for as many items, each
/// in its place; before a `..` for the first items, and behind it for the last; too many stand for
/// none.
pub proof fn slice_patterns_stand_for_items(
    f: Frame,
    s: StateView,
    mid: StateView,
    pats: List<Pat>,
    terms: List<InferredTy>,
    common: InferredTy,
    before: List<Pat>,
    behind: List<Pat>,
)
    ensures
        walk::around_rest(pats) is None && pats@.len() == terms@.len() ==> walk::slice_termed(
            f,
            s,
            pats,
            terms,
            common,
        ) == walk::patterns_termed(f, s, pats, terms, common),
        walk::around_rest(pats) is None && pats@.len() != terms@.len() ==> walk::slice_termed(
            f,
            s,
            pats,
            terms,
            common,
        ) == done(s),
        walk::around_rest(pats) == Some((before, behind)) && before@.len() + behind@.len()
            <= terms@.len() && walk::patterns_termed(f, s, before, terms, common) == done(mid)
            ==> walk::slice_termed(f, s, pats, terms, common) == walk::patterns_termed(
            f,
            mid,
            behind,
            walk::ending(terms, behind),
            common,
        ),
        walk::around_rest(pats) == Some((before, behind)) && before@.len() + behind@.len()
            > terms@.len() ==> walk::slice_termed(f, s, pats, terms, common) == done(s),
{
}

/// Each of the patterns is bound to the term in its place, made one with what all items are.
pub proof fn patterns_are_termed_in_order(
    f: Frame,
    s: StateView,
    mid: StateView,
    pat: Pat,
    pats: List<Pat>,
    term: InferredTy,
    terms: List<InferredTy>,
    common: InferredTy,
)
    requires
        ({
            let (after, own) = state::unified(f, s, term, common);
            patterns::pattern_termed(f, after, pat, own) == done(mid)
        }),
    ensures
        walk::patterns_termed(
            f,
            s,
            List::Cons(Rc::new(pat), Rc::new(pats)),
            List::Cons(Rc::new(term), Rc::new(terms)),
            common,
        ) == walk::patterns_termed(f, mid, pats, terms, common),
{
}

// Loops and calls.

/// A loop over a range that is stepped through goes over the type of the range; the steps are read
/// first.
pub proof fn stepped_range_is_gone_over(
    f: Frame,
    limit: nat,
    s: StateView,
    mid: StateView,
    id: Option<NodeId>,
    own: Option<NodeId>,
    start: Option<Rc<Expr>>,
    end: Option<Rc<Expr>>,
    turbofish: Option<List<GenericArg>>,
    args: List<Expr>,
)
    requires
        walk::args_read(f, limit, s, args) == done(mid),
    ensures
        walk::iter_rule(
            f,
            limit,
            s,
            Expr {
                id,
                kind: ExprKind::MethodCall {
                    receiver: Rc::new(Expr { id: own, kind: ExprKind::Range { start, end } }),
                    method: names::STEP_BY,
                    turbofish,
                    args,
                },
            },
        ) == walk::range_rule(f, limit, mid, start, end),
{
    assert(names::STEP_BY != names::ITER_INDICES);
}

/// Arguments are read one after the other.
pub proof fn arguments_are_read_in_turn(
    f: Frame,
    limit: nat,
    s: StateView,
    mid: StateView,
    arg: Expr,
    rest: List<Expr>,
    ty: Option<Rc<TileType>>,
)
    requires
        walk::expr_type(f, limit, s, arg, None) == compounds::read(mid, ty),
    ensures
        walk::args_read(f, limit, s, List::Cons(Rc::new(arg), Rc::new(rest))) == walk::args_read(
            f,
            limit,
            mid,
            rest,
        ),
        walk::args_read(f, limit, s, List::Nil) == done(s),
{
}

/// The types of arguments come in the order of the arguments, and there are none where one has none.
pub proof fn argument_types_are_in_order(
    f: Frame,
    limit: nat,
    s: StateView,
    mid: StateView,
    end: StateView,
    arg: Expr,
    rest: List<Expr>,
    tile: Rc<TileType>,
    more: List<TileType>,
)
    requires
        walk::arg_types(f, limit, mid, rest) == Ok::<(StateView, List<TileType>), Stop>((end, more)),
        more@.len() == rest@.len(),
    ensures
        walk::expr_type(f, limit, s, arg, None) == compounds::read(mid, Some(tile)) ==> (
        walk::arg_types(f, limit, s, List::Cons(Rc::new(arg), Rc::new(rest))) matches Ok((last, all))
            && last == end && all@ == seq![*tile] + more@),
        walk::expr_type(f, limit, s, arg, None) == compounds::read(mid, None) ==> (walk::arg_types(
            f,
            limit,
            s,
            List::Cons(Rc::new(arg), Rc::new(rest)),
        ) matches Ok((last, all)) && last == mid && all@.len() == 0),
{
    if more is Nil {
        assert(more@.len() == 0);
        match rest {
            List::Nil => {},
            List::Cons(x, y) => {
                assert(rest@ == seq![list::held(&x)] + y@);
            },
        }
    }
}

/// A closure among the arguments of a call is read with the parameters and the result that its
/// signature gives so far.
pub proof fn closure_is_read_with_its_signature(
    f: Frame,
    limit: nat,
    s: StateView,
    mid: StateView,
    id: Option<NodeId>,
    params: List<ClosureParam>,
    body: Rc<Expr>,
    args: List<Expr>,
    param: Type,
    types: List<Type>,
    signature: ClosureSignature,
    signatures: List<Option<ClosureSignature>>,
    wanted: Set<Symbol>,
    solver: Solver,
    given: List<TileType>,
    result: Option<Rc<TileType>>,
)
    requires
        lookups::closure_types(f, limit, signature, solver) == Ok::<_, Stop>(Some((given, result))),
        walk::closure_rule(f, limit, s, params, *body, given, result) == done(mid),
    ensures
        walk::args_for_closures(
            f,
            limit,
            s,
            List::Cons(
                Rc::new(Expr { id, kind: ExprKind::Closure { params, body } }),
                Rc::new(args),
            ),
            List::Cons(Rc::new(param), Rc::new(types)),
            List::Cons(Rc::new(Some(signature)), Rc::new(signatures)),
            wanted,
            solver,
        ) == walk::args_for_closures(f, limit, mid, args, types, signatures, wanted, solver),
{
}

/// Another argument tells the solver its type, for the closures behind it, where its parameter
/// mentions a name that the closures' signatures mention.
pub proof fn argument_tells_the_closures_its_type(
    f: Frame,
    limit: nat,
    s: StateView,
    mid: StateView,
    arg: Expr,
    args: List<Expr>,
    param: Rc<Type>,
    types: List<Type>,
    signature: Option<ClosureSignature>,
    signatures: List<Option<ClosureSignature>>,
    wanted: Set<Symbol>,
    solver: Solver,
    expected: Option<Rc<TileType>>,
    ty: Rc<Type>,
)
    requires
        !(arg.kind is Closure),
        walk::expected_so_far(f, limit, *param, solver) == Ok::<Option<Rc<TileType>>, Stop>(expected),
        walk::written_type(f, limit, s, arg, expected) == Ok::<(StateView, Option<Rc<Type>>), Stop>(
            (mid, Some(ty)),
        ),
        substitute::mentions_one_of(*param, wanted),
        types::constrains(*param, *ty),
    ensures
        walk::args_for_closures(
            f,
            limit,
            s,
            List::Cons(Rc::new(arg), Rc::new(args)),
            List::Cons(param, Rc::new(types)),
            List::Cons(Rc::new(signature), Rc::new(signatures)),
            wanted,
            solver,
        ) == walk::args_for_closures(
            f,
            limit,
            mid,
            args,
            types,
            signatures,
            wanted,
            solver.after(Step::Constraint { param, arg: ty }),
        ),
{
}

/// A wrapper is read as the method call that it stands for: the method that the call means is filed
/// for it, with the call, and what the method returns is what the wrapper gives.
pub proof fn wrapper_is_read_as_its_method_call(
    f: Frame,
    limit: nat,
    s: StateView,
    one: StateView,
    two: StateView,
    three: StateView,
    item: FnItem,
    id: NodeId,
    call: Expr,
    func: Rc<Expr>,
    args: List<Expr>,
    expected: Option<Rc<TileType>>,
    types: List<TileType>,
    lowered: Rc<Expr>,
    selected: Rc<MethodSelection>,
    tile: Rc<TileType>,
)
    requires
        call.id == Some(id),
        walk::closure_args(f, limit, s, item, func, args, expected) == done(one),
        walk::call_arg_types(f, limit, one, item, func, args, expected) == Ok::<
            (StateView, List<TileType>),
            Stop,
        >((two, types)),
        ask::unwrapped(f.env, item.id, call) == Ok::<Option<Rc<Expr>>, Stop>(Some(lowered)),
        walk::method_selection(f, limit, two, *lowered) == Ok::<
            (StateView, Option<Rc<MethodSelection>>),
            Stop,
        >((three, Some(selected))),
        selected.return_type == Some(tile),
    ensures
        walk::function_call(f, limit, s, item, call, func, args, expected) matches Ok((end, ty))
            && ty == Some(tile) && results::filed(end.results.lowered, Some(id)) == Some(lowered)
            && results::filed(end.results.selections, Some(id)) == Some(selected) && end.inference
            == three.inference,
{
}

/// Where a block has no compiled type, the type that is filed for its value is filed for it too.
pub proof fn block_is_filed_as_its_value(
    f: Frame,
    limit: nat,
    s: StateView,
    mid: StateView,
    expr: Expr,
    block: Block,
    expected: Option<Rc<TileType>>,
    tile: Rc<TileType>,
)
    ensures
        walk::block_type(f, limit, s, block, expected) == compounds::read(mid, Some(tile))
            ==> walk::block_rule(f, limit, s, expr, block, expected) == compounds::read(
            mid,
            Some(tile),
        ),
        walk::block_type(f, limit, s, block, expected) == compounds::read(mid, None)
            && lookups::tail_type(mid, block) is Some && expr.id is Some ==> (walk::block_rule(
            f,
            limit,
            s,
            expr,
            block,
            expected,
        ) matches Ok((end, ty)) && ty is None && results::filed(end.results.resolved, expr.id)
            is Some),
{
}

} // verus!

//! What holds of terms that are made one: which types they have then, and what waits for them.
use crate::env::TileType;
use crate::forest;
use crate::list::{self, List};
use crate::names::Names;
use crate::scalar;
use crate::syntax::{Expr, NodeId, Symbol, Type};
use crate::types;
use crate::unify::{self, InferVar, InferVarId, InferVarKind, InferView, InferredTy};
use std::rc::Rc;
use vstd::prelude::*;

verus! {

/// Two known types agree where they are written the same, and are nothing together where not.
pub proof fn known_types_agree_or_not(names: Names, s: InferView, l: Rc<TileType>, r: Rc<TileType>)
    ensures
        *l.rust_ty == *r.rust_ty ==> unify::unified(
            names,
            s,
            InferredTy::Known(l),
            InferredTy::Known(r),
        ) == (s, InferredTy::Known(l)),
        *l.rust_ty != *r.rust_ty ==> unify::unified(
            names,
            s,
            InferredTy::Known(l),
            InferredTy::Known(r),
        ) == (s, InferredTy::Unknown),
{
}

/// What is not known says nothing of the other term.
pub proof fn unknown_says_nothing(
    names: Names,
    s: InferView,
    term: InferredTy,
    ty: Rc<TileType>,
)
    ensures
        unify::unified(names, s, InferredTy::Unknown, term) == (
            s,
            unify::normalized(s.vars, term),
        ),
        unify::unified(names, s, term, InferredTy::Unknown) == (
            s,
            unify::normalized(s.vars, term),
        ),
        unify::unified_with_known(names, s, InferredTy::Unknown, ty) == (
            s,
            InferredTy::Known(ty),
        ),
{
}

/// A variable of which no type is known takes the type that it is given, where its kind accepts it:
/// all variables of its tree are then known to be of that type.
pub proof fn variable_takes_its_type(
    names: Names,
    s: InferView,
    id: InferVarId,
    other: InferVarId,
    ty: Rc<TileType>,
)
    requires
        forest::state_wf(s),
        forest::is_var(s.vars, id),
        forest::is_var(s.vars, other),
        unify::root(s.vars, other) == unify::root(s.vars, id),
        unify::known_type(s.vars, InferredTy::Var(id)) is None,
        unify::root(s.vars, id) matches Some(top) && unify::accepts(
            names,
            s.vars[top.index as int].kind,
            *ty.rust_ty,
        ),
    ensures
        ({
            let (after, term) = unify::unified(
                names,
                s,
                InferredTy::Var(id),
                InferredTy::Known(ty),
            );
            &&& term == InferredTy::Known(ty)
            &&& unify::known_type(after.vars, InferredTy::Var(other)) == Some(ty)
            &&& after.terms == s.terms
        }),
        unify::unified(names, s, InferredTy::Known(ty), InferredTy::Var(id)) == unify::unified(
            names,
            s,
            InferredTy::Var(id),
            InferredTy::Known(ty),
        ),
{
    forest::every_variable_has_a_root(s.vars, id);
    forest::root_of_root(s.vars, id);
    let top = unify::root(s.vars, id)->0;
    let after = unify::unified(names, s, InferredTy::Var(id), InferredTy::Known(ty)).0.vars;
    assert(unify::normalized(s.vars, InferredTy::Var(id)) == InferredTy::Var(top));
    assert(s.vars[top.index as int].value is None);
    assert(after == s.vars.update(
        top.index as int,
        InferVar { value: Some(ty), origin_propagated: false, ..s.vars[top.index as int] },
    ));
    assert(forest::same_parents(s.vars, after));
    forest::parents_decide_the_forest(s.vars, after);
    assert(unify::root(after, other) == Some(top));
    assert(unify::root(after, top) == unify::root(s.vars, top));
}

/// A variable whose type is known keeps it.
pub proof fn known_variable_keeps_its_type(
    names: Names,
    s: InferView,
    id: InferVarId,
    known: Rc<TileType>,
    ty: Rc<TileType>,
)
    requires
        forest::state_wf(s),
        forest::is_var(s.vars, id),
        unify::known_type(s.vars, InferredTy::Var(id)) == Some(known),
    ensures
        unify::unified_with_known(names, s, InferredTy::Var(id), ty) == (
            s,
            InferredTy::Known(known),
        ),
{
    forest::every_variable_has_a_root(s.vars, id);
    forest::root_of_root(s.vars, id);
}

/// A variable stays as it is where its kind does not accept the type that it is given.
pub proof fn refused_type_changes_nothing(
    names: Names,
    s: InferView,
    id: InferVarId,
    ty: Rc<TileType>,
)
    requires
        forest::state_wf(s),
        forest::is_var(s.vars, id),
        unify::known_type(s.vars, InferredTy::Var(id)) is None,
        unify::root(s.vars, id) matches Some(top) && !unify::accepts(
            names,
            s.vars[top.index as int].kind,
            *ty.rust_ty,
        ),
    ensures
        unify::unified_with_known(names, s, InferredTy::Var(id), ty) == (
            s,
            InferredTy::Var(unify::root(s.vars, id)->0),
        ),
{
    forest::every_variable_has_a_root(s.vars, id);
    forest::root_of_root(s.vars, id);
}

/// A number without a suffix accepts the types of its kind, and a variable of no kind accepts all.
pub proof fn kinds_accept_their_names(names: Names, name: Symbol, ty: Type)
    ensures
        unify::accepts(names, InferVarKind::General, ty),
        unify::accepts(names, InferVarKind::Int, scalar::named_type(name)) == scalar::integer_name(
            names.text_of(name),
        ),
        unify::accepts(names, InferVarKind::Float, scalar::named_type(name)) == scalar::float_name(
            names.text_of(name),
        ),
        types::bare_name(ty) is None ==> !unify::accepts(names, InferVarKind::Int, ty)
            && !unify::accepts(names, InferVarKind::Float, ty),
{
    assert(types::bare_name(scalar::named_type(name)) == Some(name));
}

/// Two trees of variables that are made one have one root, which has the type that one of the two
/// had, and for which all wait that waited for either.
pub proof fn joined_trees_share_their_type(
    names: Names,
    s: InferView,
    l: InferVarId,
    r: InferVarId,
    ty: Rc<TileType>,
    i: int,
)
    requires
        forest::state_wf(s),
        l.index < s.vars.len(),
        r.index < s.vars.len(),
        l != r,
        s.vars[l.index as int].parent is None,
        s.vars[r.index as int].parent is None,
        s.vars[l.index as int].value == Some(ty),
        s.vars[r.index as int].value is None,
        unify::accepts(names, s.vars[r.index as int].kind, *ty.rust_ty),
        unify::merged_kind(s.vars[l.index as int].kind, s.vars[r.index as int].kind) is Some,
    ensures
        ({
            let (after, term) = unify::unified_vars(names, s, l, r);
            let (again, same) = unify::unified_vars(names, s, r, l);
            let top = after.vars[l.index as int];
            &&& term == InferredTy::Var(l)
            &&& same == InferredTy::Var(l)
            &&& top.value == Some(ty)
            &&& again.vars[l.index as int].value == Some(ty)
            &&& top.parent is None
            &&& !top.origin_propagated
            &&& after.vars[r.index as int].parent == Some(l)
            &&& again.vars[r.index as int].parent == Some(l)
            &&& top.origins@ == s.vars[l.index as int].origins@ + s.vars[r.index as int].origins@
            &&& Some(top.kind) == unify::merged_kind(
                s.vars[l.index as int].kind,
                s.vars[r.index as int].kind,
            )
            &&& 0 <= i < s.vars.len() && i != l.index && i != r.index ==> after.vars[i] == s.vars[i]
        }),
{
    assert(unify::root(s.vars, l) == Some(l));
    assert(unify::root(s.vars, r) == Some(r));
    list::joined_items_follow(s.vars[l.index as int].origins, s.vars[r.index as int].origins);
    unify::kinds_merge_in_any_order(s.vars[l.index as int].kind, s.vars[r.index as int].kind);
}

/// Two trees of different known types are not made one.
pub proof fn different_types_are_not_joined(
    names: Names,
    s: InferView,
    l: InferVarId,
    r: InferVarId,
    a: Rc<TileType>,
    b: Rc<TileType>,
)
    requires
        l.index < s.vars.len(),
        r.index < s.vars.len(),
        l != r,
        s.vars[l.index as int].parent is None,
        s.vars[r.index as int].parent is None,
        s.vars[l.index as int].value == Some(a),
        s.vars[r.index as int].value == Some(b),
        *a.rust_ty != *b.rust_ty,
    ensures
        unify::unified_vars(names, s, l, r) == (s, InferredTy::Unknown),
{
    assert(unify::root(s.vars, l) == Some(l));
    assert(unify::root(s.vars, r) == Some(r));
}

/// A term that is recorded for an expression is the one that it has, and no other expression gets
/// another.
pub proof fn recorded_term_is_found(
    s: InferView,
    id: NodeId,
    term: InferredTy,
    other: NodeId,
)
    ensures
        unify::term_of(unify::recorded(s, Some(id), term).terms, Some(id)) == Some(
            unify::normalized(s.vars, term),
        ),
        other != id ==> unify::term_of(unify::recorded(s, Some(id), term).terms, Some(other))
            == unify::term_of(s.terms, Some(other)),
        unify::recorded(s, None, term) == s,
{
}

/// A new variable is a root of its own, of its kind, without a type, and waits with the expression
/// that it was made for, whose term it is.
pub proof fn new_variable_is_its_own_root(
    s: InferView,
    kind: InferVarKind,
    id: NodeId,
    origin: Expr,
    i: int,
)
    requires
        s.vars.len() < usize::MAX,
    ensures
        ({
            let after = unify::with_var(s, kind, Some(id), Some(origin));
            let new = InferVarId { index: s.vars.len() as usize };
            &&& after.vars.len() == s.vars.len() + 1
            &&& unify::next_var(s) == InferredTy::Var(new)
            &&& after.vars[new.index as int].kind == kind
            &&& after.vars[new.index as int].parent is None
            &&& after.vars[new.index as int].value is None
            &&& !after.vars[new.index as int].origin_propagated
            &&& after.vars[new.index as int].origins@ == seq![origin]
            &&& unify::term_of(after.terms, Some(id)) == Some(InferredTy::Var(new))
            &&& 0 <= i < s.vars.len() ==> after.vars[i] == s.vars[i]
        }),
{
    let new = InferVarId { index: s.vars.len() as usize };
    let made = unify::fresh_var(kind, Some(id), Some(origin));
    let vars = s.vars.push(made);
    assert(unify::root(vars, new) == Some(new));
    assert(unify::normalized(vars, InferredTy::Var(new)) == InferredTy::Var(new));
    let end = List::<Expr>::Nil;
    assert(end@.len() == 0);
    assert(made.origins == List::Cons(Rc::new(origin), Rc::new(end)));
    assert(made.origins@ == seq![origin] + end@);
}

} // verus!

//! What holds of the forest of inference variables whatever is done to it.
use crate::env::TileType;
use crate::list;
use crate::names::Names;
use crate::syntax::{Expr, NodeId};
use crate::unify::{self, InferVar, InferVarId, InferVarKind, InferView, InferredTy};
use std::rc::Rc;
use vstd::prelude::*;

verus! {

/// Whether a root is reached from a variable in so many steps at most.
pub open spec fn reaches(vars: Seq<InferVar>, id: InferVarId, steps: nat) -> bool
    decreases steps,
{
    id.index < vars.len() && match vars[id.index as int].parent {
        None => true,
        Some(parent) => steps > 0 && reaches(vars, parent, (steps - 1) as nat),
    }
}

/// How many variables have a parent.
pub open spec fn children(vars: Seq<InferVar>) -> nat
    decreases vars.len(),
{
    if vars.len() == 0 {
        0
    } else {
        children(vars.drop_last()) + if vars.last().parent is Some {
            1nat
        } else {
            0nat
        }
    }
}

/// The forest is well formed: from every variable a root is reached in no more steps than there
/// are variables with a parent.
pub open spec fn wf(vars: Seq<InferVar>) -> bool {
    forall|id: InferVarId| id.index < vars.len() ==> #[trigger] reaches(vars, id, children(vars))
}

/// A variable that the forest has.
pub open spec fn is_var(vars: Seq<InferVar>, id: InferVarId) -> bool {
    id.index < vars.len()
}

proof fn children_are_variables(vars: Seq<InferVar>)
    ensures
        children(vars) <= vars.len(),
    decreases vars.len(),
{
    if vars.len() > 0 {
        children_are_variables(vars.drop_last());
    }
}

/// From a variable that reaches a root the search finds a root.
proof fn search_finds_root(vars: Seq<InferVar>, id: InferVarId, steps: nat, seen: nat)
    requires
        reaches(vars, id, steps),
        seen + steps <= vars.len(),
    ensures
        unify::root_from(vars, id, seen) matches Some(top) && top.index < vars.len()
            && vars[top.index as int].parent is None,
    decreases steps,
{
    if let Some(parent) = vars[id.index as int].parent {
        search_finds_root(vars, parent, (steps - 1) as nat, seen + 1);
    }
}

/// Every variable of a well-formed forest has a root.
pub proof fn every_variable_has_a_root(vars: Seq<InferVar>, id: InferVarId)
    requires
        wf(vars),
        is_var(vars, id),
    ensures
        unify::root(vars, id) matches Some(top) && is_var(vars, top)
            && vars[top.index as int].parent is None,
{
    children_are_variables(vars);
    search_finds_root(vars, id, children(vars), 0);
}

/// A root is its own root.
pub proof fn root_of_root(vars: Seq<InferVar>, id: InferVarId)
    requires
        wf(vars),
        is_var(vars, id),
    ensures
        unify::root(vars, unify::root(vars, id)->0) == unify::root(vars, id),
{
    every_variable_has_a_root(vars, id);
}

/// Normalizing a term twice is normalizing it once.
pub proof fn normalizing_twice_is_normalizing_once(vars: Seq<InferVar>, term: InferredTy)
    requires
        wf(vars),
        term matches InferredTy::Var(id) ==> is_var(vars, id),
    ensures
        unify::normalized(vars, unify::normalized(vars, term)) == unify::normalized(vars, term),
{
    if let InferredTy::Var(id) = term {
        root_of_root(vars, id);
    }
}

/// Two forests with the same parents.
pub open spec fn same_parents(a: Seq<InferVar>, b: Seq<InferVar>) -> bool {
    a.len() == b.len() && forall|i: int|
        0 <= i < a.len() ==> (#[trigger] a[i]).parent == (#[trigger] b[i]).parent
}

proof fn same_parents_same_reach(a: Seq<InferVar>, b: Seq<InferVar>, id: InferVarId, steps: nat)
    requires
        same_parents(a, b),
    ensures
        reaches(a, id, steps) == reaches(b, id, steps),
    decreases steps,
{
    if id.index < a.len() {
        assert(a[id.index as int].parent == b[id.index as int].parent);
        if let Some(parent) = a[id.index as int].parent {
            if steps > 0 {
                same_parents_same_reach(a, b, parent, (steps - 1) as nat);
            }
        }
    }
}

proof fn same_parents_same_children(a: Seq<InferVar>, b: Seq<InferVar>)
    requires
        same_parents(a, b),
    ensures
        children(a) == children(b),
    decreases a.len(),
{
    if a.len() > 0 {
        assert(same_parents(a.drop_last(), b.drop_last())) by {
            assert forall|i: int| 0 <= i < a.drop_last().len() implies (#[trigger]
            a.drop_last()[i]).parent == (#[trigger] b.drop_last()[i]).parent by {
                assert(a[i].parent == b[i].parent);
            }
        }
        same_parents_same_children(a.drop_last(), b.drop_last());
        assert(a[a.len() - 1].parent == b[b.len() - 1].parent);
    }
}

proof fn same_parents_same_root_from(a: Seq<InferVar>, b: Seq<InferVar>, id: InferVarId, seen: nat)
    requires
        same_parents(a, b),
    ensures
        unify::root_from(a, id, seen) == unify::root_from(b, id, seen),
    decreases a.len() + 1 - seen,
{
    if id.index < a.len() {
        assert(a[id.index as int].parent == b[id.index as int].parent);
        if let Some(parent) = a[id.index as int].parent {
            if seen + 1 <= a.len() {
                same_parents_same_root_from(a, b, parent, seen + 1);
            }
        }
    }
}

/// A change that touches no parent keeps the forest well formed, and every root.
pub proof fn parents_decide_the_forest(a: Seq<InferVar>, b: Seq<InferVar>)
    requires
        same_parents(a, b),
    ensures
        wf(a) == wf(b),
        forall|id: InferVarId| #[trigger] unify::root(a, id) == unify::root(b, id),
{
    same_parents_same_children(a, b);
    assert forall|id: InferVarId| #[trigger] reaches(a, id, children(a)) == reaches(
        b,
        id,
        children(b),
    ) by {
        same_parents_same_reach(a, b, id, children(a));
    }
    if wf(a) {
        assert forall|id: InferVarId| id.index < b.len() implies #[trigger] reaches(
            b,
            id,
            children(b),
        ) by {
            assert(reaches(a, id, children(a)));
        }
    }
    if wf(b) {
        assert forall|id: InferVarId| id.index < a.len() implies #[trigger] reaches(
            a,
            id,
            children(a),
        ) by {
            assert(reaches(b, id, children(b)));
        }
    }
    assert forall|id: InferVarId| #[trigger] unify::root(a, id) == unify::root(b, id) by {
        same_parents_same_root_from(a, b, id, 0);
    }
}

// A new variable.

proof fn more_variables_same_reach(
    vars: Seq<InferVar>,
    new: InferVar,
    id: InferVarId,
    steps: nat,
)
    requires
        reaches(vars, id, steps),
    ensures
        reaches(vars.push(new), id, steps),
    decreases steps,
{
    if let Some(parent) = vars[id.index as int].parent {
        more_variables_same_reach(vars, new, parent, (steps - 1) as nat);
    }
}

proof fn reach_fixes_root(
    a: Seq<InferVar>,
    b: Seq<InferVar>,
    id: InferVarId,
    steps: nat,
    i: nat,
    j: nat,
)
    requires
        reaches(a, id, steps),
        a.len() <= b.len(),
        forall|k: int| 0 <= k < a.len() ==> (#[trigger] a[k]).parent == (#[trigger] b[k]).parent,
        i + steps <= a.len(),
        j + steps <= b.len(),
    ensures
        unify::root_from(a, id, i) == unify::root_from(b, id, j),
    decreases steps,
{
    assert(a[id.index as int].parent == b[id.index as int].parent);
    if let Some(parent) = a[id.index as int].parent {
        reach_fixes_root(a, b, parent, (steps - 1) as nat, i + 1, j + 1);
    }
}

/// A new root changes the root of no variable.
pub proof fn new_variable_changes_no_root(vars: Seq<InferVar>, new: InferVar)
    requires
        wf(vars),
        new.parent is None,
    ensures
        wf(vars.push(new)),
        forall|id: InferVarId|
            is_var(vars, id) ==> #[trigger] unify::root(vars.push(new), id) == unify::root(vars, id),
{
    let after = vars.push(new);
    assert(after.drop_last() =~= vars);
    assert(children(after) == children(vars));
    children_are_variables(vars);
    assert forall|id: InferVarId| id.index < after.len() implies #[trigger] reaches(
        after,
        id,
        children(after),
    ) by {
        if id.index < vars.len() {
            assert(reaches(vars, id, children(vars)));
            more_variables_same_reach(vars, new, id, children(vars));
        }
    }
    assert forall|id: InferVarId| is_var(vars, id) implies #[trigger] unify::root(after, id)
        == unify::root(vars, id) by {
        assert(reaches(vars, id, children(vars)));
        reach_fixes_root(vars, after, id, children(vars), 0, 0);
    }
}

// A link between two roots.

/// The second forest is the first with one root put below another.
pub open spec fn links(
    a: Seq<InferVar>,
    b: Seq<InferVar>,
    top: InferVarId,
    child: InferVarId,
) -> bool {
    &&& a.len() == b.len()
    &&& is_var(a, top) && is_var(a, child) && top != child
    &&& a[top.index as int].parent is None && a[child.index as int].parent is None
    &&& b[child.index as int].parent == Some(top)
    &&& forall|i: int|
        0 <= i < a.len() && i != child.index ==> (#[trigger] a[i]).parent == (#[trigger] b[i]).parent
}

proof fn link_adds_a_child(a: Seq<InferVar>, b: Seq<InferVar>, child: int)
    requires
        a.len() == b.len(),
        0 <= child < a.len(),
        a[child].parent is None,
        b[child].parent is Some,
        forall|i: int|
            0 <= i < a.len() && i != child ==> (#[trigger] a[i]).parent == (#[trigger] b[i]).parent,
    ensures
        children(b) == children(a) + 1,
    decreases a.len(),
{
    let x = a.drop_last();
    let y = b.drop_last();
    if child == a.len() - 1 {
        assert(same_parents(x, y)) by {
            assert forall|i: int| 0 <= i < x.len() implies (#[trigger] x[i]).parent == (#[trigger]
            y[i]).parent by {
                assert(a[i].parent == b[i].parent);
            }
        }
        same_parents_same_children(x, y);
    } else {
        assert forall|i: int| 0 <= i < x.len() && i != child implies (#[trigger] x[i]).parent == (
        #[trigger] y[i]).parent by {
            assert(a[i].parent == b[i].parent);
        }
        link_adds_a_child(x, y, child);
        assert(a[a.len() - 1].parent == b[b.len() - 1].parent);
    }
}

proof fn link_lengthens_by_one(
    a: Seq<InferVar>,
    b: Seq<InferVar>,
    top: InferVarId,
    child: InferVarId,
    id: InferVarId,
    steps: nat,
)
    requires
        links(a, b, top, child),
        reaches(a, id, steps),
    ensures
        reaches(b, id, steps + 1),
    decreases steps,
{
    if id.index == child.index {
        assert(b[top.index as int].parent is None) by {
            assert(a[top.index as int].parent == b[top.index as int].parent);
        }
        assert(reaches(b, top, steps));
    } else {
        assert(a[id.index as int].parent == b[id.index as int].parent);
        if let Some(parent) = a[id.index as int].parent {
            link_lengthens_by_one(a, b, top, child, parent, (steps - 1) as nat);
        }
    }
}

proof fn link_moves_roots(
    a: Seq<InferVar>,
    b: Seq<InferVar>,
    top: InferVarId,
    child: InferVarId,
    id: InferVarId,
    steps: nat,
    seen: nat,
)
    requires
        links(a, b, top, child),
        reaches(a, id, steps),
        seen + steps + 1 <= a.len(),
    ensures
        unify::root_from(b, id, seen) == (if unify::root_from(a, id, seen) == Some(child) {
            Some(top)
        } else {
            unify::root_from(a, id, seen)
        }),
    decreases steps,
{
    if id.index == child.index {
        assert(id == child);
        assert(a[top.index as int].parent == b[top.index as int].parent);
        assert(unify::root_from(b, top, seen + 1) == Some(top));
    } else {
        assert(a[id.index as int].parent == b[id.index as int].parent);
        if let Some(parent) = a[id.index as int].parent {
            link_moves_roots(a, b, top, child, parent, (steps - 1) as nat, seen + 1);
        }
    }
}

/// Linking a root below another moves every variable of the one tree to the other, and no other
/// variable.
pub proof fn link_joins_two_trees(
    a: Seq<InferVar>,
    b: Seq<InferVar>,
    top: InferVarId,
    child: InferVarId,
)
    requires
        wf(a),
        links(a, b, top, child),
    ensures
        wf(b),
        forall|id: InferVarId|
            is_var(a, id) ==> #[trigger] unify::root(b, id) == (if unify::root(a, id) == Some(child) {
                Some(top)
            } else {
                unify::root(a, id)
            }),
{
    link_adds_a_child(a, b, child.index as int);
    children_are_variables(b);
    assert forall|id: InferVarId| id.index < b.len() implies #[trigger] reaches(
        b,
        id,
        children(b),
    ) by {
        assert(reaches(a, id, children(a)));
        link_lengthens_by_one(a, b, top, child, id, children(a));
    }
    assert forall|id: InferVarId| is_var(a, id) implies #[trigger] unify::root(b, id) == (
    if unify::root(a, id) == Some(child) {
        Some(top)
    } else {
        unify::root(a, id)
    }) by {
        assert(reaches(a, id, children(a)));
        link_moves_roots(a, b, top, child, id, children(a), 0);
    }
}

// The operations.

/// A term of the forest.
pub open spec fn is_term(vars: Seq<InferVar>, term: InferredTy) -> bool {
    term matches InferredTy::Var(id) ==> is_var(vars, id)
}

/// The state is well formed: the forest is, and every term filed is one of the forest.
pub open spec fn state_wf(s: InferView) -> bool {
    &&& wf(s.vars)
    &&& s.vars.len() <= usize::MAX
    &&& forall|id: NodeId| #[trigger] s.terms.contains_key(id) ==> is_term(s.vars, s.terms[id])
}

/// What is known of types only grows: no variable goes away, variables in one tree stay in one
/// tree, and a type that is known stays known, as the same type.
pub open spec fn grows(a: Seq<InferVar>, b: Seq<InferVar>) -> bool {
    &&& a.len() <= b.len()
    &&& forall|x: InferVarId, y: InferVarId|
        is_var(a, x) && is_var(a, y) && unify::root(a, x) == unify::root(a, y)
            ==> #[trigger] unify::root(b, x) == #[trigger] unify::root(b, y)
    &&& forall|x: InferVarId|
        is_var(a, x) ==> (unify::known_type(a, InferredTy::Var(x)) matches Some(known) ==> (
        #[trigger] unify::known_type(b, InferredTy::Var(x)) matches Some(still) && *still.rust_ty
            == *known.rust_ty))
}

/// Growth is transitive.
pub proof fn growth_is_transitive(a: Seq<InferVar>, b: Seq<InferVar>, c: Seq<InferVar>)
    requires
        grows(a, b),
        grows(b, c),
    ensures
        grows(a, c),
{
    assert forall|x: InferVarId, y: InferVarId|
        is_var(a, x) && is_var(a, y) && unify::root(a, x) == unify::root(a, y) implies #[trigger]
    unify::root(c, x) == #[trigger] unify::root(c, y) by {
        assert(unify::root(b, x) == unify::root(b, y));
    }
    assert forall|x: InferVarId| is_var(a, x) implies (unify::known_type(a, InferredTy::Var(x))
        matches Some(known) ==> (#[trigger] unify::known_type(c, InferredTy::Var(x)) matches Some(
        still,
    ) && *still.rust_ty == *known.rust_ty)) by {
        assert(is_var(b, x));
        let _ = unify::known_type(b, InferredTy::Var(x));
    }
}

/// Filing the term of an expression keeps the state well formed and loses nothing known.
pub proof fn recording_keeps_the_forest(s: InferView, id: Option<NodeId>, term: InferredTy)
    requires
        state_wf(s),
        is_term(s.vars, term),
    ensures
        state_wf(unify::recorded(s, id, term)),
        grows(s.vars, unify::recorded(s, id, term).vars),
{
    let after = unify::recorded(s, id, term);
    if let InferredTy::Var(var) = term {
        every_variable_has_a_root(s.vars, var);
        root_of_root(s.vars, var);
    }
    assert(same_parents(s.vars, after.vars));
    parents_decide_the_forest(s.vars, after.vars);
    assert forall|x: InferVarId| is_var(s.vars, x) implies (unify::known_type(
        s.vars,
        InferredTy::Var(x),
    ) matches Some(known) ==> (#[trigger] unify::known_type(after.vars, InferredTy::Var(x))
        matches Some(still) && *still.rust_ty == *known.rust_ty)) by {
        every_variable_has_a_root(s.vars, x);
        root_of_root(s.vars, x);
        assert(unify::root(after.vars, x) == unify::root(s.vars, x));
        let top = unify::root(s.vars, x)->0;
        assert(unify::root(after.vars, top) == unify::root(s.vars, top));
    }
    assert forall|n: NodeId| #[trigger] after.terms.contains_key(n) implies is_term(
        after.vars,
        after.terms[n],
    ) by {
        if id != Some(n) {
            assert(s.terms.contains_key(n));
        }
    }
}

/// Making a variable keeps the state well formed and loses nothing known.
pub proof fn new_variable_keeps_the_forest(
    s: InferView,
    kind: InferVarKind,
    id: Option<NodeId>,
    origin: Option<Expr>,
)
    requires
        state_wf(s),
        s.vars.len() < usize::MAX,
    ensures
        state_wf(unify::with_var(s, kind, id, origin)),
        grows(s.vars, unify::with_var(s, kind, id, origin).vars),
        is_term(unify::with_var(s, kind, id, origin).vars, unify::next_var(s)),
{
    let new = unify::fresh_var(kind, id, origin);
    let mid = InferView { vars: s.vars.push(new), terms: s.terms };
    new_variable_changes_no_root(s.vars, new);
    assert forall|n: NodeId| #[trigger] mid.terms.contains_key(n) implies is_term(
        mid.vars,
        mid.terms[n],
    ) by {
        assert(s.terms.contains_key(n));
    }
    assert forall|x: InferVarId| is_var(s.vars, x) implies (unify::known_type(
        s.vars,
        InferredTy::Var(x),
    ) matches Some(known) ==> (#[trigger] unify::known_type(mid.vars, InferredTy::Var(x)) matches Some(
        still,
    ) && *still.rust_ty == *known.rust_ty)) by {
        every_variable_has_a_root(s.vars, x);
        let top = unify::root(s.vars, x)->0;
        assert(unify::root(mid.vars, x) == unify::root(s.vars, x));
        assert(unify::root(mid.vars, top) == unify::root(s.vars, top));
    }
    assert(grows(s.vars, mid.vars)) by {
        assert forall|x: InferVarId, y: InferVarId|
            is_var(s.vars, x) && is_var(s.vars, y) && unify::root(s.vars, x) == unify::root(
                s.vars,
                y,
            ) implies #[trigger] unify::root(mid.vars, x) == #[trigger] unify::root(mid.vars, y) by {}
    }
    recording_keeps_the_forest(mid, id, unify::next_var(s));
    growth_is_transitive(s.vars, mid.vars, unify::with_var(s, kind, id, origin).vars);
}

/// Changing a variable keeps the state well formed and loses nothing known, where its parent stays
/// and its type stays what it is known to be.
pub proof fn value_change_keeps_the_forest(s: InferView, top: InferVarId, new: InferVar)
    requires
        state_wf(s),
        is_var(s.vars, top),
        new.parent == s.vars[top.index as int].parent,
        s.vars[top.index as int].value matches Some(known) ==> (new.value matches Some(still)
            && *still.rust_ty == *known.rust_ty),
    ensures
        state_wf(InferView { vars: s.vars.update(top.index as int, new), terms: s.terms }),
        grows(s.vars, s.vars.update(top.index as int, new)),
{
    let after = s.vars.update(top.index as int, new);
    assert(same_parents(s.vars, after));
    parents_decide_the_forest(s.vars, after);
    assert forall|x: InferVarId| is_var(s.vars, x) implies (unify::known_type(
        s.vars,
        InferredTy::Var(x),
    ) matches Some(known) ==> (#[trigger] unify::known_type(after, InferredTy::Var(x)) matches Some(
        still,
    ) && *still.rust_ty == *known.rust_ty)) by {
        every_variable_has_a_root(s.vars, x);
        root_of_root(s.vars, x);
        let at = unify::root(s.vars, x)->0;
        assert(unify::root(after, x) == unify::root(s.vars, x));
        assert(unify::root(after, at) == unify::root(s.vars, at));
    }
    let t = InferView { vars: after, terms: s.terms };
    assert forall|n: NodeId| #[trigger] t.terms.contains_key(n) implies is_term(
        t.vars,
        t.terms[n],
    ) by {
        assert(s.terms.contains_key(n));
    }
}

/// Giving a term a type keeps the state well formed and loses nothing known.
pub proof fn known_type_keeps_the_forest(
    names: Names,
    s: InferView,
    term: InferredTy,
    expected: Rc<TileType>,
)
    requires
        state_wf(s),
        is_term(s.vars, term),
    ensures
        state_wf(unify::unified_with_known(names, s, term, expected).0),
        grows(s.vars, unify::unified_with_known(names, s, term, expected).0.vars),
        is_term(
            unify::unified_with_known(names, s, term, expected).0.vars,
            unify::unified_with_known(names, s, term, expected).1,
        ),
{
    growth_is_reflexive(s.vars);
    if let InferredTy::Var(id) = term {
        every_variable_has_a_root(s.vars, id);
        root_of_root(s.vars, id);
        let top = unify::root(s.vars, id)->0;
        let var = s.vars[top.index as int];
        if var.value is None && unify::accepts(names, var.kind, list::held(&expected.rust_ty)) {
            let new = InferVar { value: Some(expected), origin_propagated: false, ..var };
            value_change_keeps_the_forest(s, top, new);
        }
    }
}

/// Nothing is lost where nothing is done.
pub proof fn growth_is_reflexive(vars: Seq<InferVar>)
    ensures
        grows(vars, vars),
{
}

/// Joining two variables keeps the state well formed and loses nothing known; where it does not
/// fail, the two have one root from then on, which is the result.
pub proof fn joining_keeps_the_forest(names: Names, s: InferView, lhs: InferVarId, rhs: InferVarId)
    requires
        state_wf(s),
        is_var(s.vars, lhs),
        is_var(s.vars, rhs),
    ensures
        state_wf(unify::unified_vars(names, s, lhs, rhs).0),
        grows(s.vars, unify::unified_vars(names, s, lhs, rhs).0.vars),
        is_term(
            unify::unified_vars(names, s, lhs, rhs).0.vars,
            unify::unified_vars(names, s, lhs, rhs).1,
        ),
        match unify::unified_vars(names, s, lhs, rhs).1 {
            InferredTy::Var(top) => unify::root(
                unify::unified_vars(names, s, lhs, rhs).0.vars,
                lhs,
            ) == Some(top) && unify::root(unify::unified_vars(names, s, lhs, rhs).0.vars, rhs)
                == Some(top),
            InferredTy::Unknown => unify::unified_vars(names, s, lhs, rhs).0 == s,
            InferredTy::Known(_) => false,
        },
{
    every_variable_has_a_root(s.vars, lhs);
    every_variable_has_a_root(s.vars, rhs);
    growth_is_reflexive(s.vars);
    let l = unify::root(s.vars, lhs)->0;
    let r = unify::root(s.vars, rhs)->0;
    if l != r {
        let lv = s.vars[l.index as int];
        let rv = s.vars[r.index as int];
        let value = unify::joined_value(names, lv, rv);
        let kind = unify::merged_kind(lv.kind, rv.kind);
        if value is Some && kind is Some {
            let (top, child) = if unify::left_stays_root(lv, rv, l, r) {
                (l, r)
            } else {
                (r, l)
            };
            let after = unify::linked(s.vars, top, child, kind->0, value->0);
            assert(l.index != r.index);
            assert(links(s.vars, after, top, child));
            link_joins_two_trees(s.vars, after, top, child);
            assert forall|x: InferVarId, y: InferVarId|
                is_var(s.vars, x) && is_var(s.vars, y) && unify::root(s.vars, x) == unify::root(
                    s.vars,
                    y,
                ) implies #[trigger] unify::root(after, x) == #[trigger] unify::root(after, y) by {}
            assert forall|x: InferVarId| is_var(s.vars, x) implies (unify::known_type(
                s.vars,
                InferredTy::Var(x),
            ) matches Some(known) ==> (#[trigger] unify::known_type(after, InferredTy::Var(x))
                matches Some(still) && *still.rust_ty == *known.rust_ty)) by {
                every_variable_has_a_root(s.vars, x);
                root_of_root(s.vars, x);
                let at = unify::root(s.vars, x)->0;
                assert(unify::root(after, x) == (if at == child {
                    Some(top)
                } else {
                    Some(at)
                }));
                every_variable_has_a_root(after, x);
                root_of_root(after, x);
            }
            let t = InferView { vars: after, terms: s.terms };
            assert forall|n: NodeId| #[trigger] t.terms.contains_key(n) implies is_term(
                t.vars,
                t.terms[n],
            ) by {
                assert(s.terms.contains_key(n));
            }
        }
    }
}

/// Making two terms one keeps the state well formed and loses nothing known.
pub proof fn unifying_keeps_the_forest(names: Names, s: InferView, lhs: InferredTy, rhs: InferredTy)
    requires
        state_wf(s),
        is_term(s.vars, lhs),
        is_term(s.vars, rhs),
    ensures
        state_wf(unify::unified(names, s, lhs, rhs).0),
        grows(s.vars, unify::unified(names, s, lhs, rhs).0.vars),
        is_term(
            unify::unified(names, s, lhs, rhs).0.vars,
            unify::unified(names, s, lhs, rhs).1,
        ),
{
    growth_is_reflexive(s.vars);
    let l = unify::normalized(s.vars, lhs);
    let r = unify::normalized(s.vars, rhs);
    if let InferredTy::Var(id) = lhs {
        every_variable_has_a_root(s.vars, id);
    }
    if let InferredTy::Var(id) = rhs {
        every_variable_has_a_root(s.vars, id);
    }
    match (l, r) {
        (InferredTy::Known(known), InferredTy::Var(_)) => known_type_keeps_the_forest(
            names,
            s,
            r,
            known,
        ),
        (InferredTy::Var(_), InferredTy::Known(known)) => known_type_keeps_the_forest(
            names,
            s,
            l,
            known,
        ),
        (InferredTy::Var(x), InferredTy::Var(y)) => joining_keeps_the_forest(names, s, x, y),
        _ => {},
    }
}

/// A variable that a type was given to is known to be of that type, or of the one it was known to
/// be of before.
pub proof fn known_type_is_found_again(
    names: Names,
    s: InferView,
    id: InferVarId,
    expected: Rc<TileType>,
)
    requires
        state_wf(s),
        is_var(s.vars, id),
    ensures
        unify::unified_with_known(names, s, InferredTy::Var(id), expected).1 matches InferredTy::Known(
            ty,
        ) ==> unify::known_type(
            unify::unified_with_known(names, s, InferredTy::Var(id), expected).0.vars,
            InferredTy::Var(id),
        ) == Some(ty),
{
    every_variable_has_a_root(s.vars, id);
    root_of_root(s.vars, id);
    let top = unify::root(s.vars, id)->0;
    let after = unify::unified_with_known(names, s, InferredTy::Var(id), expected).0.vars;
    assert(same_parents(s.vars, after));
    parents_decide_the_forest(s.vars, after);
    assert(unify::root(after, id) == Some(top));
    assert(unify::root(after, top) == unify::root(s.vars, top));
}

} // verus!

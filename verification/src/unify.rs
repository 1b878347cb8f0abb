//! Inference variables: a union-find forest whose roots hold what is known of a type.
use crate::env::TileType;
use crate::list::{self, share, share_opt, List};
use crate::names::Names;
use crate::scalar::{self, is_float_scalar_name, is_integer_scalar_name};
use crate::syntax::{Expr, NodeId, Type};
use crate::syntax_eq::type_eq;
use crate::types::{self, scalar_type_name};
use std::collections::HashMap;
use std::rc::Rc;
use vstd::prelude::*;

verus! {

#[derive(Clone, Copy, Debug, PartialEq, Eq, Structural)]
pub struct InferVarId {
    pub index: usize,
}

#[derive(Clone, Copy, Debug, PartialEq, Eq, Structural)]
pub enum InferVarKind {
    /// Any type.
    General,
    /// An integer type.
    Int,
    /// A floating-point type.
    Float,
}

/// What is known of a type.
pub enum InferredTy {
    Known(Rc<TileType>),
    Var(InferVarId),
    Unknown,
}

/// What a branch of a conditional gives.
pub enum BranchTerm {
    Value(InferredTy),
    Diverges,
    Unknown,
}

pub struct InferVar {
    pub kind: InferVarKind,
    pub parent: Option<InferVarId>,
    pub value: Option<Rc<TileType>>,
    /// The expressions of this type.
    pub expr_ids: List<NodeId>,
    /// The expressions to be read again once the type is known.
    pub origins: List<Expr>,
    pub origin_propagated: bool,
}

impl InferredTy {
    pub fn dup(&self) -> (r: InferredTy)
        ensures
            r == *self,
    {
        match self {
            InferredTy::Known(ty) => InferredTy::Known(share(ty)),
            InferredTy::Var(id) => InferredTy::Var(*id),
            InferredTy::Unknown => InferredTy::Unknown,
        }
    }
}

impl Clone for InferredTy {
    fn clone(&self) -> (r: Self)
        ensures
            r == *self,
    {
        self.dup()
    }
}

impl InferVar {
    pub fn dup(&self) -> (r: InferVar)
        ensures
            r == *self,
    {
        InferVar {
            kind: self.kind,
            parent: self.parent,
            value: share_opt(&self.value),
            expr_ids: self.expr_ids.dup(),
            origins: self.origins.dup(),
            origin_propagated: self.origin_propagated,
        }
    }
}

impl Clone for InferVar {
    fn clone(&self) -> (r: Self)
        ensures
            r == *self,
    {
        self.dup()
    }
}

/// A branch that gives a term.
pub open spec fn branch_of(term: InferredTy) -> BranchTerm {
    match term {
        InferredTy::Unknown => BranchTerm::Unknown,
        _ => BranchTerm::Value(term),
    }
}

impl BranchTerm {
    pub fn from_term(term: InferredTy) -> (r: BranchTerm)
        ensures
            r == branch_of(term),
    {
        match term {
            InferredTy::Unknown => BranchTerm::Unknown,
            term => BranchTerm::Value(term),
        }
    }
}

// Kinds.

/// The kind of a variable that is both of one kind and of another, where there is one.
pub open spec fn merged_kind(lhs: InferVarKind, rhs: InferVarKind) -> Option<InferVarKind> {
    if lhs is General {
        Some(rhs)
    } else if rhs is General || lhs == rhs {
        Some(lhs)
    } else {
        None
    }
}

pub fn merge_infer_var_kinds(lhs: InferVarKind, rhs: InferVarKind) -> (r: Option<InferVarKind>)
    ensures
        r == merged_kind(lhs, rhs),
{
    match (lhs, rhs) {
        (InferVarKind::General, kind) => Some(kind),
        (kind, InferVarKind::General) => Some(kind),
        (lhs, rhs) => {
            if lhs == rhs {
                Some(lhs)
            } else {
                None
            }
        },
    }
}

/// Merging kinds does not depend on their order.
pub proof fn kinds_merge_in_any_order(a: InferVarKind, b: InferVarKind)
    ensures
        merged_kind(a, b) == merged_kind(b, a),
        merged_kind(a, a) == Some(a),
        merged_kind(InferVarKind::General, a) == Some(a),
{
}

/// Three kinds merge to the same, whichever two are merged first.
pub proof fn kinds_merge_in_any_grouping(a: InferVarKind, b: InferVarKind, c: InferVarKind)
    ensures
        (match merged_kind(a, b) {
            Some(ab) => merged_kind(ab, c),
            None => None,
        }) == (match merged_kind(b, c) {
            Some(bc) => merged_kind(a, bc),
            None => None,
        }),
{
}

/// Whether a variable of a kind can be of a type.
pub open spec fn accepts(names: Names, kind: InferVarKind, ty: Type) -> bool {
    match kind {
        InferVarKind::General => true,
        InferVarKind::Int => match types::bare_name(ty) {
            Some(name) => scalar::integer_name(names.text_of(name)),
            None => false,
        },
        InferVarKind::Float => match types::bare_name(ty) {
            Some(name) => scalar::float_name(names.text_of(name)),
            None => false,
        },
    }
}

pub fn literal_kind_accepts_type(names: &Names, kind: InferVarKind, ty: &Type) -> (r: bool)
    ensures
        r == accepts(*names, kind, *ty),
{
    match kind {
        InferVarKind::General => true,
        InferVarKind::Int => match scalar_type_name(ty) {
            Some(name) => is_integer_scalar_name(names.text(name)),
            None => false,
        },
        InferVarKind::Float => match scalar_type_name(ty) {
            Some(name) => is_float_scalar_name(names.text(name)),
            None => false,
        },
    }
}

/// A type that a merged kind accepts is accepted by both kinds.
pub proof fn merged_kind_accepts_no_more(
    names: Names,
    lhs: InferVarKind,
    rhs: InferVarKind,
    ty: Type,
)
    requires
        merged_kind(lhs, rhs) is Some,
    ensures
        accepts(names, merged_kind(lhs, rhs)->0, ty) <==> accepts(names, lhs, ty) && accepts(
            names,
            rhs,
            ty,
        ),
{
}

// The forest.

/// All variables, and the terms of expressions by their numbers.
pub struct InferView {
    pub vars: Seq<InferVar>,
    pub terms: Map<NodeId, InferredTy>,
}

pub struct InferenceState {
    pub vars: Vec<InferVar>,
    pub expr_terms: HashMap<NodeId, InferredTy>,
}

impl View for InferenceState {
    type V = InferView;

    open spec fn view(&self) -> InferView {
        InferView { vars: self.vars@, terms: self.expr_terms@ }
    }
}

/// The root of a variable's tree, when so many steps are taken already; none where there are more
/// steps than variables.
pub open spec fn root_from(vars: Seq<InferVar>, id: InferVarId, seen: nat) -> Option<InferVarId>
    decreases vars.len() + 1 - seen,
{
    if id.index >= vars.len() {
        None
    } else {
        match vars[id.index as int].parent {
            None => Some(id),
            Some(parent) => if seen + 1 > vars.len() {
                None
            } else {
                root_from(vars, parent, seen + 1)
            },
        }
    }
}

/// The root of a variable's tree.
pub open spec fn root(vars: Seq<InferVar>, id: InferVarId) -> Option<InferVarId> {
    root_from(vars, id, 0)
}

/// The term with a variable replaced by its root.
pub open spec fn normalized(vars: Seq<InferVar>, term: InferredTy) -> InferredTy {
    match term {
        InferredTy::Var(id) => match root(vars, id) {
            Some(id) => InferredTy::Var(id),
            None => InferredTy::Unknown,
        },
        _ => term,
    }
}

/// The type that a term is known to be.
pub open spec fn known_type(vars: Seq<InferVar>, term: InferredTy) -> Option<Rc<TileType>> {
    match normalized(vars, term) {
        InferredTy::Known(ty) => Some(ty),
        InferredTy::Var(id) => match root(vars, id) {
            Some(id) => vars[id.index as int].value,
            None => None,
        },
        InferredTy::Unknown => None,
    }
}

/// Whether a number is in a list.
pub open spec fn has_id(ids: List<NodeId>, id: NodeId) -> bool
    decreases ids,
{
    match ids {
        List::Nil => false,
        List::Cons(head, rest) => *head == id || has_id(*rest, id),
    }
}

fn contains_id(ids: &List<NodeId>, id: NodeId) -> (r: bool)
    ensures
        r == has_id(*ids, id),
    decreases ids,
{
    match ids {
        List::Nil => false,
        List::Cons(head, rest) => **head == id || contains_id(rest, id),
    }
}

/// The list with a number that it did not have at its end.
pub open spec fn with_id(ids: List<NodeId>, id: NodeId) -> List<NodeId> {
    if has_id(ids, id) {
        ids
    } else {
        ids.pushed(id)
    }
}

pub open spec fn with_ids(ids: List<NodeId>, more: List<NodeId>) -> List<NodeId>
    decreases more,
{
    match more {
        List::Nil => ids,
        List::Cons(id, rest) => with_ids(with_id(ids, *id), *rest),
    }
}

fn add_id(ids: &List<NodeId>, id: NodeId) -> (r: List<NodeId>)
    ensures
        r == with_id(*ids, id),
{
    if contains_id(ids, id) {
        ids.dup()
    } else {
        ids.push(Rc::new(id))
    }
}

fn add_ids(ids: List<NodeId>, more: &List<NodeId>) -> (r: List<NodeId>)
    ensures
        r == with_ids(ids, *more),
    decreases more,
{
    match more {
        List::Nil => ids,
        List::Cons(id, rest) => add_ids(add_id(&ids, **id), rest),
    }
}

/// The state in which an expression has a term.
pub open spec fn recorded(s: InferView, id: Option<NodeId>, term: InferredTy) -> InferView {
    match id {
        None => s,
        Some(id) => {
            let term = normalized(s.vars, term);
            let terms = s.terms.insert(id, term);
            match term {
                InferredTy::Var(var) => match root(s.vars, var) {
                    Some(var) => {
                        let old = s.vars[var.index as int];
                        let new = InferVar { expr_ids: with_id(old.expr_ids, id), ..old };
                        InferView { vars: s.vars.update(var.index as int, new), terms }
                    },
                    None => InferView { vars: s.vars, terms },
                },
                _ => InferView { vars: s.vars, terms },
            }
        },
    }
}

/// A list of at most one item.
pub open spec fn at_most_one<T>(item: Option<T>) -> List<T> {
    match item {
        Some(item) => List::Cons(Rc::new(item), Rc::new(List::Nil)),
        None => List::Nil,
    }
}

/// A variable of which nothing but its kind is known.
pub open spec fn fresh_var(
    kind: InferVarKind,
    id: Option<NodeId>,
    origin: Option<Expr>,
) -> InferVar {
    InferVar {
        kind,
        parent: None,
        value: None,
        expr_ids: at_most_one(id),
        origins: at_most_one(origin),
        origin_propagated: false,
    }
}

/// The state with one more variable, which is the term of the expression that it was made for.
pub open spec fn with_var(
    s: InferView,
    kind: InferVarKind,
    id: Option<NodeId>,
    origin: Option<Expr>,
) -> InferView {
    recorded(
        InferView { vars: s.vars.push(fresh_var(kind, id, origin)), terms: s.terms },
        id,
        next_var(s),
    )
}

/// The variable that is made next.
pub open spec fn next_var(s: InferView) -> InferredTy {
    InferredTy::Var(InferVarId { index: s.vars.len() as usize })
}

/// The value of the root of two joined trees: none where the two cannot be joined.
pub open spec fn joined_value(
    names: Names,
    lhs: InferVar,
    rhs: InferVar,
) -> Option<Option<Rc<TileType>>> {
    match (lhs.value, rhs.value) {
        (Some(l), Some(r)) => if *l.rust_ty == *r.rust_ty {
            Some(Some(l))
        } else {
            None
        },
        (Some(l), None) => if accepts(names, rhs.kind, *l.rust_ty) {
            Some(Some(l))
        } else {
            None
        },
        (None, Some(r)) => if accepts(names, lhs.kind, *r.rust_ty) {
            Some(Some(r))
        } else {
            None
        },
        (None, None) => Some(None),
    }
}

/// Whether the left root stays a root: it alone has a value, or it is the older one and not the
/// right one alone has a value.
pub open spec fn left_stays_root(
    lhs: InferVar,
    rhs: InferVar,
    l: InferVarId,
    r: InferVarId,
) -> bool {
    if lhs.value is Some && rhs.value is None {
        true
    } else if rhs.value is Some && lhs.value is None {
        false
    } else {
        l.index <= r.index
    }
}

/// The forest with two roots joined.
pub open spec fn linked(
    vars: Seq<InferVar>,
    top: InferVarId,
    child: InferVarId,
    kind: InferVarKind,
    value: Option<Rc<TileType>>,
) -> Seq<InferVar> {
    let t = vars[top.index as int];
    let c = vars[child.index as int];
    vars.update(
        top.index as int,
        InferVar {
            kind,
            parent: t.parent,
            value: list::or_else(value, t.value),
            expr_ids: with_ids(t.expr_ids, c.expr_ids),
            origins: t.origins.joined(c.origins),
            origin_propagated: false,
        },
    ).update(child.index as int, InferVar { parent: Some(top), ..c })
}

/// Joins the trees of two variables: the new forest, and the root that is left.
pub open spec fn unified_vars(names: Names, s: InferView, lhs: InferVarId, rhs: InferVarId) -> (
    InferView,
    InferredTy,
) {
    match (root(s.vars, lhs), root(s.vars, rhs)) {
        (Some(l), Some(r)) => if l == r {
            (s, InferredTy::Var(l))
        } else {
            let lv = s.vars[l.index as int];
            let rv = s.vars[r.index as int];
            match (joined_value(names, lv, rv), merged_kind(lv.kind, rv.kind)) {
                (Some(value), Some(kind)) => {
                    let (top, child) = if left_stays_root(lv, rv, l, r) {
                        (l, r)
                    } else {
                        (r, l)
                    };
                    (
                        InferView { vars: linked(s.vars, top, child, kind, value), terms: s.terms },
                        InferredTy::Var(top),
                    )
                },
                _ => (s, InferredTy::Unknown),
            }
        },
        _ => (s, InferredTy::Unknown),
    }
}

/// Gives a term a type: what is known already stays.
pub open spec fn unified_with_known(
    names: Names,
    s: InferView,
    term: InferredTy,
    expected: Rc<TileType>,
) -> (InferView, InferredTy) {
    match normalized(s.vars, term) {
        InferredTy::Known(known) => (s, InferredTy::Known(known)),
        InferredTy::Unknown => (s, InferredTy::Known(expected)),
        InferredTy::Var(id) => match root(s.vars, id) {
            None => (s, InferredTy::Unknown),
            Some(top) => {
                let var = s.vars[top.index as int];
                match var.value {
                    Some(known) => (s, InferredTy::Known(known)),
                    None => if accepts(names, var.kind, *expected.rust_ty) {
                        let new = InferVar { value: Some(expected), origin_propagated: false, ..var };
                        (
                            InferView { vars: s.vars.update(top.index as int, new), terms: s.terms },
                            InferredTy::Known(expected),
                        )
                    } else {
                        (s, InferredTy::Var(id))
                    },
                }
            },
        },
    }
}

/// Makes two terms one.
pub open spec fn unified(names: Names, s: InferView, lhs: InferredTy, rhs: InferredTy) -> (
    InferView,
    InferredTy,
) {
    match (normalized(s.vars, lhs), normalized(s.vars, rhs)) {
        (InferredTy::Unknown, term) => (s, term),
        (term, InferredTy::Unknown) => (s, term),
        (InferredTy::Known(l), InferredTy::Known(r)) => if *l.rust_ty == *r.rust_ty {
            (s, InferredTy::Known(l))
        } else {
            (s, InferredTy::Unknown)
        },
        (InferredTy::Known(known), InferredTy::Var(id)) => unified_with_known(
            names,
            s,
            InferredTy::Var(id),
            known,
        ),
        (InferredTy::Var(id), InferredTy::Known(known)) => unified_with_known(
            names,
            s,
            InferredTy::Var(id),
            known,
        ),
        (InferredTy::Var(l), InferredTy::Var(r)) => unified_vars(names, s, l, r),
    }
}

impl InferenceState {
    pub fn new() -> (r: InferenceState)
        ensures
            r@.vars == Seq::<InferVar>::empty(),
            r@.terms == Map::<NodeId, InferredTy>::empty(),
    {
        InferenceState { vars: Vec::new(), expr_terms: HashMap::new() }
    }

    pub fn dup(&self) -> (r: InferenceState)
        ensures
            r@ == self@,
    {
        let vars = self.vars.clone();
        assert(vars@ =~= self.vars@);
        InferenceState { vars, expr_terms: self.expr_terms.clone() }
    }

    pub fn find_var_id(&self, id: InferVarId) -> (r: Option<InferVarId>)
        ensures
            r == root(self@.vars, id),
    {
        let mut at: InferVarId = id;
        let mut seen: usize = 0;
        loop
            invariant
                seen <= self.vars@.len(),
                root(self@.vars, id) == root_from(self@.vars, at, seen as nat),
            decreases self.vars@.len() + 1 - seen,
        {
            if at.index >= self.vars.len() {
                return None;
            }
            match self.vars[at.index].parent {
                None => {
                    return Some(at);
                },
                Some(parent) => {
                    if seen >= self.vars.len() {
                        return None;
                    }
                    at = parent;
                    seen += 1;
                },
            }
        }
    }

    pub fn normalize_term(&self, term: &InferredTy) -> (r: InferredTy)
        ensures
            r == normalized(self@.vars, *term),
    {
        match term {
            InferredTy::Var(id) => match self.find_var_id(*id) {
                Some(id) => InferredTy::Var(id),
                None => InferredTy::Unknown,
            },
            _ => term.dup(),
        }
    }

    pub fn term_known_type(&self, term: &InferredTy) -> (r: Option<Rc<TileType>>)
        ensures
            r == known_type(self@.vars, *term),
    {
        match self.normalize_term(term) {
            InferredTy::Known(ty) => Some(ty),
            InferredTy::Var(id) => match self.find_var_id(id) {
                Some(top) => {
                    proof {
                        root_is_in_range(self@.vars, id, 0);
                    }
                    share_opt(&self.vars[top.index].value)
                },
                None => None,
            },
            InferredTy::Unknown => None,
        }
    }

    /// The term of an expression.
    pub fn expr_term(&self, id: Option<NodeId>) -> (r: Option<InferredTy>)
        ensures
            r == term_of(self@.terms, id),
    {
        match id {
            Some(id) => match self.expr_terms.get(&id) {
                Some(term) => Some(term.dup()),
                None => None,
            },
            None => None,
        }
    }

    pub fn record_expr_term(&mut self, id: Option<NodeId>, term: &InferredTy)
        ensures
            final(self)@ == recorded(old(self)@, id, *term),
    {
        if let Some(id) = id {
            let term = self.normalize_term(term);
            let filed = term.dup();
            self.expr_terms.insert(id, filed);
            if let InferredTy::Var(var) = term {
                if let Some(top) = self.find_var_id(var) {
                    proof {
                        root_is_in_range(self@.vars, var, 0);
                    }
                    let old_var = self.vars[top.index].dup();
                    let expr_ids = add_id(&old_var.expr_ids, id);
                    self.vars.set(
                        top.index,
                        InferVar {
                            kind: old_var.kind,
                            parent: old_var.parent,
                            value: old_var.value,
                            expr_ids,
                            origins: old_var.origins,
                            origin_propagated: old_var.origin_propagated,
                        },
                    );
                }
            }
        }
    }

    pub fn new_infer_var(
        &mut self,
        kind: InferVarKind,
        id: Option<NodeId>,
        origin: Option<Rc<Expr>>,
    ) -> (r: InferredTy)
        ensures
            final(self)@ == with_var(
                old(self)@,
                kind,
                id,
                match origin {
                    Some(origin) => Some(*origin),
                    None => None::<Expr>,
                },
            ),
            r == next_var(old(self)@),
    {
        let term = InferredTy::Var(InferVarId { index: self.vars.len() });
        let expr_ids = match id {
            Some(id) => List::one(Rc::new(id)),
            None => List::Nil,
        };
        let origins = match origin {
            Some(origin) => List::one(origin),
            None => List::Nil,
        };
        self.vars.push(
            InferVar { kind, parent: None, value: None, expr_ids, origins, origin_propagated: false },
        );
        self.record_expr_term(id, &term);
        term
    }

    pub fn var_accepts_type(&self, names: &Names, id: InferVarId, ty: &Type) -> (r: bool)
        ensures
            r == (match root(self@.vars, id) {
                Some(top) => accepts(*names, self@.vars[top.index as int].kind, *ty),
                None => false,
            }),
    {
        match self.find_var_id(id) {
            Some(top) => {
                proof {
                    root_is_in_range(self@.vars, id, 0);
                }
                literal_kind_accepts_type(names, self.vars[top.index].kind, ty)
            },
            None => false,
        }
    }

    pub fn unify_terms(
        &mut self,
        names: &Names,
        lhs: &InferredTy,
        rhs: &InferredTy,
    ) -> (r: InferredTy)
        ensures
            (final(self)@, r) == unified(*names, old(self)@, *lhs, *rhs),
    {
        let lhs = self.normalize_term(lhs);
        let rhs = self.normalize_term(rhs);
        match (lhs, rhs) {
            (InferredTy::Unknown, term) => term,
            (term, InferredTy::Unknown) => term,
            (InferredTy::Known(l), InferredTy::Known(r)) => {
                if type_eq(&l.rust_ty, &r.rust_ty) {
                    InferredTy::Known(l)
                } else {
                    InferredTy::Unknown
                }
            },
            (InferredTy::Known(known), InferredTy::Var(id)) => {
                self.unify_with_known(names, &InferredTy::Var(id), &known)
            },
            (InferredTy::Var(id), InferredTy::Known(known)) => {
                self.unify_with_known(names, &InferredTy::Var(id), &known)
            },
            (InferredTy::Var(l), InferredTy::Var(r)) => self.unify_vars(names, l, r),
        }
    }

    pub fn unify_vars(&mut self, names: &Names, lhs: InferVarId, rhs: InferVarId) -> (r: InferredTy)
        ensures
            (final(self)@, r) == unified_vars(*names, old(self)@, lhs, rhs),
    {
        let l = match self.find_var_id(lhs) {
            Some(l) => l,
            None => return InferredTy::Unknown,
        };
        let r = match self.find_var_id(rhs) {
            Some(r) => r,
            None => return InferredTy::Unknown,
        };
        if l == r {
            return InferredTy::Var(l);
        }
        proof {
            root_is_in_range(self@.vars, lhs, 0);
            root_is_in_range(self@.vars, rhs, 0);
        }
        let lv = self.vars[l.index].dup();
        let rv = self.vars[r.index].dup();
        let value = match (&lv.value, &rv.value) {
            (Some(lt), Some(rt)) => {
                if !type_eq(&lt.rust_ty, &rt.rust_ty) {
                    return InferredTy::Unknown;
                }
                Some(share(lt))
            },
            (Some(lt), None) => {
                if !literal_kind_accepts_type(names, rv.kind, &lt.rust_ty) {
                    return InferredTy::Unknown;
                }
                Some(share(lt))
            },
            (None, Some(rt)) => {
                if !literal_kind_accepts_type(names, lv.kind, &rt.rust_ty) {
                    return InferredTy::Unknown;
                }
                Some(share(rt))
            },
            (None, None) => None,
        };
        let kind = match merge_infer_var_kinds(lv.kind, rv.kind) {
            Some(kind) => kind,
            None => return InferredTy::Unknown,
        };
        let left_stays = if lv.value.is_some() && rv.value.is_none() {
            true
        } else if rv.value.is_some() && lv.value.is_none() {
            false
        } else {
            l.index <= r.index
        };
        let (top, child, top_var, child_var) = if left_stays {
            (l, r, lv, rv)
        } else {
            (r, l, rv, lv)
        };
        let value = match value {
            Some(value) => Some(value),
            None => share_opt(&top_var.value),
        };
        let expr_ids = add_ids(top_var.expr_ids.dup(), &child_var.expr_ids);
        let origins = top_var.origins.join(&child_var.origins);
        self.vars.set(
            top.index,
            InferVar {
                kind,
                parent: top_var.parent,
                value,
                expr_ids,
                origins,
                origin_propagated: false,
            },
        );
        self.vars.set(
            child.index,
            InferVar {
                kind: child_var.kind,
                parent: Some(top),
                value: child_var.value,
                expr_ids: child_var.expr_ids,
                origins: child_var.origins,
                origin_propagated: child_var.origin_propagated,
            },
        );
        InferredTy::Var(top)
    }

    pub fn unify_with_known(
        &mut self,
        names: &Names,
        term: &InferredTy,
        expected: &Rc<TileType>,
    ) -> (r: InferredTy)
        ensures
            (final(self)@, r) == unified_with_known(*names, old(self)@, *term, *expected),
    {
        match self.normalize_term(term) {
            InferredTy::Known(known) => InferredTy::Known(known),
            InferredTy::Unknown => InferredTy::Known(share(expected)),
            InferredTy::Var(id) => match self.find_var_id(id) {
                None => InferredTy::Unknown,
                Some(top) => {
                    proof {
                        root_is_in_range(self@.vars, id, 0);
                    }
                    let var = self.vars[top.index].dup();
                    match var.value {
                        Some(known) => InferredTy::Known(known),
                        None => {
                            if literal_kind_accepts_type(names, var.kind, &expected.rust_ty) {
                                self.vars.set(
                                    top.index,
                                    InferVar {
                                        kind: var.kind,
                                        parent: var.parent,
                                        value: Some(share(expected)),
                                        expr_ids: var.expr_ids,
                                        origins: var.origins,
                                        origin_propagated: false,
                                    },
                                );
                                InferredTy::Known(share(expected))
                            } else {
                                InferredTy::Var(id)
                            }
                        },
                    }
                },
            },
        }
    }

    /// The first expression that a term's variable was made for.
    pub fn term_origin(&self, term: &InferredTy) -> (r: Option<Rc<Expr>>)
        ensures
            r == types::shared(origin_of(self@.vars, *term)),
    {
        match self.normalize_term(term) {
            InferredTy::Var(id) => {
                if id.index < self.vars.len() {
                    match &self.vars[id.index].origins {
                        List::Cons(origin, _) => Some(share(origin)),
                        List::Nil => None,
                    }
                } else {
                    None
                }
            },
            _ => None,
        }
    }
}

/// The term of an expression, where it has a number and a term.
pub open spec fn term_of(terms: Map<NodeId, InferredTy>, id: Option<NodeId>) -> Option<InferredTy> {
    match id {
        Some(id) => if terms.contains_key(id) {
            Some(terms[id])
        } else {
            None
        },
        None => None,
    }
}

/// The first expression that a term's variable was made for.
pub open spec fn origin_of(vars: Seq<InferVar>, term: InferredTy) -> Option<Expr> {
    match normalized(vars, term) {
        InferredTy::Var(id) => if id.index < vars.len() {
            match vars[id.index as int].origins {
                List::Cons(origin, _) => Some(*origin),
                List::Nil => None,
            }
        } else {
            None
        },
        _ => None,
    }
}

proof fn root_is_in_range(vars: Seq<InferVar>, id: InferVarId, seen: nat)
    ensures
        root_from(vars, id, seen) matches Some(top) ==> top.index < vars.len()
            && vars[top.index as int].parent is None,
    decreases vars.len() + 1 - seen,
{
    if id.index < vars.len() {
        if let Some(parent) = vars[id.index as int].parent {
            if seen + 1 <= vars.len() {
                root_is_in_range(vars, parent, seen + 1);
            }
        }
    }
}

} // verus!

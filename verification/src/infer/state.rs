//! The state of inference: what names stand for, what is known of types, and what was found.
use crate::env::{Env, Stop, TileType};
use crate::forest;
use crate::generics::TypeBounds;
use crate::infer::sound;
use crate::list::{self, share, List};
use crate::resolved::{self, ResolvedType};
use crate::results::{self, MethodSelection, ResultsView, TypeckResults};
use crate::syntax::{Expr, NodeId, Symbol, Type};
use crate::unify::{self, InferVarKind, InferView, InferenceState, InferredTy};
use std::collections::HashMap;
use std::rc::Rc;
use vstd::prelude::*;

verus! {

/// What stays the same while a function is read: the program around it and the bounds of its
/// generic parameters.
pub struct Frame {
    pub env: Env,
    pub bounds: Map<Symbol, List<Symbol>>,
}

/// The state of inference.
pub struct StateView {
    /// The types of names, as written.
    pub syn_vars: Map<Symbol, Rc<Type>>,
    /// The names bound as mutable.
    pub mutable_vars: Set<Symbol>,
    /// The compiled types of names.
    pub vars: Map<Symbol, Rc<TileType>>,
    /// The terms of names.
    pub local_terms: Map<Symbol, InferredTy>,
    pub inference: InferView,
    pub results: ResultsView,
}

/// What a step of inference gives: the state after it and its value, or why it stopped.
pub type Outcome<T> = Result<(StateView, T), Stop>;

/// Whether what a function returned and left behind is what it should have.
pub open spec fn agrees<T>(r: Result<T, Stop>, after: StateView, expected: Outcome<T>) -> bool {
    match expected {
        Ok((state, value)) => r == Ok::<T, Stop>(value) && after == state,
        Err(stop) => r == Err::<T, Stop>(stop),
    }
}

/// The state in which nothing is known.
pub open spec fn blank() -> StateView {
    StateView {
        syn_vars: Map::empty(),
        mutable_vars: Set::empty(),
        vars: Map::empty(),
        local_terms: Map::empty(),
        inference: InferView { vars: Seq::empty(), terms: Map::empty() },
        results: results::no_results(),
    }
}

/// The state in which a name stands for a compiled type.
pub open spec fn bound(s: StateView, name: Symbol, ty: Rc<TileType>) -> StateView {
    StateView {
        syn_vars: s.syn_vars.insert(name, ty.rust_ty),
        local_terms: s.local_terms.insert(name, InferredTy::Known(ty)),
        vars: s.vars.insert(name, ty),
        ..s
    }
}

/// The state in which a name is of a type as written.
pub open spec fn bound_as_written(s: StateView, name: Symbol, ty: Rc<Type>) -> StateView {
    StateView { syn_vars: s.syn_vars.insert(name, ty), ..s }
}

/// The state in which a name stands for a term.
pub open spec fn bound_to_term(s: StateView, name: Symbol, term: InferredTy) -> StateView {
    match unify::known_type(s.inference.vars, term) {
        Some(ty) => bound(s, name, ty),
        None => StateView { local_terms: s.local_terms.insert(name, term), ..s },
    }
}

/// The state with a name among the mutable ones, where it is mutable.
pub open spec fn marked(s: StateView, name: Symbol, mutable: bool) -> StateView {
    if mutable {
        StateView { mutable_vars: s.mutable_vars.insert(name), ..s }
    } else {
        s
    }
}

/// The state in which an expression has a term.
pub open spec fn recorded(s: StateView, id: Option<NodeId>, term: InferredTy) -> StateView {
    StateView { inference: unify::recorded(s.inference, id, term), ..s }
}

/// The state with one more variable.
pub open spec fn with_var(
    s: StateView,
    kind: InferVarKind,
    id: Option<NodeId>,
    origin: Option<Expr>,
) -> StateView {
    StateView { inference: unify::with_var(s.inference, kind, id, origin), ..s }
}

/// The expression behind a pointer, where there is one.
pub open spec fn unshared(expr: Option<Rc<Expr>>) -> Option<Expr> {
    match expr {
        Some(expr) => Some(*expr),
        None => None,
    }
}

/// The state in which two terms are one, and that term.
pub open spec fn unified(f: Frame, s: StateView, lhs: InferredTy, rhs: InferredTy) -> (
    StateView,
    InferredTy,
) {
    let (inference, term) = unify::unified(*f.env.names, s.inference, lhs, rhs);
    (StateView { inference, ..s }, term)
}

/// The state in which a term was given a type, and the term that it is then.
pub open spec fn unified_with_known(
    f: Frame,
    s: StateView,
    term: InferredTy,
    expected: Rc<TileType>,
) -> (StateView, InferredTy) {
    let (inference, term) = unify::unified_with_known(*f.env.names, s.inference, term, expected);
    (StateView { inference, ..s }, term)
}

/// The state in which the resolved form of a type is filed for an expression.
pub open spec fn filed_as(f: Frame, s: StateView, id: Option<NodeId>, ty: Type) -> StateView {
    StateView {
        results: results::with_resolved(s.results, id, resolved::resolved(*f.env.names, ty)),
        ..s
    }
}

/// The state in which a compiled type is filed for an expression.
pub open spec fn filed_tile(
    f: Frame,
    s: StateView,
    id: Option<NodeId>,
    ty: Rc<TileType>,
) -> StateView {
    StateView { results: results::with_tile(*f.env.names, s.results, id, ty), ..s }
}

/// What a name or nothing is bound to.
pub open spec fn looked_up<T>(map: Map<Symbol, T>, name: Symbol) -> Option<T> {
    if map.contains_key(name) {
        Some(map[name])
    } else {
        None
    }
}

/// The state after a block of its own: what was found and what is known of types stays, the names
/// bound inside do not.
pub open spec fn leaving(outer: StateView, inner: StateView) -> StateView {
    StateView { results: inner.results, inference: inner.inference, ..outer }
}

/// The walk over the body of a function.
pub struct TypeInferenceCx<'a> {
    pub env: &'a Env,
    pub bounds: &'a TypeBounds,
    pub syn_vars: HashMap<Symbol, Rc<Type>>,
    pub mutable_vars: HashMap<Symbol, ()>,
    pub vars: HashMap<Symbol, Rc<TileType>>,
    pub local_terms: HashMap<Symbol, InferredTy>,
    pub inference: InferenceState,
    pub results: TypeckResults,
}

impl<'a> View for TypeInferenceCx<'a> {
    type V = StateView;

    open spec fn view(&self) -> StateView {
        StateView {
            syn_vars: self.syn_vars@,
            mutable_vars: self.mutable_vars@.dom(),
            vars: self.vars@,
            local_terms: self.local_terms@,
            inference: self.inference@,
            results: self.results@,
        }
    }
}

impl<'a> TypeInferenceCx<'a> {
    /// What stays the same.
    pub open spec fn frame(self) -> Frame {
        Frame { env: *self.env, bounds: self.bounds@ }
    }

    pub fn new(env: &'a Env, bounds: &'a TypeBounds) -> (r: TypeInferenceCx<'a>)
        ensures
            r@ == blank(),
            sound::sound(r@),
            r.frame() == (Frame { env: *env, bounds: bounds@ }),
    {
        TypeInferenceCx {
            env,
            bounds,
            syn_vars: HashMap::new(),
            mutable_vars: HashMap::new(),
            vars: HashMap::new(),
            local_terms: HashMap::new(),
            inference: InferenceState::new(),
            results: TypeckResults::new(),
        }
    }

    /// A walk that starts where this one is.
    pub fn fork(&self) -> (r: TypeInferenceCx<'a>)
        ensures
            r@ == self@,
            r.frame() == self.frame(),
    {
        TypeInferenceCx {
            env: self.env,
            bounds: self.bounds,
            syn_vars: self.syn_vars.clone(),
            mutable_vars: self.mutable_vars.clone(),
            vars: self.vars.clone(),
            local_terms: self.local_terms.clone(),
            inference: self.inference.dup(),
            results: self.results.dup(),
        }
    }

    /// Goes on where another walk is.
    pub fn commit_typeck_probe(&mut self, probe: TypeInferenceCx<'a>)
        ensures
            final(self)@ == probe@,
            final(self).frame() == old(self).frame(),
    {
        self.syn_vars = probe.syn_vars;
        self.mutable_vars = probe.mutable_vars;
        self.vars = probe.vars;
        self.local_terms = probe.local_terms;
        self.inference = probe.inference;
        self.results = probe.results;
    }

    /// Takes over what a walk through a block of its own has found.
    pub fn leave(&mut self, nested: TypeInferenceCx<'a>)
        ensures
            final(self)@ == leaving(old(self)@, nested@),
            final(self).frame() == old(self).frame(),
            sound::sound(old(self)@) && sound::advances(old(self)@, nested@) ==> sound::advances(
                old(self)@,
                final(self)@,
            ),
    {
        self.results = nested.results;
        self.inference = nested.inference;
        proof {
            if sound::sound(old(self)@) && sound::advances(old(self)@, nested@) {
                sound::leaving_advances(old(self)@, nested@);
            }
        }
    }

    pub fn bind_tile_var(&mut self, name: Symbol, ty: &Rc<TileType>)
        ensures
            final(self)@ == bound(old(self)@, name, *ty),
            final(self).frame() == old(self).frame(),
            sound::sound(old(self)@) ==> sound::advances(old(self)@, final(self)@),
    {
        self.syn_vars.insert(name, share(&ty.rust_ty));
        self.local_terms.insert(name, InferredTy::Known(share(ty)));
        self.vars.insert(name, share(ty));
        proof {
            if sound::sound(old(self)@) {
                sound::binding_advances(old(self)@, self@, name, InferredTy::Known(*ty));
            }
        }
    }

    pub fn bind_syn_var(&mut self, name: Symbol, ty: &Rc<Type>)
        ensures
            final(self)@ == bound_as_written(old(self)@, name, *ty),
            final(self).frame() == old(self).frame(),
            sound::sound(old(self)@) ==> sound::advances(old(self)@, final(self)@),
    {
        self.syn_vars.insert(name, share(ty));
        proof {
            if sound::sound(old(self)@) {
                sound::same_terms_advance(old(self)@, self@);
            }
        }
    }

    pub fn bind_inferred_var(&mut self, name: Symbol, term: &InferredTy)
        ensures
            final(self)@ == bound_to_term(old(self)@, name, *term),
            final(self).frame() == old(self).frame(),
            sound::sound(old(self)@) && sound::owns(old(self)@, *term) ==> sound::advances(
                old(self)@,
                final(self)@,
            ),
    {
        match self.inference.term_known_type(term) {
            Some(ty) => self.bind_tile_var(name, &ty),
            None => {
                self.local_terms.insert(name, term.dup());
            },
        }
        proof {
            if sound::sound(old(self)@) && sound::owns(old(self)@, *term)
                && unify::known_type(old(self)@.inference.vars, *term) is None {
                sound::binding_advances(old(self)@, self@, name, *term);
            }
        }
    }

    pub fn mark_mutable(&mut self, name: Symbol, mutable: bool)
        ensures
            final(self)@ == marked(old(self)@, name, mutable),
            final(self).frame() == old(self).frame(),
            sound::sound(old(self)@) ==> sound::advances(old(self)@, final(self)@),
    {
        if mutable {
            self.mutable_vars.insert(name, ());
        }
        proof {
            if sound::sound(old(self)@) {
                sound::same_terms_advance(old(self)@, self@);
            }
        }
    }

    pub fn local_term(&self, name: Symbol) -> (r: Option<InferredTy>)
        ensures
            r == looked_up(self@.local_terms, name),
            sound::sound(self@) && r is Some ==> sound::owns(self@, r->0),
    {
        match self.local_terms.get(&name) {
            Some(term) => Some(term.dup()),
            None => None,
        }
    }

    pub fn var_type(&self, name: Symbol) -> (r: Option<Rc<TileType>>)
        ensures
            r == looked_up(self@.vars, name),
    {
        match self.vars.get(&name) {
            Some(ty) => Some(share(ty)),
            None => None,
        }
    }

    pub fn syn_var(&self, name: Symbol) -> (r: Option<Rc<Type>>)
        ensures
            r == looked_up(self@.syn_vars, name),
    {
        match self.syn_vars.get(&name) {
            Some(ty) => Some(share(ty)),
            None => None,
        }
    }

    pub fn record_expr_term(&mut self, expr: &Expr, term: &InferredTy)
        ensures
            final(self)@ == recorded(old(self)@, expr.id, *term),
            final(self).frame() == old(self).frame(),
            sound::sound(old(self)@) && sound::owns(old(self)@, *term) ==> sound::advances(
                old(self)@,
                final(self)@,
            ),
    {
        self.inference.record_expr_term(expr.id, term);
        proof {
            if sound::sound(old(self)@) && sound::owns(old(self)@, *term) {
                forest::recording_keeps_the_forest(old(self)@.inference, expr.id, *term);
                sound::growth_advances(old(self)@, self@);
            }
        }
    }

    pub fn new_infer_var(
        &mut self,
        kind: InferVarKind,
        id: Option<NodeId>,
        origin: Option<Rc<Expr>>,
    ) -> (r: InferredTy)
        ensures
            final(self)@ == with_var(old(self)@, kind, id, unshared(origin)),
            r == unify::next_var(old(self)@.inference),
            final(self).frame() == old(self).frame(),
            sound::sound(old(self)@) ==> sound::advances(old(self)@, final(self)@) && sound::owns(
                final(self)@,
                r,
            ),
    {
        let ghost made_for = unshared(origin);
        let term = self.inference.new_infer_var(kind, id, origin);
        proof {
            if sound::sound(old(self)@) {
                assert(self.inference.vars.len() == old(self)@.inference.vars.len() + 1);
                forest::new_variable_keeps_the_forest(old(self)@.inference, kind, id, made_for);
                sound::growth_advances(old(self)@, self@);
            }
        }
        term
    }

    pub fn unify_terms(&mut self, lhs: &InferredTy, rhs: &InferredTy) -> (r: InferredTy)
        ensures
            (final(self)@, r) == unified(old(self).frame(), old(self)@, *lhs, *rhs),
            final(self).frame() == old(self).frame(),
            sound::sound(old(self)@) && sound::owns(old(self)@, *lhs) && sound::owns(old(self)@, *rhs)
                ==> sound::advances(old(self)@, final(self)@) && sound::owns(final(self)@, r),
    {
        let term_left = self.inference.unify_terms(&self.env.names, lhs, rhs);
        proof {
            if sound::sound(old(self)@) && sound::owns(old(self)@, *lhs) && sound::owns(
                old(self)@,
                *rhs,
            ) {
                forest::unifying_keeps_the_forest(
                    list::held(&self.env.names),
                    old(self)@.inference,
                    *lhs,
                    *rhs,
                );
                sound::growth_advances(old(self)@, self@);
            }
        }
        term_left
    }

    pub fn unify_with_known(
        &mut self,
        term: &InferredTy,
        expected: &Rc<TileType>,
    ) -> (r: InferredTy)
        ensures
            (final(self)@, r) == unified_with_known(old(self).frame(), old(self)@, *term, *expected),
            final(self).frame() == old(self).frame(),
            sound::sound(old(self)@) && sound::owns(old(self)@, *term) ==> sound::advances(
                old(self)@,
                final(self)@,
            ) && sound::owns(final(self)@, r),
    {
        let term_left = self.inference.unify_with_known(&self.env.names, term, expected);
        proof {
            if sound::sound(old(self)@) && sound::owns(old(self)@, *term) {
                forest::known_type_keeps_the_forest(
                    list::held(&self.env.names),
                    old(self)@.inference,
                    *term,
                    *expected,
                );
                sound::growth_advances(old(self)@, self@);
            }
        }
        term_left
    }

    pub fn file_resolved(&mut self, expr: &Expr, ty: &Rc<Type>)
        ensures
            final(self)@ == filed_as(old(self).frame(), old(self)@, expr.id, **ty),
            final(self).frame() == old(self).frame(),
            sound::sound(old(self)@) ==> sound::advances(old(self)@, final(self)@),
    {
        let form = ResolvedType::from_syn_type(&self.env.names, ty);
        self.results.insert_resolved_expr_type(expr, form);
        proof {
            if sound::sound(old(self)@) {
                sound::same_terms_advance(old(self)@, self@);
            }
        }
    }

    pub fn file_tile(&mut self, expr: &Expr, ty: &Rc<TileType>)
        ensures
            final(self)@ == filed_tile(old(self).frame(), old(self)@, expr.id, *ty),
            final(self).frame() == old(self).frame(),
            sound::sound(old(self)@) ==> sound::advances(old(self)@, final(self)@),
    {
        self.results.insert_expr_type(&self.env.names, expr, share(ty));
        proof {
            if sound::sound(old(self)@) {
                sound::same_terms_advance(old(self)@, self@);
            }
        }
    }

    pub fn file_selection(&mut self, call: &Expr, selection: Rc<MethodSelection>)
        ensures
            final(self)@ == (StateView {
                results: results::with_selection(old(self)@.results, call.id, selection),
                ..old(self)@
            }),
            final(self).frame() == old(self).frame(),
            sound::sound(old(self)@) ==> sound::advances(old(self)@, final(self)@),
    {
        self.results.insert_method_selection(call, selection);
        proof {
            if sound::sound(old(self)@) {
                sound::same_terms_advance(old(self)@, self@);
            }
        }
    }

    pub fn file_lowered(
        &mut self,
        call: &Expr,
        method_call: Rc<Expr>,
        selection: Rc<MethodSelection>,
    )
        ensures
            final(self)@ == (StateView {
                results: results::with_selection(
                    results::with_lowered(old(self)@.results, call.id, method_call),
                    call.id,
                    selection,
                ),
                ..old(self)@
            }),
            final(self).frame() == old(self).frame(),
            sound::sound(old(self)@) ==> sound::advances(old(self)@, final(self)@),
    {
        self.results.insert_lowered_method_call(call, method_call);
        self.results.insert_method_selection_for_expr(call, selection);
        proof {
            if sound::sound(old(self)@) {
                sound::same_terms_advance(old(self)@, self@);
            }
        }
    }

    pub fn expr_term(&self, expr: &Expr) -> (r: Option<InferredTy>)
        ensures
            r == unify::term_of(self@.inference.terms, expr.id),
            sound::sound(self@) && r is Some ==> sound::owns(self@, r->0),
    {
        self.inference.expr_term(expr.id)
    }
}

} // verus!

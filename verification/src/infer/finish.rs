//! The end of inference: types found late reach what they were waited for, literals get their
//! default types, and the types of all expressions are filed.
use crate::ask::{self, compile, compile_if_any};
use crate::env::{Env, Stop, TileType};
use crate::forest;
use crate::generics::{self, generic_type_bounds, merge_generic_type_bounds, TypeBounds};
use crate::infer::sound;
use crate::infer::state::{self, Frame, Outcome, StateView, TypeInferenceCx};
use crate::infer::walk;
use crate::list::{self, share, List};
use crate::names::{self, Names};
use crate::resolved;
use crate::results::{self, ResultsView, TypeckResults};
use crate::scalar::{self, bare_type};
use crate::syntax::{Expr, FnItem, ImplItem, NodeId, Symbol};
use crate::unify::{self, InferVar, InferVarId, InferVarKind, InferView, InferredTy};
use std::collections::HashMap;
use std::rc::Rc;
use vstd::prelude::*;

verus! {

broadcast use crate::infer::sound::group_sound;

// Expressions that wait for a type.

/// A root whose type is known, and the expressions that wait for it.
pub struct Due {
    pub id: InferVarId,
    pub origins: List<Expr>,
    pub value: Rc<TileType>,
}

/// Whether a variable is a root of a known type for which expressions still wait.
pub open spec fn is_due(var: InferVar) -> bool {
    &&& var.parent is None
    &&& !var.origin_propagated
    &&& var.value is Some
    &&& var.origins !is Nil
}

/// All that is due from a variable on.
pub open spec fn due_from(vars: Seq<InferVar>, at: nat) -> List<Due>
    decreases vars.len() - at,
{
    if at >= vars.len() {
        List::Nil
    } else if is_due(vars[at as int]) {
        List::Cons(
            Rc::new(
                Due {
                    id: InferVarId { index: at as usize },
                    origins: vars[at as int].origins,
                    value: vars[at as int].value->0,
                },
            ),
            Rc::new(due_from(vars, at + 1)),
        )
    } else {
        due_from(vars, at + 1)
    }
}

/// The state in which nothing waits for a variable any more.
pub open spec fn served(s: StateView, id: InferVarId) -> StateView {
    if id.index < s.inference.vars.len() {
        let var = s.inference.vars[id.index as int];
        let vars = s.inference.vars.update(
            id.index as int,
            InferVar { origin_propagated: true, ..var },
        );
        StateView { inference: InferView { vars, ..s.inference }, ..s }
    } else {
        s
    }
}

/// Expressions read again with the type that is expected of them.
pub open spec fn origins_read(
    f: Frame,
    limit: nat,
    s: StateView,
    origins: List<Expr>,
    value: Rc<TileType>,
) -> Outcome<()>
    decreases origins,
{
    match origins {
        List::Nil => Ok((s, ())),
        List::Cons(origin, rest) => match walk::expr_type(f, limit, s, *origin, Some(value)) {
            Err(stop) => Err(stop),
            Ok((s, _)) => origins_read(f, limit, s, *rest, value),
        },
    }
}

/// All that is due read again.
pub open spec fn due_read(f: Frame, limit: nat, s: StateView, work: List<Due>) -> Outcome<()>
    decreases work,
{
    match work {
        List::Nil => Ok((s, ())),
        List::Cons(due, rest) => match origins_read(
            f,
            limit,
            served(s, due.id),
            due.origins,
            due.value,
        ) {
            Err(stop) => Err(stop),
            Ok((s, _)) => due_read(f, limit, s, *rest),
        },
    }
}

/// What is due is read again, until nothing is.
pub open spec fn propagated(f: Frame, limit: nat, rounds: nat, s: StateView) -> Outcome<()>
    decreases rounds,
{
    let work = due_from(s.inference.vars, 0);
    if work is Nil {
        Ok((s, ()))
    } else if rounds == 0 {
        Err(Stop::LimitReached)
    } else {
        match due_read(f, limit, s, work) {
            Err(stop) => Err(stop),
            Ok((s, _)) => propagated(f, limit, (rounds - 1) as nat, s),
        }
    }
}

// Default types of literals.

/// The default type of a root of which only its kind is known.
pub open spec fn default_name(var: InferVar) -> Option<Symbol> {
    if var.parent is Some || var.value is Some {
        None
    } else {
        match var.kind {
            InferVarKind::Int => Some(names::I32),
            InferVarKind::Float => Some(names::F64),
            InferVarKind::General => None,
        }
    }
}

/// The state in which a variable has a value.
pub open spec fn with_value(s: StateView, at: nat, ty: Rc<TileType>) -> StateView {
    let var = s.inference.vars[at as int];
    let vars = s.inference.vars.update(
        at as int,
        InferVar { value: Some(ty), origin_propagated: false, ..var },
    );
    StateView { inference: InferView { vars, ..s.inference }, ..s }
}

/// Default types given to variables, from one on.
pub open spec fn defaulted(f: Frame, s: StateView, at: nat) -> Outcome<()>
    decreases s.inference.vars.len() - at,
{
    if at >= s.inference.vars.len() {
        Ok((s, ()))
    } else {
        match default_name(s.inference.vars[at as int]) {
            None => defaulted(f, s, at + 1),
            Some(name) => match ask::compiled(f.env, scalar::named_type(name)) {
                Err(stop) => Err(stop),
                Ok(None) => defaulted(f, s, at + 1),
                Ok(Some(ty)) => defaulted(f, with_value(s, at, ty), at + 1),
            },
        }
    }
}

// Filing.

/// The known types of expressions.
pub open spec fn known_tiles(s: InferView) -> Map<NodeId, Rc<TileType>> {
    Map::new(
        |id: NodeId| s.terms.contains_key(id) && unify::known_type(s.vars, s.terms[id]) is Some,
        |id: NodeId| unify::known_type(s.vars, s.terms[id])->0,
    )
}

/// Tables with the compiled types of expressions, and their resolved forms, in place of what they
/// had for these.
pub open spec fn with_tiles(
    names: Names,
    r: ResultsView,
    tiles: Map<NodeId, Rc<TileType>>,
) -> ResultsView {
    ResultsView {
        resolved: r.resolved.union_prefer_right(
            tiles.map_values(|ty: Rc<TileType>| Rc::new(resolved::resolved(names, *ty.rust_ty))),
        ),
        tiles: r.tiles.union_prefer_right(tiles),
        ..r
    }
}

/// The state with the known types of all expressions filed.
pub open spec fn written_back(f: Frame, s: StateView) -> StateView {
    StateView { results: with_tiles(*f.env.names, s.results, known_tiles(s.inference)), ..s }
}

/// The end of inference.
pub open spec fn finished(f: Frame, limit: nat, s: StateView) -> Outcome<()> {
    match propagated(f, limit, limit, s) {
        Err(stop) => Err(stop),
        Ok((s, _)) => match defaulted(f, s, 0) {
            Err(stop) => Err(stop),
            Ok((s, _)) => match propagated(f, limit, limit, s) {
                Err(stop) => Err(stop),
                Ok((s, _)) => Ok((written_back(f, s), ())),
            },
        },
    }
}

/// A variable with its default type, where it has one that compiles.
pub open spec fn with_default(f: Frame, var: InferVar) -> InferVar {
    match default_name(var) {
        None => var,
        Some(name) => match ask::compiled(f.env, scalar::named_type(name)) {
            Ok(Some(ty)) => InferVar { value: Some(ty), origin_propagated: false, ..var },
            _ => var,
        },
    }
}

/// All literals of which only their kind is known get their default type, and nothing else is
/// touched.
pub proof fn literals_get_their_default(f: Frame, s: StateView)
    requires
        defaulted(f, s, 0) is Ok,
    ensures
        defaulted(f, s, 0)->Ok_0.0 == (StateView {
            inference: InferView {
                vars: s.inference.vars.map_values(|var: InferVar| with_default(f, var)),
                ..s.inference
            },
            ..s
        }),
{
    defaults_from(f, s, 0);
    let vars = s.inference.vars;
    assert(vars.map_values(|var: InferVar| with_default(f, var)) =~= Seq::new(
        vars.len(),
        |i: int|
            if i < 0 {
                vars[i]
            } else {
                with_default(f, vars[i])
            },
    ));
}

proof fn defaults_from(f: Frame, s: StateView, at: nat)
    requires
        defaulted(f, s, at) is Ok,
    ensures
        defaulted(f, s, at)->Ok_0.0.inference.vars == Seq::new(
            s.inference.vars.len(),
            |i: int|
                if i < at {
                    s.inference.vars[i]
                } else {
                    with_default(f, s.inference.vars[i])
                },
        ),
        defaulted(f, s, at)->Ok_0.0 == (StateView {
            inference: InferView {
                vars: defaulted(f, s, at)->Ok_0.0.inference.vars,
                ..s.inference
            },
            ..s
        }),
    decreases s.inference.vars.len() - at,
{
    if at < s.inference.vars.len() {
        match default_name(s.inference.vars[at as int]) {
            None => defaults_from(f, s, at + 1),
            Some(name) => match ask::compiled(f.env, scalar::named_type(name)) {
                Ok(Some(ty)) => defaults_from(f, with_value(s, at, ty), at + 1),
                _ => defaults_from(f, s, at + 1),
            },
        }
    }
}

/// Every expression whose type is known at the end has it filed, compiled and resolved; for all
/// others the tables stay as they were.
pub proof fn known_types_are_filed(f: Frame, s: StateView, id: NodeId)
    ensures
        match unify::term_of(s.inference.terms, Some(id)) {
            Some(term) => match unify::known_type(s.inference.vars, term) {
                Some(ty) => {
                    &&& results::filed(written_back(f, s).results.tiles, Some(id)) == Some(ty)
                    &&& results::surface_type(written_back(f, s).results, Some(id)) == Some(
                        resolved::surface(resolved::resolved(*f.env.names, *ty.rust_ty)),
                    )
                },
                None => results::filed(written_back(f, s).results.tiles, Some(id))
                    == results::filed(s.results.tiles, Some(id)),
            },
            None => results::filed(written_back(f, s).results.tiles, Some(id)) == results::filed(
                s.results.tiles,
                Some(id),
            ),
        },
{
}

/// When inference has ended, no expression waits for a type that is known.
pub proof fn nothing_is_due_at_the_end(f: Frame, limit: nat, s: StateView)
    requires
        finished(f, limit, s) is Ok,
    ensures
        forall|i: int|
            0 <= i < finished(f, limit, s)->Ok_0.0.inference.vars.len() ==> !is_due(
                #[trigger] finished(f, limit, s)->Ok_0.0.inference.vars[i],
            ),
{
    if let Ok((first, _)) = propagated(f, limit, limit, s) {
        if let Ok((second, _)) = defaulted(f, first, 0) {
            propagation_leaves_nothing(f, limit, limit, second);
            let end = propagated(f, limit, limit, second)->Ok_0.0;
            assert forall|i: int| 0 <= i < end.inference.vars.len() implies !is_due(
                #[trigger] end.inference.vars[i],
            ) by {
                nothing_due(end.inference.vars, 0, i);
            }
        }
    }
}

proof fn propagation_leaves_nothing(f: Frame, limit: nat, rounds: nat, s: StateView)
    requires
        propagated(f, limit, rounds, s) is Ok,
    ensures
        due_from(propagated(f, limit, rounds, s)->Ok_0.0.inference.vars, 0) is Nil,
    decreases rounds,
{
    let work = due_from(s.inference.vars, 0);
    if work !is Nil {
        if let Ok((after, _)) = due_read(f, limit, s, work) {
            propagation_leaves_nothing(f, limit, (rounds - 1) as nat, after);
        }
    }
}

proof fn nothing_due(vars: Seq<InferVar>, at: nat, i: int)
    requires
        due_from(vars, at) is Nil,
        at <= i < vars.len(),
    ensures
        !is_due(vars[i]),
    decreases vars.len() - at,
{
    if at < i {
        nothing_due(vars, at + 1, i);
    }
}

// Functions.

/// The state at the start of a function's body, with the types of its parameters.
pub open spec fn entered(initial: Map<Symbol, Rc<TileType>>) -> StateView {
    StateView {
        syn_vars: initial.map_values(|ty: Rc<TileType>| ty.rust_ty),
        vars: initial,
        local_terms: initial.map_values(|ty: Rc<TileType>| InferredTy::Known(ty)),
        ..state::blank()
    }
}

/// What inference finds for a function or a method.
pub open spec fn inferred(
    f: Frame,
    limit: nat,
    item: FnItem,
    initial: Map<Symbol, Rc<TileType>>,
) -> Result<ResultsView, Stop> {
    match ask::compiled_if_any(f.env, *item.return_type) {
        Err(stop) => Err(stop),
        Ok(expected) => match walk::block_type(f, limit, entered(initial), item.body, expected) {
            Err(stop) => Err(stop),
            Ok((s, _)) => match finished(f, limit, s) {
                Err(stop) => Err(stop),
                Ok((s, _)) => Ok(s.results),
            },
        },
    }
}

fn collect_due(vars: &Vec<InferVar>) -> (r: List<Due>)
    ensures
        r == due_from(vars@, 0),
{
    let mut at: usize = vars.len();
    let mut work: List<Due> = List::Nil;
    while at > 0
        invariant
            at <= vars@.len(),
            work == due_from(vars@, at as nat),
        decreases at,
    {
        at -= 1;
        let var = &vars[at];
        if var.parent.is_none() && !var.origin_propagated && !var.origins.is_empty() {
            if let Some(value) = &var.value {
                let due = Due {
                    id: InferVarId { index: at },
                    origins: var.origins.dup(),
                    value: share(value),
                };
                work = List::prepend(Rc::new(due), work);
            }
        }
    }
    work
}

impl<'a> TypeInferenceCx<'a> {
    pub fn finish_inference(&mut self, limit: u64) -> (r: Result<(), Stop>)
        ensures
            state::agrees(r, final(self)@, finished(old(self).frame(), limit as nat, old(self)@)),
            final(self).frame() == old(self).frame(),
            sound::sound(old(self)@) ==> sound::advances(old(self)@, final(self)@),
    {
        self.propagate_resolved_origins(limit, limit)?;
        self.fallback_unresolved_literals()?;
        self.propagate_resolved_origins(limit, limit)?;
        self.writeback_inferred_expr_types();
        Ok(())
    }

    pub fn propagate_resolved_origins(&mut self, limit: u64, rounds: u64) -> (r: Result<(), Stop>)
        ensures
            state::agrees(
                r,
                final(self)@,
                propagated(old(self).frame(), limit as nat, rounds as nat, old(self)@),
            ),
            final(self).frame() == old(self).frame(),
            sound::sound(old(self)@) ==> sound::advances(old(self)@, final(self)@),
        decreases rounds,
    {
        let work = collect_due(&self.inference.vars);
        if work.is_empty() {
            return Ok(());
        }
        if rounds == 0 {
            return Err(Stop::LimitReached);
        }
        self.read_due(limit, &work)?;
        self.propagate_resolved_origins(limit, rounds - 1)
    }

    fn read_due(&mut self, limit: u64, work: &List<Due>) -> (r: Result<(), Stop>)
        ensures
            state::agrees(
                r,
                final(self)@,
                due_read(old(self).frame(), limit as nat, old(self)@, *work),
            ),
            final(self).frame() == old(self).frame(),
            sound::sound(old(self)@) ==> sound::advances(old(self)@, final(self)@),
        decreases work,
    {
        match work {
            List::Nil => Ok(()),
            List::Cons(due, rest) => {
                self.serve(due.id);
                self.read_origins(limit, &due.origins, &due.value)?;
                self.read_due(limit, rest)
            },
        }
    }

    fn serve(&mut self, id: InferVarId)
        ensures
            final(self)@ == served(old(self)@, id),
            final(self).frame() == old(self).frame(),
            sound::sound(old(self)@) ==> sound::advances(old(self)@, final(self)@),
    {
        if id.index < self.inference.vars.len() {
            let mut var = self.inference.vars[id.index].dup();
            var.origin_propagated = true;
            self.inference.vars.set(id.index, var);
            proof {
                if sound::sound(old(self)@) {
                    forest::value_change_keeps_the_forest(old(self)@.inference, id, var);
                    sound::growth_advances(old(self)@, self@);
                }
            }
        }
    }

    fn read_origins(
        &mut self,
        limit: u64,
        origins: &List<Expr>,
        value: &Rc<TileType>,
    ) -> (r: Result<(), Stop>)
        ensures
            state::agrees(
                r,
                final(self)@,
                origins_read(old(self).frame(), limit as nat, old(self)@, *origins, *value),
            ),
            final(self).frame() == old(self).frame(),
            sound::sound(old(self)@) ==> sound::advances(old(self)@, final(self)@),
        decreases origins,
    {
        match origins {
            List::Nil => Ok(()),
            List::Cons(origin, rest) => {
                let _ = self.infer_expr(limit, origin, &Some(share(value)))?;
                self.read_origins(limit, rest, value)
            },
        }
    }

    pub fn fallback_unresolved_literals(&mut self) -> (r: Result<(), Stop>)
        ensures
            state::agrees(r, final(self)@, defaulted(old(self).frame(), old(self)@, 0)),
            final(self).frame() == old(self).frame(),
            sound::sound(old(self)@) ==> sound::advances(old(self)@, final(self)@),
    {
        let mut at: usize = 0;
        while at < self.inference.vars.len()
            invariant
                defaulted(self.frame(), self@, at as nat) == defaulted(
                    old(self).frame(),
                    old(self)@,
                    0,
                ),
                self.frame() == old(self).frame(),
                at <= self.inference.vars@.len(),
                sound::sound(old(self)@) ==> sound::advances(old(self)@, self@),
            decreases self.inference.vars@.len() - at,
        {
            let var = &self.inference.vars[at];
            let fallback = if var.parent.is_some() || var.value.is_some() {
                None
            } else {
                match var.kind {
                    InferVarKind::Int => Some(names::I32),
                    InferVarKind::Float => Some(names::F64),
                    InferVarKind::General => None,
                }
            };
            if let Some(name) = fallback {
                if let Some(ty) = compile(self.env, &bare_type(name))? {
                    let mut var = self.inference.vars[at].dup();
                    var.value = Some(ty);
                    var.origin_propagated = false;
                    let ghost before = self@;
                    self.inference.vars.set(at, var);
                    proof {
                        if sound::sound(before) {
                            forest::value_change_keeps_the_forest(
                                before.inference,
                                InferVarId { index: at },
                                var,
                            );
                            sound::growth_advances(before, self@);
                        }
                    }
                }
            }
            at += 1;
        }
        Ok(())
    }

    pub fn writeback_inferred_expr_types(&mut self)
        ensures
            final(self)@ == written_back(old(self).frame(), old(self)@),
            final(self).frame() == old(self).frame(),
            sound::sound(old(self)@) ==> sound::advances(old(self)@, final(self)@),
    {
        let terms = self.inference.expr_terms.clone();
        let ghost known = known_tiles(self@.inference);
        let ghost names = list::held(&self.env.names);
        let ghost before = self@;
        let ghost mut done: Set<NodeId> = Set::empty();
        proof {
            let start = with_tiles(names, before.results, known.restrict(done));
            assert(start.resolved =~= before.results.resolved);
            assert(start.tiles =~= before.results.tiles);
        }
        for id in iter: terms.keys()
            invariant
                terms@ == before.inference.terms,
                known == known_tiles(before.inference),
                names == *self.env.names,
                before == old(self)@,
                self.frame() == old(self).frame(),
                self@ == (StateView { results: self@.results, ..before }),
                iter.seq().unref().to_set() == terms@.dom(),
                forall|k: int| 0 <= k < iter.index() ==> done.contains(*#[trigger] iter.seq()[k]),
                forall|x: NodeId| #[trigger] done.contains(x) ==> terms@.contains_key(x),
                self@.results == with_tiles(names, before.results, known.restrict(done)),
        {
            assert(iter.seq().unref()[iter.index()] == *id);
            assert(iter.seq().unref().to_set().contains(*id));
            if let Some(term) = terms.get(id) {
                if let Some(ty) = self.inference.term_known_type(term) {
                    self.results.insert_expr_type_by_id(&self.env.names, *id, ty);
                }
            }
            proof {
                let after = with_tiles(names, before.results, known.restrict(done.insert(*id)));
                assert(self@.results.resolved =~= after.resolved);
                assert(self@.results.tiles =~= after.tiles);
                done = done.insert(*id);
            }
        }
        proof {
            assert forall|x: NodeId| terms@.contains_key(x) implies done.contains(x) by {
                assert(terms@.dom().contains(x));
            }
            assert(known.restrict(done) =~= known);
            if sound::sound(before) {
                sound::same_terms_advance(before, self@);
            }
        }
    }
}

fn enter<'a>(
    env: &'a Env,
    bounds: &'a TypeBounds,
    initial_types: &HashMap<Symbol, Rc<TileType>>,
) -> (r: TypeInferenceCx<'a>)
    ensures
        r@ == entered(initial_types@),
        r.frame() == (Frame { env: *env, bounds: bounds@ }),
{
    let mut cx = TypeInferenceCx::new(env, bounds);
    let ghost mut done: Set<Symbol> = Set::empty();
    proof {
        let start = entered(initial_types@.restrict(done));
        assert(start.syn_vars =~= cx@.syn_vars);
        assert(start.vars =~= cx@.vars);
        assert(start.local_terms =~= cx@.local_terms);
    }
    for name in iter: initial_types.keys()
        invariant
            cx.frame() == (Frame { env: *env, bounds: bounds@ }),
            iter.seq().unref().to_set() == initial_types@.dom(),
            forall|k: int| 0 <= k < iter.index() ==> done.contains(*#[trigger] iter.seq()[k]),
            forall|x: Symbol| #[trigger] done.contains(x) ==> initial_types@.contains_key(x),
            cx@ == entered(initial_types@.restrict(done)),
    {
        assert(iter.seq().unref()[iter.index()] == *name);
        assert(iter.seq().unref().to_set().contains(*name));
        if let Some(ty) = initial_types.get(name) {
            cx.bind_tile_var(*name, ty);
        }
        proof {
            let after = entered(initial_types@.restrict(done.insert(*name)));
            assert(cx@.syn_vars =~= after.syn_vars);
            assert(cx@.vars =~= after.vars);
            assert(cx@.local_terms =~= after.local_terms);
            done = done.insert(*name);
        }
    }
    proof {
        assert forall|x: Symbol| initial_types@.contains_key(x) implies done.contains(x) by {
            assert(initial_types@.dom().contains(x));
        }
        assert(initial_types@.restrict(done) =~= initial_types@);
    }
    cx
}

/// What is found, or why nothing is.
pub open spec fn found(r: Result<TypeckResults, Stop>) -> Result<ResultsView, Stop> {
    match r {
        Ok(results) => Ok(results@),
        Err(stop) => Err(stop),
    }
}

/// Finds the types in the body of a function that keeps within a limit.
pub fn infer_function_within(
    env: &Env,
    limit: u64,
    fn_item: &FnItem,
    initial_types: &HashMap<Symbol, Rc<TileType>>,
) -> (r: Result<TypeckResults, Stop>)
    ensures
        found(r) == inferred(
            Frame { env: *env, bounds: generics::all_declared(fn_item.generics) },
            limit as nat,
            *fn_item,
            initial_types@,
        ),
{
    let expected_return = compile_if_any(env, &fn_item.return_type)?;
    let bounds = generic_type_bounds(&fn_item.generics);
    let mut cx = enter(env, &bounds, initial_types);
    let _ = cx.infer_block(limit, &fn_item.body, &expected_return)?;
    cx.finish_inference(limit)?;
    Ok(cx.results)
}

/// Finds the types in the body of a method that keeps within a limit. The bounds of the `impl` block
/// hold in it too.
pub fn infer_method_within(
    env: &Env,
    limit: u64,
    impl_item: &ImplItem,
    impl_method: &FnItem,
    initial_types: &HashMap<Symbol, Rc<TileType>>,
) -> (r: Result<TypeckResults, Stop>)
    ensures
        found(r) == inferred(
            Frame {
                env: *env,
                bounds: generics::merged_bounds(
                    generics::all_declared(impl_item.generics),
                    generics::all_declared(impl_method.generics),
                ),
            },
            limit as nat,
            *impl_method,
            initial_types@,
        ),
{
    let expected_return = compile_if_any(env, &impl_method.return_type)?;
    let mut bounds = generic_type_bounds(&impl_item.generics);
    let own = generic_type_bounds(&impl_method.generics);
    merge_generic_type_bounds(&mut bounds, &own);
    let mut cx = enter(env, &bounds, initial_types);
    let _ = cx.infer_block(limit, &impl_method.body, &expected_return)?;
    cx.finish_inference(limit)?;
    Ok(cx.results)
}

/// Finds the types in the body of a function.
pub fn infer_function(
    env: &Env,
    fn_item: &FnItem,
    initial_types: &HashMap<Symbol, Rc<TileType>>,
) -> (r: Result<TypeckResults, Stop>)
    ensures
        found(r) == inferred(
            Frame { env: *env, bounds: generics::all_declared(fn_item.generics) },
            u64::MAX as nat,
            *fn_item,
            initial_types@,
        ),
{
    infer_function_within(env, u64::MAX, fn_item, initial_types)
}

/// Finds the types in the body of a method. The bounds of the `impl` block hold in it too.
pub fn infer_method(
    env: &Env,
    impl_item: &ImplItem,
    impl_method: &FnItem,
    initial_types: &HashMap<Symbol, Rc<TileType>>,
) -> (r: Result<TypeckResults, Stop>)
    ensures
        found(r) == inferred(
            Frame {
                env: *env,
                bounds: generics::merged_bounds(
                    generics::all_declared(impl_item.generics),
                    generics::all_declared(impl_method.generics),
                ),
            },
            u64::MAX as nat,
            *impl_method,
            initial_types@,
        ),
{
    infer_method_within(env, u64::MAX, impl_item, impl_method, initial_types)
}

} // verus!

//! What inference has found: the types of expressions and the methods that calls mean.
use crate::ask::{self, compile_under};
use crate::env::{Env, GenericVars, JitError, NamedParam, Stop, TileType};
use crate::list::{share, List};
use crate::names::Names;
use crate::render::{self, to_token_string, write_decimal};
use crate::resolved::{self, ResolvedType};
use crate::syntax::{Expr, FnItem, ImplItem, NodeId, Symbol, Type};
use std::collections::HashMap;
use std::rc::Rc;
use vstd::prelude::*;

verus! {

/// The method that a call means.
pub struct MethodSelection {
    pub module_name: Symbol,
    pub impl_item: Rc<ImplItem>,
    pub impl_method: Rc<FnItem>,
    pub generic_vars: Rc<GenericVars>,
    pub return_type: Option<Rc<TileType>>,
}

/// The tables of results, each by the number of an expression.
pub struct ResultsView {
    pub resolved: Map<NodeId, Rc<ResolvedType>>,
    pub tiles: Map<NodeId, Rc<TileType>>,
    pub selections: Map<NodeId, Rc<MethodSelection>>,
    pub lowered: Map<NodeId, Rc<Expr>>,
}

pub struct TypeckResults {
    resolved_expr_types: HashMap<NodeId, Rc<ResolvedType>>,
    expr_types: HashMap<NodeId, Rc<TileType>>,
    method_selections: HashMap<NodeId, Rc<MethodSelection>>,
    lowered_method_calls: HashMap<NodeId, Rc<Expr>>,
}

impl View for TypeckResults {
    type V = ResultsView;

    closed spec fn view(&self) -> ResultsView {
        ResultsView {
            resolved: self.resolved_expr_types@,
            tiles: self.expr_types@,
            selections: self.method_selections@,
            lowered: self.lowered_method_calls@,
        }
    }
}

/// No results.
pub open spec fn no_results() -> ResultsView {
    ResultsView {
        resolved: Map::empty(),
        tiles: Map::empty(),
        selections: Map::empty(),
        lowered: Map::empty(),
    }
}

/// What a table has for an expression.
pub open spec fn filed<T>(table: Map<NodeId, T>, id: Option<NodeId>) -> Option<T> {
    match id {
        Some(id) => if table.contains_key(id) {
            Some(table[id])
        } else {
            None
        },
        None => None,
    }
}

/// The results with the compiled type of an expression, and its resolved form; an expression
/// without a number changes nothing.
pub open spec fn with_tile(
    names: Names,
    r: ResultsView,
    id: Option<NodeId>,
    ty: Rc<TileType>,
) -> ResultsView {
    match id {
        Some(id) => ResultsView {
            resolved: r.resolved.insert(id, Rc::new(resolved::resolved(names, *ty.rust_ty))),
            tiles: r.tiles.insert(id, ty),
            ..r
        },
        None => r,
    }
}

/// The results with the resolved type of an expression.
pub open spec fn with_resolved(
    r: ResultsView,
    id: Option<NodeId>,
    ty: ResolvedType,
) -> ResultsView {
    match id {
        Some(id) => ResultsView { resolved: r.resolved.insert(id, Rc::new(ty)), ..r },
        None => r,
    }
}

/// The results with the method that an expression calls.
pub open spec fn with_selection(
    r: ResultsView,
    id: Option<NodeId>,
    selection: Rc<MethodSelection>,
) -> ResultsView {
    match id {
        Some(id) => ResultsView { selections: r.selections.insert(id, selection), ..r },
        None => r,
    }
}

/// The results with the method call that a call stands for.
pub open spec fn with_lowered(r: ResultsView, id: Option<NodeId>, call: Rc<Expr>) -> ResultsView {
    match id {
        Some(id) => ResultsView { lowered: r.lowered.insert(id, call), ..r },
        None => r,
    }
}

/// The type that is filed for an expression, as a type of the syntax tree.
pub open spec fn surface_type(r: ResultsView, id: Option<NodeId>) -> Option<Type> {
    match filed(r.resolved, id) {
        Some(ty) => Some(resolved::surface(*ty)),
        None => None,
    }
}

impl TypeckResults {
    pub fn new() -> (r: TypeckResults)
        ensures
            r@ == no_results(),
    {
        TypeckResults {
            resolved_expr_types: HashMap::new(),
            expr_types: HashMap::new(),
            method_selections: HashMap::new(),
            lowered_method_calls: HashMap::new(),
        }
    }

    pub fn dup(&self) -> (r: TypeckResults)
        ensures
            r@ == self@,
    {
        TypeckResults {
            resolved_expr_types: self.resolved_expr_types.clone(),
            expr_types: self.expr_types.clone(),
            method_selections: self.method_selections.clone(),
            lowered_method_calls: self.lowered_method_calls.clone(),
        }
    }

    pub fn insert_expr_type(&mut self, names: &Names, expr: &Expr, ty: Rc<TileType>)
        ensures
            final(self)@ == with_tile(*names, old(self)@, expr.id, ty),
    {
        if let Some(id) = expr.id {
            self.insert_expr_type_by_id(names, id, ty);
        }
    }

    pub(crate) fn insert_expr_type_by_id(&mut self, names: &Names, id: NodeId, ty: Rc<TileType>)
        ensures
            final(self)@ == with_tile(*names, old(self)@, Some(id), ty),
    {
        let form = ResolvedType::from_syn_type(names, &ty.rust_ty);
        self.resolved_expr_types.insert(id, Rc::new(form));
        self.expr_types.insert(id, ty);
    }

    pub fn insert_resolved_expr_type(&mut self, expr: &Expr, ty: ResolvedType)
        ensures
            final(self)@ == with_resolved(old(self)@, expr.id, ty),
    {
        if let Some(id) = expr.id {
            self.resolved_expr_types.insert(id, Rc::new(ty));
        }
    }

    pub fn expr_type(&self, expr: &Expr) -> (r: Option<Rc<TileType>>)
        ensures
            r == filed(self@.tiles, expr.id),
    {
        match expr.id {
            Some(id) => match self.expr_types.get(&id) {
                Some(ty) => Some(share(ty)),
                None => None,
            },
            None => None,
        }
    }

    pub fn resolved_expr_type(&self, expr: &Expr) -> (r: Option<Rc<ResolvedType>>)
        ensures
            r == filed(self@.resolved, expr.id),
    {
        match expr.id {
            Some(id) => match self.resolved_expr_types.get(&id) {
                Some(ty) => Some(share(ty)),
                None => None,
            },
            None => None,
        }
    }

    pub fn required_resolved_expr_type(
        &self,
        expr: &Expr,
    ) -> (r: Result<Rc<ResolvedType>, JitError>)
        ensures
            r == (match filed(self@.resolved, expr.id) {
                Some(ty) => Ok(ty),
                None => Err::<Rc<ResolvedType>, JitError>(JitError::MissingTypeckEntry),
            }),
    {
        match self.resolved_expr_type(expr) {
            Some(ty) => Ok(ty),
            None => Err(JitError::MissingTypeckEntry),
        }
    }

    pub fn syn_expr_type(&self, expr: &Expr) -> (r: Option<Rc<Type>>)
        ensures
            r == (match surface_type(self@, expr.id) {
                Some(ty) => Some(Rc::new(ty)),
                None => None::<Rc<Type>>,
            }),
    {
        match self.resolved_expr_type(expr) {
            Some(ty) => Some(ty.to_syn_type()),
            None => None,
        }
    }

    pub fn required_syn_expr_type(&self, expr: &Expr) -> (r: Result<Rc<Type>, JitError>)
        ensures
            r == (match surface_type(self@, expr.id) {
                Some(ty) => Ok(Rc::new(ty)),
                None => Err::<Rc<Type>, JitError>(JitError::MissingTypeckEntry),
            }),
    {
        match self.syn_expr_type(expr) {
            Some(ty) => Ok(ty),
            None => Err(JitError::MissingTypeckEntry),
        }
    }

    /// The compiled type of an expression: the one that is filed, or else what the type that is
    /// filed compiles to.
    pub fn required_tile_expr_type(
        &self,
        env: &Env,
        expr: &Expr,
        params: &List<NamedParam>,
    ) -> (r: Result<Rc<TileType>, Stop>)
        ensures
            r == (match filed(self@.tiles, expr.id) {
                Some(ty) => Ok(ty),
                None => match surface_type(self@, expr.id) {
                    None => Err(Stop::Failed(JitError::MissingTypeckEntry)),
                    Some(ty) => match ask::compiled_under(*env, ty, *params) {
                        Ok(Ok(Some(ty))) => Ok(ty),
                        Ok(Ok(None)) => Err(Stop::Failed(JitError::UncompilableType)),
                        Ok(Err(error)) => Err(Stop::Failed(error)),
                        Err(stop) => Err(stop),
                    },
                },
            }),
    {
        if let Some(ty) = self.expr_type(expr) {
            return Ok(ty);
        }
        let ty = match self.required_syn_expr_type(expr) {
            Ok(ty) => ty,
            Err(error) => return Err(Stop::Failed(error)),
        };
        match compile_under(env, &ty, params)? {
            Ok(Some(ty)) => Ok(ty),
            Ok(None) => Err(Stop::Failed(JitError::UncompilableType)),
            Err(error) => Err(Stop::Failed(error)),
        }
    }

    pub fn insert_method_selection(&mut self, method_call: &Expr, selection: Rc<MethodSelection>)
        ensures
            final(self)@ == with_selection(old(self)@, method_call.id, selection),
    {
        self.insert_method_selection_for_expr(method_call, selection);
    }

    pub fn insert_method_selection_for_expr(
        &mut self,
        expr: &Expr,
        selection: Rc<MethodSelection>,
    )
        ensures
            final(self)@ == with_selection(old(self)@, expr.id, selection),
    {
        if let Some(id) = expr.id {
            self.method_selections.insert(id, selection);
        }
    }

    pub fn method_selection(&self, method_call: &Expr) -> (r: Option<Rc<MethodSelection>>)
        ensures
            r == filed(self@.selections, method_call.id),
    {
        match method_call.id {
            Some(id) => match self.method_selections.get(&id) {
                Some(selection) => Some(share(selection)),
                None => None,
            },
            None => None,
        }
    }

    pub fn insert_lowered_method_call(&mut self, call: &Expr, method_call: Rc<Expr>)
        ensures
            final(self)@ == with_lowered(old(self)@, call.id, method_call),
    {
        if let Some(id) = call.id {
            self.lowered_method_calls.insert(id, method_call);
        }
    }

    pub fn lowered_method_call(&self, call: &Expr) -> (r: Option<Rc<Expr>>)
        ensures
            r == filed(self@.lowered, call.id),
    {
        match call.id {
            Some(id) => match self.lowered_method_calls.get(&id) {
                Some(method_call) => Some(share(method_call)),
                None => None,
            },
            None => None,
        }
    }
}

/// What is filed for an expression is found for it, and what is filed for another is not touched.
pub proof fn filed_types_are_found(
    names: Names,
    r: ResultsView,
    id: NodeId,
    ty: Rc<TileType>,
    other: Option<NodeId>,
)
    ensures
        filed(with_tile(names, r, Some(id), ty).tiles, Some(id)) == Some(ty),
        surface_type(with_tile(names, r, Some(id), ty), Some(id)) == Some(
            resolved::surface(resolved::resolved(names, *ty.rust_ty)),
        ),
        other != Some(id) ==> filed(with_tile(names, r, Some(id), ty).tiles, other) == filed(
            r.tiles,
            other,
        ),
{
}

// The dump.

/// Numbers in ascending order, none of them twice.
pub open spec fn ascending(ids: Seq<NodeId>) -> bool {
    forall|i: int, j: int| 0 <= i < j < ids.len() ==> #[trigger] ids[i] < #[trigger] ids[j]
}

/// Puts a number where it belongs, unless it is there.
fn insert_sorted(ids: &mut Vec<NodeId>, id: NodeId)
    requires
        ascending(old(ids)@),
    ensures
        ascending(final(ids)@),
        forall|x: NodeId| #[trigger]
            final(ids)@.contains(x) <==> old(ids)@.contains(x) || x == id,
{
    let mut at: usize = 0;
    while at < ids.len() && ids[at] < id
        invariant
            at <= ids@.len(),
            *ids == *old(ids),
            ascending(ids@),
            forall|j: int| 0 <= j < at ==> #[trigger] ids@[j] < id,
        decreases ids@.len() - at,
    {
        at += 1;
    }
    if at < ids.len() && ids[at] == id {
        assert(ids@.contains(id)) by {
            assert(ids@[at as int] == id);
        }
        return ;
    }
    ids.insert(at, id);
    proof {
        let before = old(ids)@;
        let after = ids@;
        assert(after == before.insert(at as int, id));
        assert forall|x: NodeId| #[trigger] after.contains(x) <==> before.contains(x) || x == id by {
            if before.contains(x) {
                let k = before.index_of(x);
                assert(before[k] == x);
                if k < at {
                    assert(after[k] == x);
                } else {
                    assert(after[k + 1] == x);
                }
            }
            if x == id {
                assert(after[at as int] == id);
            }
            if after.contains(x) {
                let k = after.index_of(x);
                assert(after[k] == x);
                if k < at {
                    assert(before[k] == x);
                } else if k > at {
                    assert(before[k - 1] == x);
                }
            }
        }
        assert forall|i: int, j: int| 0 <= i < j < after.len() implies #[trigger] after[i]
            < #[trigger] after[j] by {
            if i < at {
                assert(after[i] == before[i]);
            }
            if i > at {
                assert(after[i] == before[i - 1]);
            }
            if j < at {
                assert(after[j] == before[j]);
            }
            if j > at {
                assert(after[j] == before[j - 1]);
                if i == at {
                    if at < j - 1 {
                        assert(before[at as int] < before[j - 1]);
                    }
                }
            }
        }
    }
}

/// The line for the type of an expression.
pub open spec fn type_line(names: Names, id: NodeId, ty: ResolvedType) -> Seq<char> {
    "expr#"@ + render::decimal(id as nat) + ": "@ + render::token_text(names, resolved::surface(ty))
}

/// The line for the method that a call means.
pub open spec fn method_line(names: Names, id: NodeId, selection: MethodSelection) -> Seq<char> {
    "method#"@ + render::decimal(id as nat) + ": "@ + names.text_of(selection.module_name) + "::"@
        + names.text_of(selection.impl_method.name) + " -> "@ + (match selection.return_type {
        Some(ty) => render::token_text(names, *ty.rust_ty),
        None => "_"@,
    })
}

/// The lines of the numbers in order: for each the line of its type, then that of its method.
pub open spec fn dump_text(names: Names, r: ResultsView, ids: Seq<NodeId>) -> Option<Seq<char>>
    decreases ids.len(),
{
    if ids.len() == 0 {
        None
    } else {
        let id = ids.last();
        let before = dump_text(names, r, ids.drop_last());
        let with_type = match filed(r.resolved, Some(id)) {
            Some(ty) => Some(
                match before {
                    Some(text) => text + "\n"@ + type_line(names, id, *ty),
                    None => type_line(names, id, *ty),
                },
            ),
            None => before,
        };
        match filed(r.selections, Some(id)) {
            Some(selection) => Some(
                match with_type {
                    Some(text) => text + "\n"@ + method_line(names, id, *selection),
                    None => method_line(names, id, *selection),
                },
            ),
            None => with_type,
        }
    }
}

/// The numbers that have a type or a method.
pub open spec fn dumped(r: ResultsView, id: NodeId) -> bool {
    r.resolved.contains_key(id) || r.selections.contains_key(id)
}

/// The text, empty where there are no lines.
pub open spec fn text_or_empty(text: Option<Seq<char>>) -> Seq<char> {
    match text {
        Some(text) => text,
        None => Seq::empty(),
    }
}

/// Whether a text lists all types and methods, a line each, in the order of the numbers of
/// expressions.
pub open spec fn is_dump(names: Names, r: ResultsView, text: Seq<char>) -> bool {
    exists|ids: Seq<NodeId>|
        ascending(ids) && (forall|id: NodeId| #[trigger] ids.contains(id) <==> dumped(r, id)) && text
            == text_or_empty(#[trigger] dump_text(names, r, ids))
}

impl TypeckResults {
    /// All types and methods as text, a line each, in the order of the numbers of expressions.
    pub fn debug_dump(&self, names: &Names) -> (r: String)
        ensures
            is_dump(*names, self@, r@),
    {
        let mut ids: Vec<NodeId> = Vec::new();
        for id in iter: self.resolved_expr_types.keys()
            invariant
                ascending(ids@),
                iter.seq().unref().to_set() == self@.resolved.dom(),
                forall|x: NodeId| #[trigger] ids@.contains(x) ==> self@.resolved.contains_key(x),
                forall|k: int| 0 <= k < iter.index() ==> ids@.contains(*#[trigger] iter.seq()[k]),
        {
            assert(iter.seq().unref()[iter.index()] == *id);
            assert(iter.seq().unref().to_set().contains(*id));
            insert_sorted(&mut ids, *id);
        }
        let ghost typed = ids@;
        assert forall|x: NodeId| #[trigger] typed.contains(x) <==> self@.resolved.contains_key(x) by {
            assert(self@.resolved.dom().contains(x) <==> self@.resolved.contains_key(x));
        }
        for id in iter: self.method_selections.keys()
            invariant
                ascending(ids@),
                iter.seq().unref().to_set() == self@.selections.dom(),
                forall|x: NodeId| #[trigger]
                    ids@.contains(x) ==> typed.contains(x) || self@.selections.contains_key(x),
                forall|x: NodeId| #[trigger] typed.contains(x) ==> ids@.contains(x),
                forall|k: int| 0 <= k < iter.index() ==> ids@.contains(*#[trigger] iter.seq()[k]),
        {
            assert(iter.seq().unref()[iter.index()] == *id);
            assert(iter.seq().unref().to_set().contains(*id));
            insert_sorted(&mut ids, *id);
        }
        assert forall|x: NodeId| #[trigger] ids@.contains(x) <==> dumped(self@, x) by {
            assert(self@.selections.dom().contains(x) <==> self@.selections.contains_key(x));
        }
        let mut out = String::new();
        let mut empty = true;
        let mut i: usize = 0;
        assert(out@ =~= Seq::<char>::empty());
        while i < ids.len()
            invariant
                i <= ids@.len(),
                empty == (dump_text(*names, self@, ids@.take(i as int)) is None),
                out@ == text_or_empty(dump_text(*names, self@, ids@.take(i as int))),
            decreases ids@.len() - i,
        {
            let id = ids[i];
            assert(ids@.take(i + 1).drop_last() =~= ids@.take(i as int));
            assert(ids@.take(i + 1).last() == id);
            if let Some(ty) = self.resolved_expr_types.get(&id) {
                if !empty {
                    out.append("\n");
                }
                let ghost start = out@;
                out.append("expr#");
                write_decimal(id as u128, &mut out);
                out.append(": ");
                let text = to_token_string(names, &ty.to_syn_type());
                out.append(text.as_str());
                assert(out@ =~= start + type_line(*names, id, **ty));
                empty = false;
            }
            if let Some(selection) = self.method_selections.get(&id) {
                if !empty {
                    out.append("\n");
                }
                let ghost start = out@;
                out.append("method#");
                write_decimal(id as u128, &mut out);
                out.append(": ");
                out.append(names.text(selection.module_name));
                out.append("::");
                out.append(names.text(selection.impl_method.name));
                out.append(" -> ");
                match &selection.return_type {
                    Some(ty) => {
                        let text = to_token_string(names, &ty.rust_ty);
                        out.append(text.as_str());
                    },
                    None => out.append("_"),
                }
                assert(out@ =~= start + method_line(*names, id, **selection));
                empty = false;
            }
            assert(out@ =~= text_or_empty(dump_text(*names, self@, ids@.take(i + 1))));
            i += 1;
        }
        assert(ids@.take(ids@.len() as int) =~= ids@);
        assert(out@ == text_or_empty(dump_text(*names, self@, ids@)));
        out
    }
}

} // verus!

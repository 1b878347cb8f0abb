//! The walk over a function's body, which follows the rules of [`crate::infer::walk`].
use crate::ask::{
    ask_bindings, ask_dims, ask_head, ask_marker, ask_unwrapped, compile, compile_if_any,
    compile_under,
};
use crate::env::{find_field, find_fields, find_function, Fields, Solver, Step, Stop, TileType};
use crate::exprs::{
    binary_operands_are_bool, binary_result_is_bool, binary_result_matches_operands,
    block_diverges, count_literal, dim_literals, expr_diverges, is_dim_new_call_path,
    is_unsuffixed_numeric_literal, local_binding_name, local_name, local_pattern_type,
    path_last_name, path_single_name, repeat_length_value, static_usize_index, stmt_is_return,
};
use crate::infer::lookups;
use crate::infer::sound;
use crate::infer::state::{self, StateView, TypeInferenceCx};
use crate::infer::walk::{self, Which};
use crate::list::{self, first_of, share, share_opt, List};
use crate::names::{self, starts_with};
use crate::receiver::receiver_adjustment_candidates;
use crate::results::MethodSelection;
use crate::scalar::bare_type;
use crate::substitute::{
    closure_signature_for_param, closure_signature_generic_names, substitute_resolved_generics,
    type_mentions_any_name, ClosureSignature,
};
use crate::syntax::{
    BinOp, Block, ClosureParam, Expr, ExprKind, FieldValue, FnItem, GenericArg, Lit, Member, Pat,
    Path, QSelf, Stmt, Symbol, Type, UnOp,
};
use crate::syntax_eq::type_eq;
use crate::types::{
    self, can_add_type_constraint, explicit_none_option_syn_type, global_tile_syn_type,
    is_surface_only_scalar_type, make_reference, option_payload_syn_type, option_type, path_type,
    shape_type, tuple_element_syn_types,
};
use crate::unify::{BranchTerm, InferVarKind, InferredTy};
use std::collections::HashSet;
use std::rc::Rc;
use vstd::prelude::*;

verus! {

broadcast use crate::infer::sound::group_sound;

fn split_at_rest(pats: &List<Pat>) -> (r: Option<(List<Pat>, List<Pat>)>)
    ensures
        r == walk::around_rest(*pats),
    decreases pats,
{
    match pats {
        List::Nil => None,
        List::Cons(pat, rest) => {
            if matches!(&**pat, Pat::Rest) {
                Some((List::Nil, rest.dup()))
            } else {
                match split_at_rest(rest) {
                    Some((before, behind)) => Some((List::prepend(share(pat), before), behind)),
                    None => None,
                }
            }
        },
    }
}

/// Whether a list has at least as many items as another.
fn at_least<T, U>(items: &List<T>, like: &List<U>) -> (r: bool)
    ensures
        r == (like@.len() <= items@.len()),
    decreases items,
{
    match (items, like) {
        (_, List::Nil) => true,
        (List::Cons(_, items), List::Cons(_, like)) => at_least(items, like),
        (List::Nil, List::Cons(_, _)) => false,
    }
}

/// Whether a list has at least as many items as two others together.
fn both_fit<T, U>(before: &List<T>, behind: &List<T>, items: &List<U>) -> (r: bool)
    ensures
        r == (before@.len() + behind@.len() <= items@.len()),
    decreases before,
{
    match (before, items) {
        (List::Nil, _) => at_least(items, behind),
        (List::Cons(_, before), List::Cons(_, items)) => both_fit(before, behind, items),
        (List::Cons(_, _), List::Nil) => false,
    }
}

fn take_ending<T, U>(items: &List<T>, like: &List<U>) -> (r: List<T>)
    ensures
        r == walk::ending(*items, *like),
    decreases items,
{
    if at_least(like, items) {
        items.dup()
    } else {
        match items {
            List::Nil => List::Nil,
            List::Cons(_, rest) => take_ending(rest, like),
        }
    }
}

proof fn ending_is_owned(s: StateView, terms: List<InferredTy>, like: List<Pat>)
    requires
        sound::owns_all(s, terms),
    ensures
        sound::owns_all(s, walk::ending(terms, like)),
    decreases terms,
{
    if terms@.len() > like@.len() {
        if let List::Cons(_, rest) = terms {
            ending_is_owned(s, list::held(&rest), like);
        }
    }
}

fn all_types_are(types: &List<Type>, ty: &Type) -> (r: bool)
    ensures
        r == walk::all_are(*types, *ty),
    decreases types,
{
    match types {
        List::Nil => true,
        List::Cons(head, rest) => type_eq(head, ty) && all_types_are(rest, ty),
    }
}

fn sole_arg(args: &List<Expr>) -> (r: Option<Rc<Expr>>)
    ensures
        r == types::shared(types::sole(*args)),
{
    match args {
        List::Cons(arg, rest) => {
            if rest.is_empty() {
                Some(share(arg))
            } else {
                None
            }
        },
        List::Nil => None,
    }
}

fn without_first<T>(items: &List<T>) -> (r: List<T>)
    ensures
        r == lookups::behind_first(*items),
{
    match items {
        List::Nil => List::Nil,
        List::Cons(_, rest) => rest.dup(),
    }
}

fn find_closure_signatures(
    item: &FnItem,
    args: &List<Expr>,
    params: &List<Type>,
) -> (r: List<Option<ClosureSignature>>)
    ensures
        r == walk::closure_signatures(*item, *args, *params),
    decreases args,
{
    match (args, params) {
        (List::Cons(arg, args), List::Cons(param, params)) => {
            let signature = if matches!(arg.kind, ExprKind::Closure { params: _, body: _ }) {
                closure_signature_for_param(&item.generics, param)
            } else {
                None
            };
            List::prepend(Rc::new(signature), find_closure_signatures(item, args, params))
        },
        _ => List::Nil,
    }
}

fn any_signature(signatures: &List<Option<ClosureSignature>>) -> (r: bool)
    ensures
        r == walk::has_signature(*signatures),
    decreases signatures,
{
    match signatures {
        List::Nil => false,
        List::Cons(signature, rest) => signature.is_some() || any_signature(rest),
    }
}

impl<'a> TypeInferenceCx<'a> {
    fn unify_all(&mut self, so_far: InferredTy, terms: &List<InferredTy>) -> (r: InferredTy)
        ensures
            (final(self)@, r) == walk::all_unified(old(self).frame(), old(self)@, so_far, *terms),
            final(self).frame() == old(self).frame(),
            sound::sound(old(self)@) && sound::owns(old(self)@, so_far) && sound::owns_all(
                old(self)@,
                *terms,
            ) ==> sound::advances(old(self)@, final(self)@) && sound::owns(final(self)@, r),
        decreases terms,
    {
        match terms {
            List::Nil => so_far,
            List::Cons(term, rest) => {
                let so_far = self.unify_terms(&so_far, term);
                self.unify_all(so_far, rest)
            },
        }
    }

    fn bind_patterns_with_terms(
        &mut self,
        pats: &List<Pat>,
        terms: &List<InferredTy>,
        common: &InferredTy,
    ) -> (r: Result<(), Stop>)
        ensures
            state::agrees(
                r,
                final(self)@,
                walk::patterns_termed(old(self).frame(), old(self)@, *pats, *terms, *common),
            ),
            final(self).frame() == old(self).frame(),
            sound::sound(old(self)@) && sound::owns(old(self)@, *common) && sound::owns_all(
                old(self)@,
                *terms,
            ) ==> sound::advances(old(self)@, final(self)@),
        decreases pats,
    {
        match (pats, terms) {
            (List::Cons(pat, pats), List::Cons(term, terms)) => {
                let term = self.unify_terms(term, common);
                self.bind_pattern_with_term(pat, &term)?;
                self.bind_patterns_with_terms(pats, terms, common)
            },
            _ => Ok(()),
        }
    }

    fn bind_slice_pattern(
        &mut self,
        pats: &List<Pat>,
        terms: &List<InferredTy>,
        common: &InferredTy,
    ) -> (r: Result<(), Stop>)
        ensures
            state::agrees(
                r,
                final(self)@,
                walk::slice_termed(old(self).frame(), old(self)@, *pats, *terms, *common),
            ),
            final(self).frame() == old(self).frame(),
            sound::sound(old(self)@) && sound::owns(old(self)@, *common) && sound::owns_all(
                old(self)@,
                *terms,
            ) ==> sound::advances(old(self)@, final(self)@),
    {
        match split_at_rest(pats) {
            Some((before, behind)) => {
                if !both_fit(&before, &behind, terms) {
                    return Ok(());
                }
                self.bind_patterns_with_terms(&before, terms, common)?;
                let last = take_ending(terms, &behind);
                proof {
                    if sound::owns_all(self@, *terms) {
                        ending_is_owned(self@, *terms, behind);
                    }
                }
                self.bind_patterns_with_terms(&behind, &last, common)
            },
            None => {
                if !pats.same_length(terms) {
                    return Ok(());
                }
                self.bind_patterns_with_terms(pats, terms, common)
            },
        }
    }

    fn settle(&mut self, expr: &Expr, term: &InferredTy) -> (r: Option<Rc<TileType>>)
        ensures
            (final(self)@, r) == walk::settled(old(self)@, *expr, *term),
            final(self).frame() == old(self).frame(),
            sound::sound(old(self)@) && sound::owns(old(self)@, *term) ==> sound::advances(
                old(self)@,
                final(self)@,
            ),
    {
        match term {
            InferredTy::Known(ty) => Some(share(ty)),
            InferredTy::Var(_) => {
                self.record_expr_term(expr, term);
                None
            },
            InferredTy::Unknown => None,
        }
    }

    fn infer_path(
        &mut self,
        expr: &Expr,
        qself: &Option<Rc<QSelf>>,
        path: &Path,
        expected: &Option<Rc<TileType>>,
    ) -> (r: Result<Option<Rc<TileType>>, Stop>)
        ensures
            state::agrees(
                r,
                final(self)@,
                walk::path_rule(
                    old(self).frame(),
                    old(self)@,
                    *expr,
                    *qself,
                    *path,
                    *expected,
                ),
            ),
            final(self).frame() == old(self).frame(),
            sound::sound(old(self)@) ==> sound::advances(old(self)@, final(self)@),
    {
        let name = match path_single_name(path) {
            Some(name) => name,
            None => {
                if let Some(ty) = self.infer_associated_const_type(qself, path)? {
                    return Ok(Some(ty));
                }
                let ty = ask_marker(self.env, path)?;
                return Ok(Some(ty));
            },
        };
        if name == names::NO_VALUE {
            if let Some(ty) = explicit_none_option_syn_type(qself.is_none(), path) {
                return compile(self.env, &ty);
            }
            return match expected {
                Some(ty) => {
                    if option_payload_syn_type(&ty.rust_ty).is_some() {
                        Ok(Some(share(ty)))
                    } else {
                        Ok(None)
                    }
                },
                None => Ok(None),
            };
        }
        if let Some(term) = self.local_term(name) {
            let term = match expected {
                Some(expected) => self.unify_with_known(&term, expected),
                None => term,
            };
            self.record_expr_term(expr, &term);
            return Ok(self.inference.term_known_type(&term));
        }
        if let Some(ty) = self.infer_global_const_type(path)? {
            return Ok(Some(ty));
        }
        if let Some(ty) = self.infer_global_static_type(path)? {
            return Ok(Some(ty));
        }
        Ok(self.var_type(name))
    }

    fn infer_path_term(
        &mut self,
        expr: &Expr,
        qself: &Option<Rc<QSelf>>,
        path: &Path,
    ) -> (r: Result<InferredTy, Stop>)
        ensures
            state::agrees(
                r,
                final(self)@,
                walk::path_term(old(self).frame(), old(self)@, *expr, *qself, *path),
            ),
            final(self).frame() == old(self).frame(),
            sound::sound(old(self)@) ==> sound::advances(old(self)@, final(self)@) && (r is Ok
                ==> sound::owns(final(self)@, r->Ok_0)),
    {
        let found = match path_single_name(path) {
            Some(name) => {
                if let Some(term) = self.local_term(name) {
                    self.record_expr_term(expr, &term);
                    return Ok(term);
                }
                match self.var_type(name) {
                    Some(ty) => Some(ty),
                    None => self.infer_global_const_type(path)?,
                }
            },
            None => self.infer_associated_const_type(qself, path)?,
        };
        match found {
            Some(ty) => Ok(InferredTy::Known(ty)),
            None => Ok(InferredTy::Unknown),
        }
    }

    pub fn join_branch_terms(&mut self, lhs: BranchTerm, rhs: BranchTerm) -> (r: InferredTy)
        ensures
            (final(self)@, r) == walk::joined(old(self).frame(), old(self)@, lhs, rhs),
            final(self).frame() == old(self).frame(),
            sound::sound(old(self)@) && sound::owns_branch(old(self)@, lhs) && sound::owns_branch(
                old(self)@,
                rhs,
            ) ==> sound::advances(old(self)@, final(self)@) && sound::owns(final(self)@, r),
    {
        match (lhs, rhs) {
            (BranchTerm::Value(lhs), BranchTerm::Value(rhs)) => self.unify_terms(&lhs, &rhs),
            (BranchTerm::Value(term), _) => term,
            (_, BranchTerm::Value(term)) => term,
            _ => InferredTy::Unknown,
        }
    }

    fn type_of_field(&self, base: &Type, member: Member) -> (r: Option<Rc<Type>>)
        ensures
            r == types::shared(walk::field_type(self.frame(), *base, member)),
    {
        match (base, member) {
            (Type::Tuple(elems), Member::Unnamed(index)) => elems.nth(index as usize),
            (Type::Path { qself, path }, Member::Named(name)) => {
                if qself.is_some() {
                    return None;
                }
                match path_last_name(path) {
                    Some(struct_name) => match find_fields(&self.env.structs, struct_name) {
                        Some(Fields::Named(fields)) => find_field(fields, name),
                        _ => None,
                    },
                    None => None,
                }
            },
            _ => None,
        }
    }

    fn type_of_index(&self, base: &Type, index: &Expr) -> (r: Option<Rc<Type>>)
        ensures
            r == types::shared(walk::indexed_type(self.frame(), *base, *index)),
    {
        match base {
            Type::Array { elem, len: _ } => Some(share(elem)),
            Type::Slice(elem) => Some(share(elem)),
            Type::Tuple(elems) => match static_usize_index(index) {
                Some(position) => elems.nth(position),
                None => None,
            },
            Type::Path { qself, path } => {
                if qself.is_some() {
                    return None;
                }
                match path_last_name(path) {
                    Some(name) => {
                        if name == names::SHAPE || starts_with(self.env.names.text(name), "Shape_") {
                            Some(bare_type(names::I32))
                        } else {
                            None
                        }
                    },
                    None => None,
                }
            },
            _ => None,
        }
    }

    fn expected_field_type(
        &self,
        struct_name: Symbol,
        member: Member,
    ) -> (r: Result<Option<Rc<TileType>>, Stop>)
        ensures
            r == walk::expected_field(self.frame(), struct_name, member),
    {
        let name = match member {
            Member::Named(name) => name,
            Member::Unnamed(_) => return Ok(None),
        };
        match find_fields(&self.env.structs, struct_name) {
            Some(Fields::Named(fields)) => match find_field(fields, name) {
                Some(ty) => compile_if_any(self.env, &ty),
                None => Ok(None),
            },
            _ => Ok(None),
        }
    }

    fn bind_closure_params(
        &mut self,
        params: &List<ClosureParam>,
        given: &List<TileType>,
    ) -> (r: Result<(), Stop>)
        ensures
            state::agrees(
                r,
                final(self)@,
                walk::closure_params(old(self).frame(), old(self)@, *params, *given),
            ),
            final(self).frame() == old(self).frame(),
            sound::sound(old(self)@) ==> sound::advances(old(self)@, final(self)@),
        decreases params,
    {
        match params {
            List::Nil => Ok(()),
            List::Cons(param, rest) => match given {
                List::Cons(ty, given) => {
                    self.bind_tile_var(param.name, ty);
                    self.bind_closure_params(rest, given)
                },
                List::Nil => {
                    match &param.ty {
                        Some(written) => match compile(self.env, written)? {
                            Some(tile) => self.bind_tile_var(param.name, &tile),
                            None => self.bind_syn_var(param.name, written),
                        },
                        None => {
                            let term = self.new_infer_var(InferVarKind::General, None, None);
                            self.bind_inferred_var(param.name, &term);
                        },
                    }
                    self.bind_closure_params(rest, &List::Nil)
                },
            },
        }
    }

    fn index_type_of_partition(
        &self,
        ty: &Rc<Type>,
    ) -> (r: Result<Option<Option<Rc<TileType>>>, Stop>)
        ensures
            r == walk::partition_index_type(self.frame(), **ty),
    {
        let (ident, args) = ask_head(self.env, ty)?;
        let ident = match ident {
            Some(ident) => ident,
            None => return Ok(None),
        };
        if !starts_with(self.env.names.text(ident), "MappedPartitionMut") {
            return Ok(None);
        }
        let args = match args {
            Some(args) => args,
            None => return Ok(Some(None)),
        };
        let shape = match args.nth(1) {
            Some(shape) => shape,
            None => return Ok(Some(None)),
        };
        match ask_dims(self.env, &shape)? {
            None => Ok(Some(None)),
            Some(dims) => {
                let ty = shape_type(names::PARTITION_INDEX, dim_literals(&dims));
                let tile = compile(self.env, &ty)?;
                Ok(Some(tile))
            },
        }
    }

    fn expected_type_so_far(
        &self,
        limit: u64,
        param: &Rc<Type>,
        solver: &Solver,
    ) -> (r: Result<Option<Rc<TileType>>, Stop>)
        ensures
            r == walk::expected_so_far(self.frame(), limit as nat, **param, *solver),
    {
        let bindings = ask_bindings(self.env, solver)?;
        let first = match substitute_resolved_generics(param, &bindings) {
            Some(ty) => self.compile_expected_param_type(limit, &ty)?,
            None => None,
        };
        match first {
            Some(tile) => Ok(Some(tile)),
            None => self.scalar_param_type(param),
        }
    }

    pub fn infer_block(
        &mut self,
        limit: u64,
        block: &Block,
        expected: &Option<Rc<TileType>>,
    ) -> (r: Result<Option<Rc<TileType>>, Stop>)
        ensures
            state::agrees(
                r,
                final(self)@,
                walk::block_type(old(self).frame(), limit as nat, old(self)@, *block, *expected),
            ),
            final(self).frame() == old(self).frame(),
            sound::sound(old(self)@) ==> sound::advances(old(self)@, final(self)@),
        decreases limit, 0int, old(self)@,
    {
        if limit == 0 {
            return Err(Stop::LimitReached);
        }
        self.infer_block_inner(limit - 1, &block.stmts, expected, None)
    }

    fn infer_block_inner(
        &mut self,
        limit: u64,
        stmts: &List<Stmt>,
        expected: &Option<Rc<TileType>>,
        last: Option<Rc<TileType>>,
    ) -> (r: Result<Option<Rc<TileType>>, Stop>)
        ensures
            state::agrees(
                r,
                final(self)@,
                walk::stmts_type(
                    old(self).frame(),
                    limit as nat,
                    old(self)@,
                    *stmts,
                    *expected,
                    last,
                ),
            ),
            final(self).frame() == old(self).frame(),
            sound::sound(old(self)@) ==> sound::advances(old(self)@, final(self)@),
        decreases limit, 1int, stmts,
    {
        match stmts {
            List::Nil => Ok(last),
            List::Cons(stmt, rest) => {
                let wanted = if rest.is_empty() || stmt_is_return(stmt) {
                    share_opt(expected)
                } else {
                    None
                };
                let last = self.infer_stmt(limit, stmt, &wanted)?;
                self.infer_block_inner(limit, rest, expected, last)
            },
        }
    }

    pub fn infer_stmt(
        &mut self,
        limit: u64,
        stmt: &Stmt,
        expected: &Option<Rc<TileType>>,
    ) -> (r: Result<Option<Rc<TileType>>, Stop>)
        ensures
            state::agrees(
                r,
                final(self)@,
                walk::stmt_type(old(self).frame(), limit as nat, old(self)@, *stmt, *expected),
            ),
            final(self).frame() == old(self).frame(),
            sound::sound(old(self)@) ==> sound::advances(old(self)@, final(self)@),
        decreases limit, 0int, old(self)@,
    {
        if limit == 0 {
            return Err(Stop::LimitReached);
        }
        self.infer_stmt_inner(limit - 1, stmt, expected)
    }

    fn infer_stmt_inner(
        &mut self,
        limit: u64,
        stmt: &Stmt,
        expected: &Option<Rc<TileType>>,
    ) -> (r: Result<Option<Rc<TileType>>, Stop>)
        ensures
            state::agrees(
                r,
                final(self)@,
                walk::stmt_rule(old(self).frame(), limit as nat, old(self)@, *stmt, *expected),
            ),
            final(self).frame() == old(self).frame(),
            sound::sound(old(self)@) ==> sound::advances(old(self)@, final(self)@),
        decreases limit, 40int, old(self)@,
    {
        match stmt {
            Stmt::Local { pat, init } => {
                let annotated = match local_pattern_type(pat) {
                    Some(ty) => compile(self.env, &ty)?,
                    None => None,
                };
                let init_type = self.infer_local_init(limit, pat, init, &annotated)?;
                let ty = first_of(annotated, init_type);
                self.bind_local(limit, pat, init, &ty)?;
                Ok(ty)
            },
            Stmt::Expr { expr, semi } => {
                if !*semi || matches!(expr.kind, ExprKind::Return(_)) {
                    self.infer_expr(limit, expr, expected)
                } else {
                    self.infer_expr(limit, expr, &None)
                }
            },
            Stmt::Const { name, ty, expr } => {
                let declared = compile(self.env, ty)?;
                let init_type = self.infer_expr(limit, expr, &declared)?;
                match first_of(declared, init_type) {
                    Some(tile) => self.bind_tile_var(*name, &tile),
                    None => self.bind_syn_var(*name, ty),
                }
                Ok(None)
            },
            _ => Ok(None),
        }
    }

    fn infer_local_init(
        &mut self,
        limit: u64,
        pat: &Pat,
        init: &Option<Rc<Expr>>,
        annotated: &Option<Rc<TileType>>,
    ) -> (r: Result<Option<Rc<TileType>>, Stop>)
        ensures
            state::agrees(
                r,
                final(self)@,
                walk::local_init(
                    old(self).frame(),
                    limit as nat,
                    old(self)@,
                    *pat,
                    *init,
                    *annotated,
                ),
            ),
            final(self).frame() == old(self).frame(),
            sound::sound(old(self)@) ==> sound::advances(old(self)@, final(self)@),
        decreases limit, 39int, old(self)@,
    {
        let init = match init {
            Some(init) => init,
            None => return Ok(None),
        };
        if annotated.is_some() {
            return self.infer_expr(limit, init, annotated);
        }
        let term = self.infer_expr_term(limit, init, &None)?;
        match &term {
            InferredTy::Known(ty) => Ok(Some(share(ty))),
            InferredTy::Var(_) => {
                if let Some(name) = local_binding_name(pat) {
                    self.bind_inferred_var(name, &term);
                }
                Ok(None)
            },
            InferredTy::Unknown => {
                if let Some(name) = local_binding_name(pat) {
                    let term = self.new_infer_var(
                        InferVarKind::General,
                        init.id,
                        Some(share(init)),
                    );
                    self.bind_inferred_var(name, &term);
                }
                Ok(None)
            },
        }
    }

    fn bind_local(
        &mut self,
        limit: u64,
        pat: &Pat,
        init: &Option<Rc<Expr>>,
        ty: &Option<Rc<TileType>>,
    ) -> (r: Result<(), Stop>)
        ensures
            state::agrees(
                r,
                final(self)@,
                walk::local_binding(old(self).frame(), limit as nat, old(self)@, *pat, *init, *ty),
            ),
            final(self).frame() == old(self).frame(),
            sound::sound(old(self)@) ==> sound::advances(old(self)@, final(self)@),
        decreases limit, 39int, old(self)@,
    {
        if let Some(ty) = ty {
            return self.bind_pattern_with_tile_type(pat, ty);
        }
        let written = match local_pattern_type(pat) {
            Some(ty) => Some(ty),
            None => match init {
                Some(init) => self.results.syn_expr_type(init),
                None => None,
            },
        };
        match written {
            Some(ty) => self.bind_pattern_with_syn_type(pat, &ty),
            None => match init {
                Some(init) => self.bind_pattern_from_expr(limit, pat, init),
                None => Ok(()),
            },
        }
    }

    fn bind_pattern_of_expr_type(
        &mut self,
        limit: u64,
        pat: &Pat,
        expr: &Rc<Expr>,
    ) -> (r: Result<(), Stop>)
        ensures
            state::agrees(
                r,
                final(self)@,
                walk::pattern_of_expr_type(
                    old(self).frame(),
                    limit as nat,
                    old(self)@,
                    *pat,
                    **expr,
                ),
            ),
            final(self).frame() == old(self).frame(),
            sound::sound(old(self)@) ==> sound::advances(old(self)@, final(self)@),
        decreases limit, 2int, old(self)@,
    {
        match self.infer_expr(limit, expr, &None)? {
            Some(ty) => self.bind_pattern_with_tile_type(pat, &ty),
            None => Ok(()),
        }
    }

    pub fn bind_pattern_from_expr(
        &mut self,
        limit: u64,
        pat: &Pat,
        expr: &Rc<Expr>,
    ) -> (r: Result<(), Stop>)
        ensures
            state::agrees(
                r,
                final(self)@,
                walk::pattern_from_expr(old(self).frame(), limit as nat, old(self)@, *pat, **expr),
            ),
            final(self).frame() == old(self).frame(),
            sound::sound(old(self)@) ==> sound::advances(old(self)@, final(self)@),
        decreases limit, 30int, pat,
    {
        match pat {
            Pat::Ident { name: _, mutable: _, subpat: _ } => {
                let term = self.infer_expr_term(limit, expr, &None)?;
                if matches!(term, InferredTy::Unknown) {
                    let term = self.new_infer_var(
                        InferVarKind::General,
                        expr.id,
                        Some(share(expr)),
                    );
                    self.bind_pattern_with_term(pat, &term)
                } else {
                    self.bind_pattern_with_term(pat, &term)
                }
            },
            Pat::Type { pat: inner, ty } => {
                let expected = compile(self.env, ty)?;
                let _ = self.infer_expr(limit, expr, &expected)?;
                self.bind_pattern_with_syn_type(inner, ty)
            },
            Pat::Paren(inner) => self.bind_pattern_from_expr(limit, inner, expr),
            Pat::Reference(inner) => match &expr.kind {
                ExprKind::Reference { mutable: _, expr: referent } => {
                    self.bind_pattern_from_expr(limit, inner, referent)
                },
                _ => self.bind_pattern_of_expr_type(limit, pat, expr),
            },
            Pat::Tuple(pats) => {
                if let ExprKind::Tuple(items) = &expr.kind {
                    if pats.same_length(items) {
                        return self.bind_patterns_from_exprs(limit, pats, items);
                    }
                }
                match self.infer_expr(limit, expr, &None)? {
                    Some(ty) => self.bind_pattern_with_tile_type(pat, &ty),
                    None => match self.results.syn_expr_type(expr) {
                        Some(ty) => self.bind_pattern_with_syn_type(pat, &ty),
                        None => Ok(()),
                    },
                }
            },
            Pat::Slice(pats) => match &expr.kind {
                ExprKind::Array(items) => {
                    self.bind_slice_pattern_from_array_expr(limit, pats, items)
                },
                _ => self.bind_pattern_of_expr_type(limit, pat, expr),
            },
            Pat::Or(cases) => self.bind_cases_from_expr(limit, cases, expr),
            Pat::Wild => Ok(()),
            Pat::Rest => Ok(()),
            _ => self.bind_pattern_of_expr_type(limit, pat, expr),
        }
    }

    fn bind_patterns_from_exprs(
        &mut self,
        limit: u64,
        pats: &List<Pat>,
        items: &List<Expr>,
    ) -> (r: Result<(), Stop>)
        ensures
            state::agrees(
                r,
                final(self)@,
                walk::patterns_from_exprs(
                    old(self).frame(),
                    limit as nat,
                    old(self)@,
                    *pats,
                    *items,
                ),
            ),
            final(self).frame() == old(self).frame(),
            sound::sound(old(self)@) ==> sound::advances(old(self)@, final(self)@),
        decreases limit, 30int, pats,
    {
        match (pats, items) {
            (List::Cons(pat, pats), List::Cons(item, items)) => {
                self.bind_pattern_from_expr(limit, pat, item)?;
                self.bind_patterns_from_exprs(limit, pats, items)
            },
            _ => Ok(()),
        }
    }

    fn bind_cases_from_expr(
        &mut self,
        limit: u64,
        cases: &List<Pat>,
        expr: &Rc<Expr>,
    ) -> (r: Result<(), Stop>)
        ensures
            state::agrees(
                r,
                final(self)@,
                walk::cases_from_expr(old(self).frame(), limit as nat, old(self)@, *cases, **expr),
            ),
            final(self).frame() == old(self).frame(),
            sound::sound(old(self)@) ==> sound::advances(old(self)@, final(self)@),
        decreases limit, 30int, cases,
    {
        match cases {
            List::Nil => Ok(()),
            List::Cons(pat, rest) => {
                self.bind_pattern_from_expr(limit, pat, expr)?;
                self.bind_cases_from_expr(limit, rest, expr)
            },
        }
    }

    fn infer_expr_terms(
        &mut self,
        limit: u64,
        items: &List<Expr>,
    ) -> (r: Result<List<InferredTy>, Stop>)
        ensures
            state::agrees(
                r,
                final(self)@,
                walk::terms_of(old(self).frame(), limit as nat, old(self)@, *items),
            ),
            final(self).frame() == old(self).frame(),
            sound::sound(old(self)@) ==> sound::advances(old(self)@, final(self)@) && (r is Ok
                ==> sound::owns_all(final(self)@, r->Ok_0)),
        decreases limit, 10int, items,
    {
        match items {
            List::Nil => Ok(List::Nil),
            List::Cons(item, rest) => {
                let term = self.infer_expr_term(limit, item, &None)?;
                let more = self.infer_expr_terms(limit, rest)?;
                Ok(List::prepend(Rc::new(term), more))
            },
        }
    }

    pub fn bind_slice_pattern_from_array_expr(
        &mut self,
        limit: u64,
        pats: &List<Pat>,
        items: &List<Expr>,
    ) -> (r: Result<(), Stop>)
        ensures
            state::agrees(
                r,
                final(self)@,
                walk::slice_from_array(old(self).frame(), limit as nat, old(self)@, *pats, *items),
            ),
            final(self).frame() == old(self).frame(),
            sound::sound(old(self)@) ==> sound::advances(old(self)@, final(self)@),
        decreases limit, 20int, old(self)@,
    {
        let terms = self.infer_expr_terms(limit, items)?;
        let common = self.unify_all(InferredTy::Unknown, &terms);
        self.bind_slice_pattern(pats, &terms, &common)
    }

    pub fn infer_expr(
        &mut self,
        limit: u64,
        expr: &Rc<Expr>,
        expected: &Option<Rc<TileType>>,
    ) -> (r: Result<Option<Rc<TileType>>, Stop>)
        ensures
            state::agrees(
                r,
                final(self)@,
                walk::expr_type(old(self).frame(), limit as nat, old(self)@, **expr, *expected),
            ),
            final(self).frame() == old(self).frame(),
            sound::sound(old(self)@) ==> sound::advances(old(self)@, final(self)@),
        decreases limit, 0int, old(self)@,
    {
        if limit == 0 {
            return Err(Stop::LimitReached);
        }
        match self.infer_expr_inner(limit - 1, expr, expected)? {
            Some(ty) => {
                self.record_expr_term(expr, &InferredTy::Known(share(&ty)));
                self.file_tile(expr, &ty);
                Ok(Some(ty))
            },
            None => Ok(None),
        }
    }

    fn infer_expr_inner(
        &mut self,
        limit: u64,
        expr: &Rc<Expr>,
        expected: &Option<Rc<TileType>>,
    ) -> (r: Result<Option<Rc<TileType>>, Stop>)
        ensures
            state::agrees(
                r,
                final(self)@,
                walk::expr_rule(old(self).frame(), limit as nat, old(self)@, **expr, *expected),
            ),
            final(self).frame() == old(self).frame(),
            sound::sound(old(self)@) ==> sound::advances(old(self)@, final(self)@),
        decreases limit, 40int, old(self)@,
    {
        match &expr.kind {
            ExprKind::Path { qself, path } => self.infer_path(expr, qself, path, expected),
            ExprKind::Reference { mutable, expr: inner } => {
                match self.infer_expr(limit, inner, &None)? {
                    Some(ty) => Ok(
                        Some(
                            Rc::new(
                                TileType {
                                    rust_ty: make_reference(*mutable, share(&ty.rust_ty)),
                                    params: ty.params.dup(),
                                    handle: ty.handle,
                                },
                            ),
                        ),
                    ),
                    None => Ok(None),
                }
            },
            ExprKind::Paren(inner) => self.infer_expr(limit, inner, expected),
            ExprKind::Block(block) => self.infer_block_expr(limit, expr, block, expected),
            ExprKind::Unsafe(block) => self.infer_block_expr(limit, expr, block, expected),
            ExprKind::Tuple(elems) => self.infer_tuple(limit, elems, expected),
            ExprKind::Array(elems) => self.infer_array(limit, elems, expected),
            ExprKind::Repeat { expr: value, len } => self.infer_repeat(limit, value, len, expected),
            ExprKind::Range { start, end } => self.infer_range(limit, start, end),
            ExprKind::Field { base, member } => self.infer_field(limit, base, *member, expected),
            ExprKind::Index { expr: base, index } => self.infer_index(limit, base, index, expected),
            ExprKind::Call { func, args } => self.infer_call(limit, expr, func, args, expected),
            ExprKind::MethodCall { receiver: _, method: _, turbofish: _, args: _ } => {
                self.infer_method_call(limit, expr, expected)
            },
            ExprKind::Struct { path, fields } => self.infer_struct(limit, path, fields, expected),
            ExprKind::Macro { path, tokens } => self.infer_macro(path, tokens),
            ExprKind::Cast { expr: source, ty } => self.infer_cast_target(limit, expr, source, ty),
            ExprKind::Closure { params, body } => {
                self.infer_closure(limit, params, body, &List::Nil, &None)?;
                Ok(share_opt(expected))
            },
            ExprKind::Assign { left, right } => {
                if let Some(name) = local_name(left) {
                    self.infer_assignment(limit, name, right)?;
                }
                Ok(None)
            },
            ExprKind::Binary { op, left, right } => {
                self.infer_binary(limit, expr, *op, left, right, expected)
            },
            ExprKind::Unary { op, expr: inner } => {
                if expected.is_none() && matches!(op, UnOp::Neg) {
                    let term = self.infer_expr_term(limit, expr, &None)?;
                    Ok(self.settle(expr, &term))
                } else {
                    self.infer_expr(limit, inner, expected)
                }
            },
            ExprKind::Lit { lit, ty } => {
                if expected.is_some() {
                    return Ok(share_opt(expected));
                }
                match ty {
                    Some(ty) => compile(self.env, ty),
                    None => {
                        let term = self.literal_infer_var(expr, lit);
                        self.record_expr_term(expr, &term);
                        Ok(None)
                    },
                }
            },
            ExprKind::If { cond, then_branch, else_branch } => {
                let _ = self.infer_condition(limit, cond)?;
                if expected.is_some() {
                    self.infer_if_expected(limit, then_branch, else_branch, expected)
                } else {
                    let term = self.infer_if_expr_term(limit, then_branch, else_branch)?;
                    Ok(self.settle(expr, &term))
                }
            },
            ExprKind::ForLoop { pat, expr: iter, body } => {
                self.infer_for_loop(limit, pat, iter, body)
            },
            ExprKind::While { cond, body } => {
                let _ = self.infer_condition(limit, cond)?;
                self.infer_scoped_block(limit, body)
            },
            ExprKind::Loop(body) => self.infer_scoped_block(limit, body),
            ExprKind::Return(value) => {
                if let Some(value) = value {
                    let _ = self.infer_expr(limit, value, expected)?;
                }
                Ok(share_opt(expected))
            },
            ExprKind::Other(_) => Ok(share_opt(expected)),
        }
    }

    fn infer_block_expr(
        &mut self,
        limit: u64,
        expr: &Rc<Expr>,
        block: &Block,
        expected: &Option<Rc<TileType>>,
    ) -> (r: Result<Option<Rc<TileType>>, Stop>)
        ensures
            state::agrees(
                r,
                final(self)@,
                walk::block_rule(
                    old(self).frame(),
                    limit as nat,
                    old(self)@,
                    **expr,
                    *block,
                    *expected,
                ),
            ),
            final(self).frame() == old(self).frame(),
            sound::sound(old(self)@) ==> sound::advances(old(self)@, final(self)@),
        decreases limit, 2int, old(self)@,
    {
        match self.infer_block(limit, block, expected)? {
            Some(ty) => Ok(Some(ty)),
            None => {
                if let Some(ty) = self.block_tail_syn_type(block) {
                    self.file_resolved(expr, &ty);
                }
                Ok(None)
            },
        }
    }

    fn infer_condition(
        &mut self,
        limit: u64,
        cond: &Rc<Expr>,
    ) -> (r: Result<Option<Rc<TileType>>, Stop>)
        ensures
            state::agrees(
                r,
                final(self)@,
                walk::cond_rule(old(self).frame(), limit as nat, old(self)@, **cond),
            ),
            final(self).frame() == old(self).frame(),
            sound::sound(old(self)@) ==> sound::advances(old(self)@, final(self)@),
        decreases limit, 2int, old(self)@,
    {
        let tile = self.bool_type()?;
        self.infer_expr(limit, cond, &tile)
    }

    pub fn infer_scoped_block(
        &mut self,
        limit: u64,
        block: &Block,
    ) -> (r: Result<Option<Rc<TileType>>, Stop>)
        ensures
            state::agrees(
                r,
                final(self)@,
                walk::scoped_rule(old(self).frame(), limit as nat, old(self)@, *block),
            ),
            final(self).frame() == old(self).frame(),
            sound::sound(old(self)@) ==> sound::advances(old(self)@, final(self)@),
        decreases limit, 2int, old(self)@,
    {
        let mut nested = self.fork();
        let _ = nested.infer_block(limit, block, &None)?;
        self.leave(nested);
        Ok(None)
    }

    fn infer_for_loop(
        &mut self,
        limit: u64,
        pat: &Pat,
        iter: &Rc<Expr>,
        body: &Block,
    ) -> (r: Result<Option<Rc<TileType>>, Stop>)
        ensures
            state::agrees(
                r,
                final(self)@,
                walk::for_rule(old(self).frame(), limit as nat, old(self)@, *pat, **iter, *body),
            ),
            final(self).frame() == old(self).frame(),
            sound::sound(old(self)@) ==> sound::advances(old(self)@, final(self)@),
        decreases limit, 12int, old(self)@,
    {
        let item = self.infer_for_iter_ty(limit, iter)?;
        let mut nested = self.fork();
        if let Some(item) = item {
            nested.bind_pattern_with_tile_type(pat, &item)?;
        }
        let _ = nested.infer_block(limit, body, &None)?;
        self.leave(nested);
        Ok(None)
    }

    fn infer_if_expected(
        &mut self,
        limit: u64,
        then_branch: &Block,
        else_branch: &Option<Rc<Expr>>,
        expected: &Option<Rc<TileType>>,
    ) -> (r: Result<Option<Rc<TileType>>, Stop>)
        ensures
            state::agrees(
                r,
                final(self)@,
                walk::if_expected(
                    old(self).frame(),
                    limit as nat,
                    old(self)@,
                    *then_branch,
                    *else_branch,
                    *expected,
                ),
            ),
            final(self).frame() == old(self).frame(),
            sound::sound(old(self)@) ==> sound::advances(old(self)@, final(self)@),
        decreases limit, 2int, old(self)@,
    {
        let then_ty = self.infer_block(limit, then_branch, expected)?;
        match else_branch {
            None => Ok(first_of(then_ty, share_opt(expected))),
            Some(other) => {
                let else_ty = self.infer_expr(limit, other, expected)?;
                Ok(first_of(then_ty, first_of(else_ty, share_opt(expected))))
            },
        }
    }

    pub fn infer_tuple(
        &mut self,
        limit: u64,
        elems: &List<Expr>,
        expected: &Option<Rc<TileType>>,
    ) -> (r: Result<Option<Rc<TileType>>, Stop>)
        ensures
            state::agrees(
                r,
                final(self)@,
                walk::tuple_rule(old(self).frame(), limit as nat, old(self)@, *elems, *expected),
            ),
            final(self).frame() == old(self).frame(),
            sound::sound(old(self)@) ==> sound::advances(old(self)@, final(self)@),
        decreases limit, 12int, old(self)@,
    {
        if let Some(tuple) = expected {
            if let Some(items) = tuple_element_syn_types(&tuple.rust_ty) {
                if items.same_length(elems) {
                    self.infer_elems_expected(limit, elems, &items)?;
                }
            }
            return Ok(share_opt(expected));
        }
        let found = self.infer_elem_types(limit, elems, &None, Which::All, List::Nil)?;
        if !found.same_length(elems) {
            return Ok(None);
        }
        compile(self.env, &Rc::new(Type::Tuple(found)))
    }

    fn infer_elems_expected(
        &mut self,
        limit: u64,
        elems: &List<Expr>,
        items: &List<Type>,
    ) -> (r: Result<(), Stop>)
        ensures
            state::agrees(
                r,
                final(self)@,
                walk::elems_expected(old(self).frame(), limit as nat, old(self)@, *elems, *items),
            ),
            final(self).frame() == old(self).frame(),
            sound::sound(old(self)@) ==> sound::advances(old(self)@, final(self)@),
        decreases limit, 11int, elems,
    {
        match (elems, items) {
            (List::Cons(elem, elems), List::Cons(item, items)) => {
                let expected = compile(self.env, item)?;
                let _ = self.infer_expr(limit, elem, &expected)?;
                self.infer_elems_expected(limit, elems, items)
            },
            _ => Ok(()),
        }
    }

    fn infer_elem_types(
        &mut self,
        limit: u64,
        elems: &List<Expr>,
        expected: &Option<Rc<TileType>>,
        which: Which,
        found: List<Type>,
    ) -> (r: Result<List<Type>, Stop>)
        ensures
            state::agrees(
                r,
                final(self)@,
                walk::elem_types(
                    old(self).frame(),
                    limit as nat,
                    old(self)@,
                    *elems,
                    *expected,
                    which,
                    found,
                ),
            ),
            final(self).frame() == old(self).frame(),
            sound::sound(old(self)@) ==> sound::advances(old(self)@, final(self)@),
        decreases limit, 11int, elems,
    {
        match elems {
            List::Nil => Ok(found),
            List::Cons(elem, rest) => {
                let read = match which {
                    Which::All => true,
                    Which::Numbers => is_unsuffixed_numeric_literal(elem),
                    Which::Others => !is_unsuffixed_numeric_literal(elem),
                };
                if read {
                    match self.infer_expr(limit, elem, expected)? {
                        Some(ty) => {
                            let found = found.push(share(&ty.rust_ty));
                            self.infer_elem_types(limit, rest, expected, which, found)
                        },
                        None => self.infer_elem_types(limit, rest, expected, which, found),
                    }
                } else {
                    self.infer_elem_types(limit, rest, expected, which, found)
                }
            },
        }
    }

    fn infer_array_elems(
        &mut self,
        limit: u64,
        elems: &List<Expr>,
        item: &Option<Rc<TileType>>,
    ) -> (r: Result<List<Type>, Stop>)
        ensures
            state::agrees(
                r,
                final(self)@,
                walk::array_elem_types(old(self).frame(), limit as nat, old(self)@, *elems, *item),
            ),
            final(self).frame() == old(self).frame(),
            sound::sound(old(self)@) ==> sound::advances(old(self)@, final(self)@),
        decreases limit, 12int, old(self)@,
    {
        if item.is_some() {
            return self.infer_elem_types(limit, elems, item, Which::All, List::Nil);
        }
        let found = self.infer_elem_types(limit, elems, &None, Which::Others, List::Nil)?;
        let first = match &found {
            List::Cons(ty, _) => compile_if_any(self.env, ty)?,
            List::Nil => None,
        };
        self.infer_elem_types(limit, elems, &first, Which::Numbers, found)
    }

    fn infer_array(
        &mut self,
        limit: u64,
        elems: &List<Expr>,
        expected: &Option<Rc<TileType>>,
    ) -> (r: Result<Option<Rc<TileType>>, Stop>)
        ensures
            state::agrees(
                r,
                final(self)@,
                walk::array_rule(old(self).frame(), limit as nat, old(self)@, *elems, *expected),
            ),
            final(self).frame() == old(self).frame(),
            sound::sound(old(self)@) ==> sound::advances(old(self)@, final(self)@),
        decreases limit, 13int, old(self)@,
    {
        let item = match expected {
            Some(ty) => self.array_element_type(ty)?,
            None => None,
        };
        let found = self.infer_array_elems(limit, elems, &item)?;
        if expected.is_some() {
            return Ok(share_opt(expected));
        }
        match &found {
            List::Cons(first, _) => {
                if !all_types_are(&found, first) {
                    return Ok(None);
                }
                let ty = Type::Array { elem: share(first), len: count_literal(elems.count()) };
                compile(self.env, &Rc::new(ty))
            },
            List::Nil => Ok(None),
        }
    }

    fn infer_repeat(
        &mut self,
        limit: u64,
        value: &Rc<Expr>,
        len: &Rc<Expr>,
        expected: &Option<Rc<TileType>>,
    ) -> (r: Result<Option<Rc<TileType>>, Stop>)
        ensures
            state::agrees(
                r,
                final(self)@,
                walk::repeat_rule(
                    old(self).frame(),
                    limit as nat,
                    old(self)@,
                    **value,
                    **len,
                    *expected,
                ),
            ),
            final(self).frame() == old(self).frame(),
            sound::sound(old(self)@) ==> sound::advances(old(self)@, final(self)@),
        decreases limit, 2int, old(self)@,
    {
        let item = match expected {
            Some(ty) => self.array_element_type(ty)?,
            None => None,
        };
        let found = self.infer_expr(limit, value, &item)?;
        if expected.is_some() {
            return Ok(share_opt(expected));
        }
        match (found, repeat_length_value(len, &self.env.generic_vars)) {
            (Some(ty), Some(times)) => {
                let ty = Type::Array { elem: share(&ty.rust_ty), len: count_literal(times) };
                compile(self.env, &Rc::new(ty))
            },
            _ => Ok(None),
        }
    }

    pub fn infer_range(
        &mut self,
        limit: u64,
        start: &Option<Rc<Expr>>,
        end: &Option<Rc<Expr>>,
    ) -> (r: Result<Option<Rc<TileType>>, Stop>)
        ensures
            state::agrees(
                r,
                final(self)@,
                walk::range_rule(old(self).frame(), limit as nat, old(self)@, *start, *end),
            ),
            final(self).frame() == old(self).frame(),
            sound::sound(old(self)@) ==> sound::advances(old(self)@, final(self)@),
        decreases limit, 2int, old(self)@,
    {
        if let (Some(start), Some(end)) = (start, end) {
            if is_unsuffixed_numeric_literal(start) {
                let end_ty = self.infer_expr(limit, end, &None)?;
                let start_ty = self.infer_expr(limit, start, &end_ty)?;
                return Ok(first_of(start_ty, end_ty));
            }
        }
        let start_ty = match start {
            Some(start) => self.infer_expr(limit, start, &None)?,
            None => None,
        };
        let end_ty = match end {
            Some(end) => self.infer_expr(limit, end, &start_ty)?,
            None => None,
        };
        if start_ty.is_none() && end_ty.is_some() {
            if let Some(start) = start {
                let _ = self.infer_expr(limit, start, &end_ty)?;
            }
        }
        Ok(first_of(start_ty, end_ty))
    }

    pub fn infer_field(
        &mut self,
        limit: u64,
        base: &Rc<Expr>,
        member: Member,
        expected: &Option<Rc<TileType>>,
    ) -> (r: Result<Option<Rc<TileType>>, Stop>)
        ensures
            state::agrees(
                r,
                final(self)@,
                walk::field_rule(
                    old(self).frame(),
                    limit as nat,
                    old(self)@,
                    **base,
                    member,
                    *expected,
                ),
            ),
            final(self).frame() == old(self).frame(),
            sound::sound(old(self)@) ==> sound::advances(old(self)@, final(self)@),
        decreases limit, 14int, old(self)@,
    {
        match self.infer_expr(limit, base, &None)? {
            None => match expected {
                None => Ok(None),
                Some(ty) => match self.expected_tuple_type_from_field_base(
                    limit,
                    base,
                    member,
                    ty,
                )? {
                    Some(_) => Ok(share_opt(expected)),
                    None => Ok(None),
                },
            },
            Some(base_ty) => match self.type_of_field(&base_ty.rust_ty, member) {
                Some(ty) => compile(self.env, &ty),
                None => Ok(None),
            },
        }
    }

    pub fn expected_tuple_type_from_field_base(
        &mut self,
        limit: u64,
        base: &Rc<Expr>,
        member: Member,
        elem: &Rc<TileType>,
    ) -> (r: Result<Option<Rc<TileType>>, Stop>)
        ensures
            state::agrees(
                r,
                final(self)@,
                walk::tuple_expected_at_field(
                    old(self).frame(),
                    limit as nat,
                    old(self)@,
                    **base,
                    member,
                    *elem,
                ),
            ),
            final(self).frame() == old(self).frame(),
            sound::sound(old(self)@) ==> sound::advances(old(self)@, final(self)@),
        decreases limit, 13int, old(self)@,
    {
        let index = match member {
            Member::Unnamed(index) => index as usize,
            Member::Named(_) => return Ok(None),
        };
        let elems = match self.tuple_expr_or_origin(base) {
            Some(elems) => elems,
            None => return Ok(None),
        };
        if elems.nth(index).is_none() {
            return Ok(None);
        }
        let items = match self.infer_item_types(limit, &elems, Some(index), &elem.rust_ty)? {
            Some(items) => items,
            None => return Ok(None),
        };
        let tuple = match compile(self.env, &Rc::new(Type::Tuple(items)))? {
            Some(tuple) => tuple,
            None => return Ok(None),
        };
        let _ = self.infer_expr(limit, base, &Some(share(&tuple)))?;
        Ok(Some(tuple))
    }

    fn infer_item_types(
        &mut self,
        limit: u64,
        elems: &List<Expr>,
        given_at: Option<usize>,
        given: &Rc<Type>,
    ) -> (r: Result<Option<List<Type>>, Stop>)
        ensures
            state::agrees(
                r,
                final(self)@,
                walk::item_types(
                    old(self).frame(),
                    limit as nat,
                    old(self)@,
                    *elems,
                    given_at,
                    *given,
                ),
            ),
            final(self).frame() == old(self).frame(),
            sound::sound(old(self)@) ==> sound::advances(old(self)@, final(self)@),
        decreases limit, 12int, elems,
    {
        match elems {
            List::Nil => Ok(Some(List::Nil)),
            List::Cons(elem, rest) => {
                let first = match given_at {
                    Some(0) => Some(share(given)),
                    _ => self.infer_expr_syn_type(limit, elem, &None)?,
                };
                let left = match given_at {
                    Some(index) => if index == 0 {
                        None
                    } else {
                        Some(index - 1)
                    },
                    None => None,
                };
                match first {
                    None => Ok(None),
                    Some(ty) => match self.infer_item_types(limit, rest, left, given)? {
                        Some(more) => Ok(Some(List::prepend(ty, more))),
                        None => Ok(None),
                    },
                }
            },
        }
    }

    pub fn infer_index(
        &mut self,
        limit: u64,
        base: &Rc<Expr>,
        index: &Rc<Expr>,
        expected: &Option<Rc<TileType>>,
    ) -> (r: Result<Option<Rc<TileType>>, Stop>)
        ensures
            state::agrees(
                r,
                final(self)@,
                walk::index_rule(
                    old(self).frame(),
                    limit as nat,
                    old(self)@,
                    **base,
                    **index,
                    *expected,
                ),
            ),
            final(self).frame() == old(self).frame(),
            sound::sound(old(self)@) ==> sound::advances(old(self)@, final(self)@),
        decreases limit, 2int, old(self)@,
    {
        match self.infer_expr(limit, base, &None)? {
            None => match expected {
                None => Ok(None),
                Some(elem) => match self.expected_array_type_from_index_base(base, elem)? {
                    None => Ok(None),
                    Some(array) => {
                        let _ = self.infer_expr(limit, base, &Some(array))?;
                        Ok(share_opt(expected))
                    },
                },
            },
            Some(base_ty) => match self.type_of_index(&base_ty.rust_ty, index) {
                Some(ty) => compile(self.env, &ty),
                None => Ok(None),
            },
        }
    }

    pub fn infer_struct(
        &mut self,
        limit: u64,
        path: &Path,
        fields: &List<FieldValue>,
        expected: &Option<Rc<TileType>>,
    ) -> (r: Result<Option<Rc<TileType>>, Stop>)
        ensures
            state::agrees(
                r,
                final(self)@,
                walk::struct_rule(
                    old(self).frame(),
                    limit as nat,
                    old(self)@,
                    *path,
                    *fields,
                    *expected,
                ),
            ),
            final(self).frame() == old(self).frame(),
            sound::sound(old(self)@) ==> sound::advances(old(self)@, final(self)@),
        decreases limit, 12int, old(self)@,
    {
        let name = match path_last_name(path) {
            Some(name) => name,
            None => return Ok(share_opt(expected)),
        };
        self.infer_field_values(limit, name, fields)?;
        let ty = compile(self.env, &path_type(path))?;
        Ok(first_of(ty, share_opt(expected)))
    }

    fn infer_field_values(
        &mut self,
        limit: u64,
        struct_name: Symbol,
        fields: &List<FieldValue>,
    ) -> (r: Result<(), Stop>)
        ensures
            state::agrees(
                r,
                final(self)@,
                walk::field_values(
                    old(self).frame(),
                    limit as nat,
                    old(self)@,
                    struct_name,
                    *fields,
                ),
            ),
            final(self).frame() == old(self).frame(),
            sound::sound(old(self)@) ==> sound::advances(old(self)@, final(self)@),
        decreases limit, 11int, fields,
    {
        match fields {
            List::Nil => Ok(()),
            List::Cons(field, rest) => {
                let expected = self.expected_field_type(struct_name, field.member)?;
                let _ = self.infer_expr(limit, &field.expr, &expected)?;
                self.infer_field_values(limit, struct_name, rest)
            },
        }
    }

    pub fn infer_cast_target(
        &mut self,
        limit: u64,
        expr: &Rc<Expr>,
        source: &Rc<Expr>,
        ty: &Rc<Type>,
    ) -> (r: Result<Option<Rc<TileType>>, Stop>)
        ensures
            state::agrees(
                r,
                final(self)@,
                walk::cast_rule(old(self).frame(), limit as nat, old(self)@, **expr, **source, *ty),
            ),
            final(self).frame() == old(self).frame(),
            sound::sound(old(self)@) ==> sound::advances(old(self)@, final(self)@),
        decreases limit, 2int, old(self)@,
    {
        let _ = self.infer_expr(limit, source, &None)?;
        self.file_resolved(expr, ty);
        match compile_under(self.env, ty, &List::Nil)? {
            Ok(tile) => Ok(tile),
            Err(error) => {
                if is_surface_only_scalar_type(ty) {
                    Ok(None)
                } else {
                    Err(Stop::Failed(error))
                }
            },
        }
    }

    pub fn infer_closure(
        &mut self,
        limit: u64,
        params: &List<ClosureParam>,
        body: &Rc<Expr>,
        given: &List<TileType>,
        expected: &Option<Rc<TileType>>,
    ) -> (r: Result<(), Stop>)
        ensures
            state::agrees(
                r,
                final(self)@,
                walk::closure_rule(
                    old(self).frame(),
                    limit as nat,
                    old(self)@,
                    *params,
                    **body,
                    *given,
                    *expected,
                ),
            ),
            final(self).frame() == old(self).frame(),
            sound::sound(old(self)@) ==> sound::advances(old(self)@, final(self)@),
        decreases limit, 2int, old(self)@,
    {
        let mut nested = self.fork();
        nested.bind_closure_params(params, given)?;
        let _ = nested.infer_expr(limit, body, expected)?;
        self.leave(nested);
        Ok(())
    }

    pub fn infer_assignment(
        &mut self,
        limit: u64,
        name: Symbol,
        value: &Rc<Expr>,
    ) -> (r: Result<(), Stop>)
        ensures
            state::agrees(
                r,
                final(self)@,
                walk::assign_rule(old(self).frame(), limit as nat, old(self)@, name, **value),
            ),
            final(self).frame() == old(self).frame(),
            sound::sound(old(self)@) ==> sound::advances(old(self)@, final(self)@),
        decreases limit, 2int, old(self)@,
    {
        if let Some(term) = self.local_term(name) {
            let known = self.inference.term_known_type(&term);
            let value_term = self.infer_expr_term(limit, value, &known)?;
            let term = self.unify_terms(&term, &value_term);
            self.bind_inferred_var(name, &term);
            return Ok(());
        }
        let ty = self.var_type(name);
        let value_ty = self.infer_expr(limit, value, &ty)?;
        if let Some(ty) = first_of(value_ty, ty) {
            self.bind_tile_var(name, &ty);
        }
        Ok(())
    }

    pub fn infer_bool_binary(
        &mut self,
        limit: u64,
        op: BinOp,
        left: &Rc<Expr>,
        right: &Rc<Expr>,
    ) -> (r: Result<Option<Rc<TileType>>, Stop>)
        ensures
            state::agrees(
                r,
                final(self)@,
                walk::bool_binary_rule(
                    old(self).frame(),
                    limit as nat,
                    old(self)@,
                    op,
                    **left,
                    **right,
                ),
            ),
            final(self).frame() == old(self).frame(),
            sound::sound(old(self)@) ==> sound::advances(old(self)@, final(self)@),
        decreases limit, 2int, old(self)@,
    {
        let tile = self.bool_type()?;
        if binary_operands_are_bool(op) {
            let _ = self.infer_expr(limit, left, &tile)?;
            let _ = self.infer_expr(limit, right, &tile)?;
            return Ok(tile);
        }
        let lhs = self.infer_expr_term(limit, left, &None)?;
        let rhs = self.infer_expr_term(limit, right, &None)?;
        let _ = self.unify_terms(&lhs, &rhs);
        Ok(tile)
    }

    fn infer_binary(
        &mut self,
        limit: u64,
        expr: &Rc<Expr>,
        op: BinOp,
        left: &Rc<Expr>,
        right: &Rc<Expr>,
        expected: &Option<Rc<TileType>>,
    ) -> (r: Result<Option<Rc<TileType>>, Stop>)
        ensures
            state::agrees(
                r,
                final(self)@,
                walk::binary_rule(
                    old(self).frame(),
                    limit as nat,
                    old(self)@,
                    **expr,
                    op,
                    **left,
                    **right,
                    *expected,
                ),
            ),
            final(self).frame() == old(self).frame(),
            sound::sound(old(self)@) ==> sound::advances(old(self)@, final(self)@),
        decreases limit, 3int, old(self)@,
    {
        if binary_result_is_bool(op) {
            return self.infer_bool_binary(limit, op, left, right);
        }
        if expected.is_none() && binary_result_matches_operands(op) {
            let term = self.infer_expr_term(limit, expr, &None)?;
            return Ok(self.settle(expr, &term));
        }
        if is_unsuffixed_numeric_literal(left) {
            let rhs = self.infer_expr(limit, right, expected)?;
            let wanted = first_of(share_opt(&rhs), share_opt(expected));
            let lhs = self.infer_expr(limit, left, &wanted)?;
            return Ok(first_of(lhs, wanted));
        }
        let lhs = self.infer_expr(limit, left, expected)?;
        let wanted = first_of(share_opt(&lhs), share_opt(expected));
        let rhs = self.infer_expr(limit, right, &wanted)?;
        if lhs.is_none() && rhs.is_some() {
            let _ = self.infer_expr(limit, left, &rhs)?;
            return Ok(rhs);
        }
        Ok(first_of(lhs, first_of(rhs, share_opt(expected))))
    }

    pub fn infer_expr_term(
        &mut self,
        limit: u64,
        expr: &Rc<Expr>,
        expected: &Option<Rc<TileType>>,
    ) -> (r: Result<InferredTy, Stop>)
        ensures
            state::agrees(
                r,
                final(self)@,
                walk::expr_term(old(self).frame(), limit as nat, old(self)@, **expr, *expected),
            ),
            final(self).frame() == old(self).frame(),
            sound::sound(old(self)@) ==> sound::advances(old(self)@, final(self)@) && (r is Ok
                ==> sound::owns(final(self)@, r->Ok_0)),
        decreases limit, 0int, old(self)@,
    {
        if limit == 0 {
            return Err(Stop::LimitReached);
        }
        self.infer_expr_term_inner(limit - 1, expr, expected)
    }

    fn infer_expr_term_inner(
        &mut self,
        limit: u64,
        expr: &Rc<Expr>,
        expected: &Option<Rc<TileType>>,
    ) -> (r: Result<InferredTy, Stop>)
        ensures
            state::agrees(
                r,
                final(self)@,
                walk::term_rule(old(self).frame(), limit as nat, old(self)@, **expr, *expected),
            ),
            final(self).frame() == old(self).frame(),
            sound::sound(old(self)@) ==> sound::advances(old(self)@, final(self)@) && (r is Ok
                ==> sound::owns(final(self)@, r->Ok_0)),
        decreases limit, 40int, old(self)@,
    {
        let existing = self.expr_term(expr);
        if let Some(ty) = expected {
            if let Some(term) = existing {
                let term = self.unify_with_known(&term, ty);
                self.record_expr_term(expr, &term);
                return Ok(term);
            }
            return match self.infer_expr(limit, expr, expected)? {
                Some(found) => Ok(InferredTy::Known(found)),
                None => Ok(InferredTy::Known(share(ty))),
            };
        }
        match existing {
            Some(term) => Ok(term),
            None => self.infer_new_term(limit, expr),
        }
    }

    fn infer_new_term(&mut self, limit: u64, expr: &Rc<Expr>) -> (r: Result<InferredTy, Stop>)
        ensures
            state::agrees(
                r,
                final(self)@,
                walk::new_term(old(self).frame(), limit as nat, old(self)@, **expr),
            ),
            final(self).frame() == old(self).frame(),
            sound::sound(old(self)@) ==> sound::advances(old(self)@, final(self)@) && (r is Ok
                ==> sound::owns(final(self)@, r->Ok_0)),
        decreases limit, 39int, old(self)@,
    {
        match &expr.kind {
            ExprKind::Path { qself, path } => self.infer_path_term(expr, qself, path),
            ExprKind::Lit { lit, ty } => match ty {
                Some(ty) => match compile(self.env, ty)? {
                    Some(tile) => Ok(InferredTy::Known(tile)),
                    None => Ok(InferredTy::Unknown),
                },
                None => Ok(self.literal_infer_var(expr, lit)),
            },
            ExprKind::Unary { op: UnOp::Neg, expr: inner } => {
                self.infer_same_term(limit, expr, inner)
            },
            ExprKind::Paren(inner) => self.infer_same_term(limit, expr, inner),
            ExprKind::Block(block) => self.infer_block_expr_term(limit, expr, block),
            ExprKind::Unsafe(block) => self.infer_block_expr_term(limit, expr, block),
            ExprKind::Binary { op, left, right } => {
                if binary_result_matches_operands(*op) {
                    let lhs = self.infer_expr_term(limit, left, &None)?;
                    let rhs = self.infer_expr_term(limit, right, &None)?;
                    let term = self.unify_terms(&lhs, &rhs);
                    self.record_expr_term(expr, &term);
                    Ok(term)
                } else if binary_result_is_bool(*op) {
                    let tile = match self.bool_type()? {
                        Some(tile) => tile,
                        None => return Ok(InferredTy::Unknown),
                    };
                    let _ = self.infer_bool_binary(limit, *op, left, right)?;
                    let term = InferredTy::Known(tile);
                    self.record_expr_term(expr, &term);
                    Ok(term)
                } else {
                    self.infer_other_term(limit, expr)
                }
            },
            ExprKind::Cast { expr: source, ty } => {
                match self.infer_cast_target(limit, expr, source, ty)? {
                    Some(tile) => {
                        let term = InferredTy::Known(tile);
                        self.record_expr_term(expr, &term);
                        Ok(term)
                    },
                    None => Ok(InferredTy::Unknown),
                }
            },
            ExprKind::If { cond, then_branch, else_branch } => {
                let _ = self.infer_condition(limit, cond)?;
                let term = self.infer_if_expr_term(limit, then_branch, else_branch)?;
                self.record_expr_term(expr, &term);
                Ok(term)
            },
            _ => self.infer_other_term(limit, expr),
        }
    }

    fn infer_other_term(&mut self, limit: u64, expr: &Rc<Expr>) -> (r: Result<InferredTy, Stop>)
        ensures
            state::agrees(
                r,
                final(self)@,
                walk::other_term(old(self).frame(), limit as nat, old(self)@, **expr),
            ),
            final(self).frame() == old(self).frame(),
            sound::sound(old(self)@) ==> sound::advances(old(self)@, final(self)@) && (r is Ok
                ==> sound::owns(final(self)@, r->Ok_0)),
        decreases limit, 2int, old(self)@,
    {
        match self.infer_expr(limit, expr, &None)? {
            Some(ty) => Ok(InferredTy::Known(ty)),
            None => Ok(InferredTy::Unknown),
        }
    }

    fn infer_same_term(
        &mut self,
        limit: u64,
        expr: &Rc<Expr>,
        inner: &Rc<Expr>,
    ) -> (r: Result<InferredTy, Stop>)
        ensures
            state::agrees(
                r,
                final(self)@,
                walk::same_term(old(self).frame(), limit as nat, old(self)@, **expr, **inner),
            ),
            final(self).frame() == old(self).frame(),
            sound::sound(old(self)@) ==> sound::advances(old(self)@, final(self)@) && (r is Ok
                ==> sound::owns(final(self)@, r->Ok_0)),
        decreases limit, 2int, old(self)@,
    {
        let term = self.infer_expr_term(limit, inner, &None)?;
        self.record_expr_term(expr, &term);
        Ok(term)
    }

    fn infer_block_expr_term(
        &mut self,
        limit: u64,
        expr: &Rc<Expr>,
        block: &Block,
    ) -> (r: Result<InferredTy, Stop>)
        ensures
            state::agrees(
                r,
                final(self)@,
                walk::block_expr_term(old(self).frame(), limit as nat, old(self)@, **expr, *block),
            ),
            final(self).frame() == old(self).frame(),
            sound::sound(old(self)@) ==> sound::advances(old(self)@, final(self)@) && (r is Ok
                ==> sound::owns(final(self)@, r->Ok_0)),
        decreases limit, 13int, old(self)@,
    {
        let term = self.infer_block_term(limit, block)?;
        if matches!(term, InferredTy::Unknown) {
            if let Some(ty) = self.infer_expr(limit, expr, &None)? {
                return Ok(InferredTy::Known(ty));
            }
        }
        self.record_expr_term(expr, &term);
        Ok(term)
    }

    pub fn infer_block_term(&mut self, limit: u64, block: &Block) -> (r: Result<InferredTy, Stop>)
        ensures
            state::agrees(
                r,
                final(self)@,
                walk::block_term(old(self).frame(), limit as nat, old(self)@, *block),
            ),
            final(self).frame() == old(self).frame(),
            sound::sound(old(self)@) ==> sound::advances(old(self)@, final(self)@) && (r is Ok
                ==> sound::owns(final(self)@, r->Ok_0)),
        decreases limit, 12int, old(self)@,
    {
        self.infer_stmts_term(limit, &block.stmts)
    }

    fn infer_stmts_term(&mut self, limit: u64, stmts: &List<Stmt>) -> (r: Result<InferredTy, Stop>)
        ensures
            state::agrees(
                r,
                final(self)@,
                walk::stmts_term(old(self).frame(), limit as nat, old(self)@, *stmts),
            ),
            final(self).frame() == old(self).frame(),
            sound::sound(old(self)@) ==> sound::advances(old(self)@, final(self)@) && (r is Ok
                ==> sound::owns(final(self)@, r->Ok_0)),
        decreases limit, 11int, stmts,
    {
        match stmts {
            List::Nil => Ok(InferredTy::Unknown),
            List::Cons(stmt, rest) => {
                if !rest.is_empty() {
                    let _ = self.infer_stmt(limit, stmt, &None)?;
                    return self.infer_stmts_term(limit, rest);
                }
                match &**stmt {
                    Stmt::Expr { expr, semi } => {
                        if *semi {
                            let _ = self.infer_expr(limit, expr, &None)?;
                            Ok(InferredTy::Unknown)
                        } else {
                            self.infer_expr_term(limit, expr, &None)
                        }
                    },
                    _ => {
                        let _ = self.infer_stmt(limit, stmt, &None)?;
                        Ok(InferredTy::Unknown)
                    },
                }
            },
        }
    }

    pub fn infer_if_expr_term(
        &mut self,
        limit: u64,
        then_branch: &Block,
        else_branch: &Option<Rc<Expr>>,
    ) -> (r: Result<InferredTy, Stop>)
        ensures
            state::agrees(
                r,
                final(self)@,
                walk::if_term(
                    old(self).frame(),
                    limit as nat,
                    old(self)@,
                    *then_branch,
                    *else_branch,
                ),
            ),
            final(self).frame() == old(self).frame(),
            sound::sound(old(self)@) ==> sound::advances(old(self)@, final(self)@) && (r is Ok
                ==> sound::owns(final(self)@, r->Ok_0)),
        decreases limit, 14int, old(self)@,
    {
        let then_side = self.infer_block_branch_term(limit, then_branch)?;
        let else_side = self.infer_expr_branch_term(limit, else_branch)?;
        Ok(self.join_branch_terms(then_side, else_side))
    }

    pub fn infer_block_branch_term(
        &mut self,
        limit: u64,
        block: &Block,
    ) -> (r: Result<BranchTerm, Stop>)
        ensures
            state::agrees(
                r,
                final(self)@,
                walk::then_term(old(self).frame(), limit as nat, old(self)@, *block),
            ),
            final(self).frame() == old(self).frame(),
            sound::sound(old(self)@) ==> sound::advances(old(self)@, final(self)@) && (r is Ok
                ==> sound::owns_branch(final(self)@, r->Ok_0)),
        decreases limit, 13int, old(self)@,
    {
        if block_diverges(block) {
            let _ = self.infer_block(limit, block, &None)?;
            return Ok(BranchTerm::Diverges);
        }
        let term = self.infer_block_term(limit, block)?;
        Ok(BranchTerm::from_term(term))
    }

    pub fn infer_expr_branch_term(
        &mut self,
        limit: u64,
        other: &Option<Rc<Expr>>,
    ) -> (r: Result<BranchTerm, Stop>)
        ensures
            state::agrees(
                r,
                final(self)@,
                walk::else_term(old(self).frame(), limit as nat, old(self)@, *other),
            ),
            final(self).frame() == old(self).frame(),
            sound::sound(old(self)@) ==> sound::advances(old(self)@, final(self)@) && (r is Ok
                ==> sound::owns_branch(final(self)@, r->Ok_0)),
        decreases limit, 13int, old(self)@,
    {
        let expr = match other {
            Some(expr) => expr,
            None => return Ok(BranchTerm::Unknown),
        };
        if expr_diverges(expr) {
            let _ = self.infer_expr(limit, expr, &None)?;
            return Ok(BranchTerm::Diverges);
        }
        let term = self.infer_expr_term(limit, expr, &None)?;
        Ok(BranchTerm::from_term(term))
    }

    pub fn infer_expr_syn_type(
        &mut self,
        limit: u64,
        expr: &Rc<Expr>,
        expected: &Option<Rc<TileType>>,
    ) -> (r: Result<Option<Rc<Type>>, Stop>)
        ensures
            state::agrees(
                r,
                final(self)@,
                walk::written_type(old(self).frame(), limit as nat, old(self)@, **expr, *expected),
            ),
            final(self).frame() == old(self).frame(),
            sound::sound(old(self)@) ==> sound::advances(old(self)@, final(self)@),
        decreases limit, 5int, expr,
    {
        if let Some(ty) = self.infer_expr(limit, expr, expected)? {
            return Ok(Some(share(&ty.rust_ty)));
        }
        if let Some(ty) = self.results.syn_expr_type(expr) {
            return Ok(Some(ty));
        }
        match &expr.kind {
            ExprKind::Path { qself: _, path } => match path_single_name(path) {
                Some(name) => Ok(self.syn_var(name)),
                None => Ok(None),
            },
            ExprKind::Paren(inner) => self.infer_expr_syn_type(limit, inner, &None),
            ExprKind::Reference { mutable, expr: inner } => {
                match self.infer_expr_syn_type(limit, inner, &None)? {
                    Some(ty) => Ok(Some(make_reference(*mutable, ty))),
                    None => Ok(None),
                }
            },
            _ => Ok(None),
        }
    }

    pub fn infer_for_iter_ty(
        &mut self,
        limit: u64,
        iter: &Rc<Expr>,
    ) -> (r: Result<Option<Rc<TileType>>, Stop>)
        ensures
            state::agrees(
                r,
                final(self)@,
                walk::iter_rule(old(self).frame(), limit as nat, old(self)@, **iter),
            ),
            final(self).frame() == old(self).frame(),
            sound::sound(old(self)@) ==> sound::advances(old(self)@, final(self)@),
        decreases limit, 11int, old(self)@,
    {
        if let ExprKind::MethodCall { receiver, method, turbofish: _, args } = &iter.kind {
            if *method == names::ITER_INDICES && args.is_empty() {
                if let Some(item) = self.infer_partition_items(limit, receiver)? {
                    return Ok(item);
                }
            } else if *method == names::STEP_BY {
                let inner = match &receiver.kind {
                    ExprKind::Paren(inner) => share(inner),
                    _ => share(receiver),
                };
                if let ExprKind::Range { start, end } = &inner.kind {
                    self.infer_args(limit, args)?;
                    return self.infer_range(limit, start, end);
                }
            }
        }
        self.infer_plain_iter(limit, iter)
    }

    fn infer_plain_iter(
        &mut self,
        limit: u64,
        iter: &Rc<Expr>,
    ) -> (r: Result<Option<Rc<TileType>>, Stop>)
        ensures
            state::agrees(
                r,
                final(self)@,
                walk::plain_iter(old(self).frame(), limit as nat, old(self)@, **iter),
            ),
            final(self).frame() == old(self).frame(),
            sound::sound(old(self)@) ==> sound::advances(old(self)@, final(self)@),
        decreases limit, 2int, old(self)@,
    {
        match self.infer_expr(limit, iter, &None)? {
            None => Ok(None),
            Some(ty) => {
                let (ident, _) = ask_head(self.env, &ty.rust_ty)?;
                if let Some(ident) = ident {
                    if ident == names::DIM {
                        return compile(self.env, &bare_type(names::I32));
                    }
                }
                Ok(Some(ty))
            },
        }
    }

    fn infer_args(&mut self, limit: u64, args: &List<Expr>) -> (r: Result<(), Stop>)
        ensures
            state::agrees(
                r,
                final(self)@,
                walk::args_read(old(self).frame(), limit as nat, old(self)@, *args),
            ),
            final(self).frame() == old(self).frame(),
            sound::sound(old(self)@) ==> sound::advances(old(self)@, final(self)@),
        decreases limit, 1int, args,
    {
        match args {
            List::Nil => Ok(()),
            List::Cons(arg, rest) => {
                let _ = self.infer_expr(limit, arg, &None)?;
                self.infer_args(limit, rest)
            },
        }
    }

    fn infer_partition_items(
        &mut self,
        limit: u64,
        receiver: &Rc<Expr>,
    ) -> (r: Result<Option<Option<Rc<TileType>>>, Stop>)
        ensures
            state::agrees(
                r,
                final(self)@,
                walk::partition_items(old(self).frame(), limit as nat, old(self)@, **receiver),
            ),
            final(self).frame() == old(self).frame(),
            sound::sound(old(self)@) ==> sound::advances(old(self)@, final(self)@),
        decreases limit, 10int, old(self)@,
    {
        match self.infer_expr_syn_type(limit, receiver, &None)? {
            None => Ok(None),
            Some(ty) => self.index_type_of_partition(&ty),
        }
    }

    pub fn infer_call_arg_types(
        &mut self,
        limit: u64,
        args: &List<Expr>,
    ) -> (r: Result<List<TileType>, Stop>)
        ensures
            state::agrees(
                r,
                final(self)@,
                walk::arg_types(old(self).frame(), limit as nat, old(self)@, *args),
            ),
            final(self).frame() == old(self).frame(),
            sound::sound(old(self)@) ==> sound::advances(old(self)@, final(self)@),
        decreases limit, 1int, args,
    {
        match args {
            List::Nil => Ok(List::Nil),
            List::Cons(arg, rest) => match self.infer_expr(limit, arg, &None)? {
                None => Ok(List::Nil),
                Some(ty) => {
                    let more = self.infer_call_arg_types(limit, rest)?;
                    if more.is_empty() && !rest.is_empty() {
                        Ok(List::Nil)
                    } else {
                        Ok(List::prepend(ty, more))
                    }
                },
            },
        }
    }

    pub fn infer_call(
        &mut self,
        limit: u64,
        call: &Rc<Expr>,
        func: &Rc<Expr>,
        args: &List<Expr>,
        expected: &Option<Rc<TileType>>,
    ) -> (r: Result<Option<Rc<TileType>>, Stop>)
        ensures
            state::agrees(
                r,
                final(self)@,
                walk::call_rule(
                    old(self).frame(),
                    limit as nat,
                    old(self)@,
                    **call,
                    *func,
                    *args,
                    *expected,
                ),
            ),
            final(self).frame() == old(self).frame(),
            sound::sound(old(self)@) ==> sound::advances(old(self)@, final(self)@),
        decreases limit, 38int, old(self)@,
    {
        let path = match &func.kind {
            ExprKind::Path { qself: _, path } => path,
            _ => return Ok(share_opt(expected)),
        };
        if let Some(ty) = self.infer_dim_call(limit, path, args)? {
            return Ok(ty);
        }
        let name = match path_last_name(path) {
            Some(name) => name,
            None => return self.infer_unknown_call(limit, args, expected),
        };
        if name == names::WITH_VALUE {
            if let Some(arg) = sole_arg(args) {
                return self.infer_some_call(limit, &arg, expected);
            }
        }
        match find_function(&self.env.functions, name) {
            None => self.infer_unknown_call(limit, args, expected),
            Some(item) => self.infer_function_call(limit, &item, call, func, args, expected),
        }
    }

    fn infer_unknown_call(
        &mut self,
        limit: u64,
        args: &List<Expr>,
        expected: &Option<Rc<TileType>>,
    ) -> (r: Result<Option<Rc<TileType>>, Stop>)
        ensures
            state::agrees(
                r,
                final(self)@,
                walk::unknown_call(old(self).frame(), limit as nat, old(self)@, *args, *expected),
            ),
            final(self).frame() == old(self).frame(),
            sound::sound(old(self)@) ==> sound::advances(old(self)@, final(self)@),
        decreases limit, 2int, old(self)@,
    {
        let _ = self.infer_call_arg_types(limit, args)?;
        Ok(share_opt(expected))
    }

    fn infer_dim_call(
        &mut self,
        limit: u64,
        path: &Path,
        args: &List<Expr>,
    ) -> (r: Result<Option<Option<Rc<TileType>>>, Stop>)
        ensures
            state::agrees(
                r,
                final(self)@,
                walk::dim_call(old(self).frame(), limit as nat, old(self)@, *path, *args),
            ),
            final(self).frame() == old(self).frame(),
            sound::sound(old(self)@) ==> sound::advances(old(self)@, final(self)@),
        decreases limit, 2int, old(self)@,
    {
        match sole_arg(args) {
            Some(arg) => {
                if !is_dim_new_call_path(path) {
                    return Ok(None);
                }
                match compile(self.env, &bare_type(names::I32))? {
                    None => Ok(None),
                    Some(integer) => {
                        let _ = self.infer_expr(limit, &arg, &Some(integer))?;
                        let ty = compile(self.env, &bare_type(names::DIM))?;
                        Ok(Some(ty))
                    },
                }
            },
            None => Ok(None),
        }
    }

    fn infer_some_call(
        &mut self,
        limit: u64,
        arg: &Rc<Expr>,
        expected: &Option<Rc<TileType>>,
    ) -> (r: Result<Option<Rc<TileType>>, Stop>)
        ensures
            state::agrees(
                r,
                final(self)@,
                walk::some_call(old(self).frame(), limit as nat, old(self)@, **arg, *expected),
            ),
            final(self).frame() == old(self).frame(),
            sound::sound(old(self)@) ==> sound::advances(old(self)@, final(self)@),
        decreases limit, 2int, old(self)@,
    {
        match expected {
            Some(option) => {
                let payload = match option_payload_syn_type(&option.rust_ty) {
                    Some(ty) => compile_if_any(self.env, &ty)?,
                    None => None,
                };
                let _ = self.infer_expr(limit, arg, &payload)?;
                Ok(share_opt(expected))
            },
            None => match self.infer_expr(limit, arg, &None)? {
                None => Ok(None),
                Some(payload) => compile(self.env, &option_type(share(&payload.rust_ty))),
            },
        }
    }

    fn infer_function_call(
        &mut self,
        limit: u64,
        item: &FnItem,
        call: &Rc<Expr>,
        func: &Rc<Expr>,
        args: &List<Expr>,
        expected: &Option<Rc<TileType>>,
    ) -> (r: Result<Option<Rc<TileType>>, Stop>)
        ensures
            state::agrees(
                r,
                final(self)@,
                walk::function_call(
                    old(self).frame(),
                    limit as nat,
                    old(self)@,
                    *item,
                    **call,
                    *func,
                    *args,
                    *expected,
                ),
            ),
            final(self).frame() == old(self).frame(),
            sound::sound(old(self)@) ==> sound::advances(old(self)@, final(self)@),
        decreases limit, 37int, old(self)@,
    {
        self.infer_signature_closure_args(limit, item, func, args, expected)?;
        let types = self.infer_function_call_arg_types(limit, item, func, args, expected)?;
        if let Some(lowered) = ask_unwrapped(self.env, item.id, call)? {
            if let Some(selected) = self.infer_method_call_selection(limit, &lowered)? {
                let return_type = share_opt(&selected.return_type);
                self.file_lowered(call, lowered, selected);
                return Ok(first_of(return_type, share_opt(expected)));
            }
        }
        self.infer_function_return(limit, item, call, func, args, &types, expected)
    }

    pub fn infer_function_call_arg_types(
        &mut self,
        limit: u64,
        item: &FnItem,
        func: &Rc<Expr>,
        args: &List<Expr>,
        expected: &Option<Rc<TileType>>,
    ) -> (r: Result<List<TileType>, Stop>)
        ensures
            state::agrees(
                r,
                final(self)@,
                walk::call_arg_types(
                    old(self).frame(),
                    limit as nat,
                    old(self)@,
                    *item,
                    *func,
                    *args,
                    *expected,
                ),
            ),
            final(self).frame() == old(self).frame(),
            sound::sound(old(self)@) ==> sound::advances(old(self)@, final(self)@),
        decreases limit, 12int, old(self)@,
    {
        let wanted = self.expected_function_arg_types(limit, item, func, expected)?;
        self.infer_args_against_params(limit, args, &item.param_types, &wanted)
    }

    fn infer_args_against_params(
        &mut self,
        limit: u64,
        args: &List<Expr>,
        params: &List<Type>,
        wanted: &List<Option<Rc<TileType>>>,
    ) -> (r: Result<List<TileType>, Stop>)
        ensures
            state::agrees(
                r,
                final(self)@,
                walk::args_against_params(
                    old(self).frame(),
                    limit as nat,
                    old(self)@,
                    *args,
                    *params,
                    *wanted,
                ),
            ),
            final(self).frame() == old(self).frame(),
            sound::sound(old(self)@) ==> sound::advances(old(self)@, final(self)@),
        decreases limit, 11int, args,
    {
        match args {
            List::Nil => Ok(List::Nil),
            List::Cons(arg, rest) => {
                let own = match wanted {
                    List::Cons(own, _) => share_opt(own),
                    List::Nil => None,
                };
                let own = match own {
                    Some(ty) => Some(ty),
                    None => match params {
                        List::Cons(param, _) => self.scalar_param_type(param)?,
                        List::Nil => None,
                    },
                };
                match self.infer_expr(limit, arg, &own)? {
                    None => Ok(List::Nil),
                    Some(ty) => {
                        let more = self.infer_args_against_params(
                            limit,
                            rest,
                            &without_first(params),
                            &without_first(wanted),
                        )?;
                        if more.is_empty() && !rest.is_empty() {
                            Ok(List::Nil)
                        } else {
                            Ok(List::prepend(ty, more))
                        }
                    },
                }
            },
        }
    }

    pub fn infer_signature_closure_args(
        &mut self,
        limit: u64,
        item: &FnItem,
        func: &Rc<Expr>,
        args: &List<Expr>,
        expected: &Option<Rc<TileType>>,
    ) -> (r: Result<(), Stop>)
        ensures
            state::agrees(
                r,
                final(self)@,
                walk::closure_args(
                    old(self).frame(),
                    limit as nat,
                    old(self)@,
                    *item,
                    *func,
                    *args,
                    *expected,
                ),
            ),
            final(self).frame() == old(self).frame(),
            sound::sound(old(self)@) ==> sound::advances(old(self)@, final(self)@),
        decreases limit, 12int, old(self)@,
    {
        let signatures = find_closure_signatures(item, args, &item.param_types);
        if !any_signature(&signatures) {
            return Ok(());
        }
        let wanted = closure_signature_generic_names(&item.generics, &signatures);
        let solver = self.solver_for_call(item, func, expected);
        self.infer_args_for_closures(limit, args, &item.param_types, &signatures, &wanted, &solver)
    }

    fn infer_args_for_closures(
        &mut self,
        limit: u64,
        args: &List<Expr>,
        params: &List<Type>,
        signatures: &List<Option<ClosureSignature>>,
        wanted: &HashSet<Symbol>,
        solver: &Solver,
    ) -> (r: Result<(), Stop>)
        ensures
            state::agrees(
                r,
                final(self)@,
                walk::args_for_closures(
                    old(self).frame(),
                    limit as nat,
                    old(self)@,
                    *args,
                    *params,
                    *signatures,
                    wanted@,
                    *solver,
                ),
            ),
            final(self).frame() == old(self).frame(),
            sound::sound(old(self)@) ==> sound::advances(old(self)@, final(self)@),
        decreases limit, 11int, args,
    {
        match (args, params, signatures) {
            (
                List::Cons(arg, args),
                List::Cons(param, params),
                List::Cons(signature, signatures),
            ) => {
                if let ExprKind::Closure { params: closure_params, body } = &arg.kind {
                    let known = match &**signature {
                        Some(signature) => self.instantiate_closure_signature(
                            limit,
                            signature,
                            solver,
                        )?,
                        None => None,
                    };
                    let (given, result) = match known {
                        Some((given, result)) => (given, result),
                        None => (List::Nil, None),
                    };
                    self.infer_closure(limit, closure_params, body, &given, &result)?;
                    return self.infer_args_for_closures(
                        limit,
                        args,
                        params,
                        signatures,
                        wanted,
                        solver,
                    );
                }
                let expected = self.expected_type_so_far(limit, param, solver)?;
                let solver = match self.infer_expr_syn_type(limit, arg, &expected)? {
                    Some(ty) => {
                        if type_mentions_any_name(param, wanted) && can_add_type_constraint(
                            param,
                            &ty,
                        ) {
                            solver.tell(Step::Constraint { param: share(param), arg: ty })
                        } else {
                            solver.dup()
                        }
                    },
                    None => solver.dup(),
                };
                self.infer_args_for_closures(limit, args, params, signatures, wanted, &solver)
            },
            _ => Ok(()),
        }
    }

    pub fn infer_method_call(
        &mut self,
        limit: u64,
        call: &Rc<Expr>,
        expected: &Option<Rc<TileType>>,
    ) -> (r: Result<Option<Rc<TileType>>, Stop>)
        ensures
            state::agrees(
                r,
                final(self)@,
                walk::method_call_rule(
                    old(self).frame(),
                    limit as nat,
                    old(self)@,
                    **call,
                    *expected,
                ),
            ),
            final(self).frame() == old(self).frame(),
            sound::sound(old(self)@) ==> sound::advances(old(self)@, final(self)@),
        decreases limit, 38int, old(self)@,
    {
        if let Some(ty) = self.infer_global_method_call(limit, call)? {
            return Ok(Some(ty));
        }
        match self.infer_method_call_selection(limit, call)? {
            Some(selected) => {
                let return_type = share_opt(&selected.return_type);
                self.file_selection(call, selected);
                Ok(first_of(return_type, share_opt(expected)))
            },
            None => Ok(share_opt(expected)),
        }
    }

    fn infer_global_args(
        &mut self,
        limit: u64,
        args: &List<Expr>,
        first: &Option<Rc<Type>>,
    ) -> (r: Result<(), Stop>)
        ensures
            state::agrees(
                r,
                final(self)@,
                walk::global_args(old(self).frame(), limit as nat, old(self)@, *args, *first),
            ),
            final(self).frame() == old(self).frame(),
            sound::sound(old(self)@) ==> sound::advances(old(self)@, final(self)@),
        decreases limit, 1int, args,
    {
        match args {
            List::Nil => Ok(()),
            List::Cons(arg, rest) => {
                let expected = match first {
                    Some(ty) => compile(self.env, ty)?,
                    None => None,
                };
                let _ = self.infer_expr(limit, arg, &expected)?;
                self.infer_global_args(limit, rest, &None)
            },
        }
    }

    pub fn infer_global_method_call(
        &mut self,
        limit: u64,
        call: &Rc<Expr>,
    ) -> (r: Result<Option<Rc<TileType>>, Stop>)
        ensures
            state::agrees(
                r,
                final(self)@,
                walk::global_call(old(self).frame(), limit as nat, old(self)@, **call),
            ),
            final(self).frame() == old(self).frame(),
            sound::sound(old(self)@) ==> sound::advances(old(self)@, final(self)@),
        decreases limit, 2int, old(self)@,
    {
        let (receiver, method, args) = match &call.kind {
            ExprKind::MethodCall { receiver, method, turbofish: _, args } => {
                (receiver, *method, args)
            },
            _ => return Ok(None),
        };
        let (element, shape) = match self.global_receiver_element_and_shape(receiver)? {
            Some(found) => found,
            None => return Ok(None),
        };
        let tile = global_tile_syn_type(&element, &shape);
        let token = bare_type(names::TOKEN);
        let takes_tile = method == names::ATOMIC_ADD || method == names::STORE;
        let ty = if method == names::LOAD || method == names::ATOMIC_ADD {
            Rc::new(Type::Tuple(List::prepend(share(&tile), List::one(token))))
        } else if method == names::STORE {
            token
        } else {
            return Ok(None);
        };
        let first = if takes_tile {
            Some(tile)
        } else {
            None
        };
        self.infer_global_args(limit, args, &first)?;
        self.file_resolved(call, &ty);
        compile(self.env, &ty)
    }

    fn infer_method_args(
        &mut self,
        limit: u64,
        args: &List<Expr>,
        wanted: &List<Type>,
        found: List<Type>,
    ) -> (r: Result<Option<List<Type>>, Stop>)
        ensures
            state::agrees(
                r,
                final(self)@,
                walk::method_args(
                    old(self).frame(),
                    limit as nat,
                    old(self)@,
                    *args,
                    *wanted,
                    found,
                ),
            ),
            final(self).frame() == old(self).frame(),
            sound::sound(old(self)@) ==> sound::advances(old(self)@, final(self)@),
        decreases limit, 11int, args,
    {
        match args {
            List::Nil => Ok(Some(found)),
            List::Cons(arg, rest) => {
                let expected = match wanted {
                    List::Cons(param, _) => self.compile_expected_param_type(limit, param)?,
                    List::Nil => None,
                };
                match self.infer_expr_syn_type(limit, arg, &expected)? {
                    None => Ok(None),
                    Some(ty) => {
                        let found = found.push(ty);
                        self.infer_method_args(limit, rest, &without_first(wanted), found)
                    },
                }
            },
        }
    }

    fn probe_method(
        &mut self,
        limit: u64,
        call: &Rc<Expr>,
        method: Symbol,
        turbofish: &Option<List<GenericArg>>,
        args: &List<Expr>,
        receiver: &Rc<Type>,
    ) -> (r: Result<Option<Rc<MethodSelection>>, Stop>)
        ensures
            state::agrees(
                r,
                final(self)@,
                walk::method_probe(
                    old(self).frame(),
                    limit as nat,
                    old(self)@,
                    **call,
                    method,
                    *turbofish,
                    *args,
                    *receiver,
                ),
            ),
            final(self).frame() == old(self).frame(),
            sound::sound(old(self)@) ==> sound::advances(old(self)@, final(self)@),
        decreases limit, 12int, old(self)@,
    {
        let wanted = match self.unique_inherent_method_arg_types(receiver, method)? {
            Some(wanted) => wanted,
            None => List::Nil,
        };
        match self.infer_method_args(limit, args, &wanted, List::one(share(receiver)))? {
            None => Ok(None),
            Some(types) => self.select_method_call(limit, call, turbofish, &types),
        }
    }

    fn first_method(
        &mut self,
        limit: u64,
        call: &Rc<Expr>,
        method: Symbol,
        turbofish: &Option<List<GenericArg>>,
        args: &List<Expr>,
        receivers: &List<Type>,
    ) -> (r: Result<Option<Rc<MethodSelection>>, Stop>)
        ensures
            state::agrees(
                r,
                final(self)@,
                walk::first_method(
                    old(self).frame(),
                    limit as nat,
                    old(self)@,
                    **call,
                    method,
                    *turbofish,
                    *args,
                    *receivers,
                ),
            ),
            final(self).frame() == old(self).frame(),
            sound::sound(old(self)@) ==> sound::advances(old(self)@, final(self)@),
        decreases limit, 13int, receivers,
    {
        match receivers {
            List::Nil => Ok(None),
            List::Cons(receiver, rest) => {
                let mut probe = self.fork();
                match probe.probe_method(limit, call, method, turbofish, args, receiver)? {
                    Some(selected) => {
                        self.commit_typeck_probe(probe);
                        Ok(Some(selected))
                    },
                    None => self.first_method(limit, call, method, turbofish, args, rest),
                }
            },
        }
    }

    pub fn infer_method_call_selection(
        &mut self,
        limit: u64,
        call: &Rc<Expr>,
    ) -> (r: Result<Option<Rc<MethodSelection>>, Stop>)
        ensures
            state::agrees(
                r,
                final(self)@,
                walk::method_selection(old(self).frame(), limit as nat, old(self)@, **call),
            ),
            final(self).frame() == old(self).frame(),
            sound::sound(old(self)@) ==> sound::advances(old(self)@, final(self)@),
        decreases limit, 14int, old(self)@,
    {
        let (receiver, method, turbofish, args) = match &call.kind {
            ExprKind::MethodCall { receiver, method, turbofish, args } => {
                (receiver, *method, turbofish, args)
            },
            _ => return Ok(None),
        };
        let ty = match self.infer_expr_syn_type(limit, receiver, &None)? {
            Some(ty) => ty,
            None => {
                let _ = self.infer_call_arg_types(limit, args)?;
                return Ok(None);
            },
        };
        let allow_mut = self.receiver_allows_mut_borrow(receiver, &ty);
        let receivers = receiver_adjustment_candidates(&self.env.names, &ty, allow_mut);
        if let Some(selected) = self.first_method(
            limit,
            call,
            method,
            turbofish,
            args,
            &receivers,
        )? {
            return Ok(Some(selected));
        }
        let _ = self.infer_call_arg_types(limit, args)?;
        Ok(None)
    }
}

} // verus!

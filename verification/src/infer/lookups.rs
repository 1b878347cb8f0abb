//! What inference looks up without reading an expression: types of constants, of fields, and
//! what is expected of arguments.
use crate::ask::{
    self, ask_bindings, ask_head, ask_normalized, ask_resolution, ask_scalar_tile, compile,
    compile_if_any,
};
use crate::env::{
    self, find_consts, find_field, find_impls, Resolution, Solver, Step, Stop, TileType, TraitImpl,
};
use crate::exprs::{
    self, count_literal, local_name, path_last_name, path_single_name, repeat_length_value,
};
use crate::generics;
use crate::infer::sound;
use crate::infer::state::{self, Frame, Outcome, StateView, TypeInferenceCx};
use crate::list::{share, List};
use crate::names;
use crate::resolvable::{self, type_is_fully_known, type_is_resolvable};
use crate::results;
use crate::scalar::{self, bare_type, is_builtin_scalar_name};
use crate::substitute::{self, substitute_resolved_generics, ClosureSignature};
use crate::syntax::{
    Block, Expr, ExprKind, FnItem, ImplItem, Lit, Path, QSelf, Stmt, Symbol, Type,
};
use crate::types::{
    self, global_element_type, global_shape, rank_from_type_shape_arg,
    replace_array_len_with_rank, scalar_type_name, single_syn_type,
    substitute_self_type, type_from_path_segment, type_has_impl_trait, type_is_mut_reference,
};
use crate::unify::{self, InferVarKind, InferredTy};
use std::rc::Rc;
use vstd::prelude::*;

verus! {

broadcast use crate::infer::sound::group_sound;

// Constants and statics.

/// The type of the constant that a path names.
pub open spec fn const_type(f: Frame, path: Path) -> Result<Option<Rc<TileType>>, Stop> {
    match ask::resolution(f.env, path) {
        Ok(Resolution::Const(ty)) => ask::compiled(f.env, *ty),
        Ok(_) => Ok(None),
        Err(stop) => Err(stop),
    }
}

/// The type of the static that a path names.
pub open spec fn static_type(f: Frame, path: Path) -> Result<Option<Rc<TileType>>, Stop> {
    match ask::resolution(f.env, path) {
        Ok(Resolution::Static(ty)) => ask::compiled(f.env, *ty),
        Ok(_) => Ok(None),
        Err(stop) => Err(stop),
    }
}

/// The type that a trait gives to an associated constant.
pub open spec fn trait_const(
    f: Frame,
    trait_name: Symbol,
    name: Symbol,
    self_ty: Type,
) -> Option<Type> {
    match env::consts_of(f.env.traits, trait_name) {
        Some(consts) => match env::field_type(consts, name) {
            Some(ty) => Some(types::with_self(ty, self_ty)),
            None => None,
        },
        None => None,
    }
}

/// The types that the given traits give to a constant.
pub open spec fn consts_of_traits(
    f: Frame,
    traits: List<Symbol>,
    name: Symbol,
    self_ty: Type,
) -> List<Type>
    decreases traits,
{
    match traits {
        List::Nil => List::Nil,
        List::Cons(trait_name, rest) => {
            let more = consts_of_traits(f, *rest, name, self_ty);
            match trait_const(f, *trait_name, name, self_ty) {
                Some(ty) => List::Cons(Rc::new(ty), Rc::new(more)),
                None => more,
            }
        },
    }
}

/// The types that the traits that a type implements give to a constant.
pub open spec fn consts_of_impls(
    f: Frame,
    impls: List<TraitImpl>,
    self_name: Symbol,
    name: Symbol,
    self_ty: Type,
) -> List<Type>
    decreases impls,
{
    match impls {
        List::Nil => List::Nil,
        List::Cons(item, rest) => {
            let more = consts_of_impls(f, *rest, self_name, name, self_ty);
            if item.self_name == self_name {
                match trait_const(f, item.trait_name, name, self_ty) {
                    Some(ty) => List::Cons(Rc::new(ty), Rc::new(more)),
                    None => more,
                }
            } else {
                more
            }
        },
    }
}

/// All types that an associated constant may have.
pub open spec fn assoc_const_types(f: Frame, qself: Option<Rc<QSelf>>, path: Path) -> List<Type> {
    match qself {
        Some(qself) => match exprs::last_name(path) {
            Some(name) => if qself.position >= 1 {
                match path.segments.at(qself.position - 1) {
                    Some(segment) => match trait_const(f, segment.ident, name, *qself.ty) {
                        Some(ty) => List::Cons(Rc::new(ty), Rc::new(List::Nil)),
                        None => List::Nil,
                    },
                    None => List::Nil,
                }
            } else {
                List::Nil
            },
            None => List::Nil,
        },
        None => if path.segments@.len() == 2 {
            let qualifier = path.segments@[0];
            let name = path.segments@[1].ident;
            let self_ty = types::segment_type(qualifier);
            consts_of_traits(
                f,
                generics::bounds_of(f.bounds, qualifier.ident),
                name,
                self_ty,
            ).joined(
                consts_of_impls(f, f.env.trait_impls, qualifier.ident, name, self_ty).joined(
                    consts_of_impls(f, f.env.primitives, qualifier.ident, name, self_ty),
                ),
            )
        } else {
            List::Nil
        },
    }
}

/// The type of an associated constant, where it has only one.
pub open spec fn assoc_const_type(
    f: Frame,
    qself: Option<Rc<QSelf>>,
    path: Path,
) -> Result<Option<Rc<TileType>>, Stop> {
    match types::sole(assoc_const_types(f, qself, path)) {
        Some(ty) => ask::compiled(f.env, ty),
        None => Ok(None),
    }
}

/// The compiled `bool`.
pub open spec fn bool_tile(f: Frame) -> Result<Option<Rc<TileType>>, Stop> {
    ask::compiled(f.env, scalar::named_type(names::BOOL))
}

/// The compiled type of the items of an array or a slice.
pub open spec fn item_tile(f: Frame, ty: TileType) -> Result<Option<Rc<TileType>>, Stop> {
    match *ty.rust_ty {
        Type::Array { elem, len: _ } => ask::compiled(f.env, *elem),
        Type::Slice(elem) => ask::compiled(f.env, *elem),
        _ => Ok(None),
    }
}

// Expected types of parameters.

/// The compiled type of a parameter, where it is known.
pub open spec fn expected_param(
    f: Frame,
    limit: nat,
    ty: Type,
) -> Result<Option<Rc<TileType>>, Stop> {
    if types::mentions_impl(ty) {
        Ok(None)
    } else {
        match resolvable::fully_known(f.env, limit, ty) {
            Err(stop) => Err(stop),
            Ok(false) => Ok(None),
            Ok(true) => match resolvable::resolvable(f.env, limit, ty) {
                Err(stop) => Err(stop),
                Ok(false) => Ok(None),
                Ok(true) => ask::compiled_if_any(f.env, ty),
            },
        }
    }
}

/// The compiled type of a parameter or result of a closure: a scalar is a one-element tile.
pub open spec fn closure_value(
    f: Frame,
    limit: nat,
    ty: Type,
) -> Result<Option<Rc<TileType>>, Stop> {
    let is_number = match types::bare_name(ty) {
        Some(name) => scalar::builtin_scalar_name(f.env.names.text_of(name)),
        None => false,
    };
    if is_number {
        match ask::scalar_tile(f.env, types::bare_name(ty)->0) {
            Err(stop) => Err(stop),
            Ok(Some(tile)) => Ok(Some(tile)),
            Ok(None) => expected_param(f, limit, ty),
        }
    } else {
        expected_param(f, limit, ty)
    }
}

/// The compiled types of a closure's parameters; none where one of them is not known.
pub open spec fn closure_inputs(
    f: Frame,
    limit: nat,
    bindings: List<env::ParamBinding>,
    inputs: List<Type>,
) -> Result<Option<List<TileType>>, Stop>
    decreases inputs,
{
    match inputs {
        List::Nil => Ok(Some(List::Nil)),
        List::Cons(input, rest) => match substitute::substituted(bindings, *input) {
            None => Ok(None),
            Some(ty) => match closure_value(f, limit, *ty) {
                Err(stop) => Err(stop),
                Ok(None) => Ok(None),
                Ok(Some(tile)) => match closure_inputs(f, limit, bindings, *rest) {
                    Ok(Some(more)) => Ok(Some(List::Cons(tile, Rc::new(more)))),
                    other => other,
                },
            },
        },
    }
}

/// The compiled types of a closure's parameters and, where it is known, of its result.
pub open spec fn closure_types(
    f: Frame,
    limit: nat,
    signature: ClosureSignature,
    solver: Solver,
) -> Result<Option<(List<TileType>, Option<Rc<TileType>>)>, Stop> {
    match ask::bindings(f.env, solver) {
        Err(stop) => Err(stop),
        Ok(bindings) => match closure_inputs(f, limit, bindings, signature.inputs) {
            Err(stop) => Err(stop),
            Ok(None) => Ok(None),
            Ok(Some(inputs)) => match signature.output {
                None => Ok(Some((inputs, None))),
                Some(output) => match substitute::substituted(bindings, *output) {
                    None => Ok(Some((inputs, None))),
                    Some(ty) => match closure_value(f, limit, *ty) {
                        Err(stop) => Err(stop),
                        Ok(tile) => Ok(Some((inputs, tile))),
                    },
                },
            },
        },
    }
}

/// The solver of a function that was told the expected result and the arguments at the call.
pub open spec fn call_solver(
    item: FnItem,
    func: Rc<Expr>,
    expected: Option<Rc<TileType>>,
) -> Solver {
    let solver = ask::function_solver(item.id);
    let solver = match expected {
        Some(expected) => solver.after(
            Step::Constraint { param: item.return_type, arg: expected.rust_ty },
        ),
        None => solver,
    };
    solver.after(Step::ProvidedByCall(func))
}

/// What is expected of an argument: the parameter's type with its generic names replaced, or else
/// the parameter's type.
pub open spec fn expected_arg(
    f: Frame,
    limit: nat,
    bindings: List<env::ParamBinding>,
    param: Type,
) -> Result<Option<Rc<TileType>>, Stop> {
    match substitute::substituted(bindings, param) {
        Some(ty) => match expected_param(f, limit, *ty) {
            Ok(None) => expected_param(f, limit, param),
            other => other,
        },
        None => expected_param(f, limit, param),
    }
}

pub open spec fn expected_args(
    f: Frame,
    limit: nat,
    bindings: List<env::ParamBinding>,
    params: List<Type>,
) -> Result<List<Option<Rc<TileType>>>, Stop>
    decreases params,
{
    match params {
        List::Nil => Ok(List::Nil),
        List::Cons(param, rest) => match expected_arg(f, limit, bindings, *param) {
            Err(stop) => Err(stop),
            Ok(expected) => match expected_args(f, limit, bindings, *rest) {
                Err(stop) => Err(stop),
                Ok(more) => Ok(List::Cons(Rc::new(expected), Rc::new(more))),
            },
        },
    }
}

/// What is expected of the arguments of a call.
pub open spec fn call_expected_args(
    f: Frame,
    limit: nat,
    item: FnItem,
    func: Rc<Expr>,
    expected: Option<Rc<TileType>>,
) -> Result<List<Option<Rc<TileType>>>, Stop> {
    match ask::bindings(f.env, call_solver(item, func, expected)) {
        Err(stop) => Err(stop),
        Ok(bindings) => expected_args(f, limit, bindings, item.param_types),
    }
}

/// The compiled type of a parameter that is a scalar.
pub open spec fn scalar_param(f: Frame, param: Type) -> Result<Option<Rc<TileType>>, Stop> {
    if types::is_scalar(*f.env.names, param) {
        ask::compiled_if_any(f.env, param)
    } else {
        Ok(None)
    }
}

// Inherent methods.

/// A method with the `impl` block that it stands in.
pub struct FoundMethod {
    pub impl_item: Rc<ImplItem>,
    pub method: Rc<FnItem>,
}

pub open spec fn methods_in(
    item: Rc<ImplItem>,
    methods: List<FnItem>,
    name: Symbol,
    more: List<FoundMethod>,
) -> List<FoundMethod>
    decreases methods,
{
    match methods {
        List::Nil => more,
        List::Cons(method, rest) => {
            let later = methods_in(item, *rest, name, more);
            if method.name == name {
                List::Cons(Rc::new(FoundMethod { impl_item: item, method }), Rc::new(later))
            } else {
                later
            }
        },
    }
}

/// All methods of a name in the given blocks.
pub open spec fn methods_named(impls: List<ImplItem>, name: Symbol) -> List<FoundMethod>
    decreases impls,
{
    match impls {
        List::Nil => List::Nil,
        List::Cons(item, rest) => methods_in(item, item.methods, name, methods_named(*rest, name)),
    }
}

/// The types of parameters with generic names replaced, as far as they are bound, and with array
/// lengths that are names replaced by the receiver's rank.
pub open spec fn adjusted_params(
    bindings: List<env::ParamBinding>,
    rank: Option<usize>,
    params: List<Type>,
) -> List<Type>
    decreases params,
{
    match params {
        List::Nil => List::Nil,
        List::Cons(param, rest) => {
            let ty = match substitute::substituted(bindings, *param) {
                Some(ty) => *ty,
                None => *param,
            };
            let ty = match rank {
                Some(rank) => types::with_rank(ty, rank),
                None => ty,
            };
            List::Cons(Rc::new(ty), Rc::new(adjusted_params(bindings, rank, *rest)))
        },
    }
}

/// The list without its first item.
pub open spec fn behind_first<T>(list: List<T>) -> List<T> {
    match list {
        List::Nil => List::Nil,
        List::Cons(_, rest) => *rest,
    }
}

/// What the only inherent method of a name expects of its arguments.
pub open spec fn method_expected_args(
    f: Frame,
    receiver: Type,
    name: Symbol,
) -> Result<Option<List<Type>>, Stop> {
    match ask::head(f.env, receiver) {
        Err(stop) => Err(stop),
        Ok((None, _)) => Ok(None),
        Ok((Some(ident), _)) => match env::impls_of(f.env.struct_impls, ident) {
            None => Ok(None),
            Some(impls) => match types::sole(methods_named(impls, name)) {
                None => Ok(None),
                Some(found) => {
                    let solver = ask::method_solver(found.impl_item.id, found.method.id).after(
                        Step::Constraint {
                            param: found.impl_item.self_ty,
                            arg: Rc::new(receiver),
                        },
                    );
                    match ask::bindings(f.env, solver) {
                        Err(stop) => Err(stop),
                        Ok(bindings) => Ok(
                            Some(
                                adjusted_params(
                                    bindings,
                                    types::type_rank(*f.env.generic_vars, receiver),
                                    behind_first(found.method.param_types),
                                ),
                            ),
                        ),
                    }
                },
            },
        },
    }
}

// Statics in global memory.

/// The element type and the shape of the static in global memory that a name stands for.
pub open spec fn global_static(
    f: Frame,
    receiver: Expr,
) -> Result<Option<(Rc<Type>, List<i32>)>, Stop> {
    match receiver.kind {
        ExprKind::Path { qself: _, path } => if exprs::single_name(path) is Some {
            match ask::resolution(f.env, path) {
                Err(stop) => Err(stop),
                Ok(Resolution::Static(written)) => match ask::normalized(f.env, *written) {
                    Err(stop) => Err(stop),
                    Ok(Err(error)) => Err(Stop::Failed(error)),
                    Ok(Ok(ty)) => match ask::head(f.env, *ty) {
                        Err(stop) => Err(stop),
                        Ok((ident, _)) => if ident == Some(names::GLOBAL) {
                            match types::static_element(*ty) {
                                None => Ok(None),
                                Some(element) => match types::static_type_shape(*ty) {
                                    Err(error) => Err(Stop::Failed(error)),
                                    Ok(None) => Ok(None),
                                    Ok(Some(shape)) => Ok(Some((Rc::new(element), shape))),
                                },
                            }
                        } else {
                            Ok(None)
                        },
                    },
                },
                Ok(_) => Ok(None),
            }
        } else {
            Ok(None)
        },
        _ => Ok(None),
    }
}

// Terms and origins of expressions.

/// The term of an expression, or of the name that it is.
pub open spec fn expr_or_local(s: StateView, expr: Expr) -> Option<InferredTy> {
    match unify::term_of(s.inference.terms, expr.id) {
        Some(term) => Some(term),
        None => match exprs::expr_name(expr) {
            Some(name) => state::looked_up(s.local_terms, name),
            None => None,
        },
    }
}

/// The expression that a name or an expression stands for.
pub open spec fn expr_origin(s: StateView, expr: Expr) -> Option<Expr> {
    match expr_or_local(s, expr) {
        Some(term) => unify::origin_of(s.inference.vars, term),
        None => None,
    }
}

/// The length of the array that an expression is, where it is one or stands for one.
pub open spec fn array_length(f: Frame, s: StateView, expr: Expr) -> Option<usize>
    decreases expr,
{
    match expr.kind {
        ExprKind::Array(elems) => Some(exprs::length(elems)),
        ExprKind::Repeat { expr: _, len } => exprs::repeat_length(*f.env.generic_vars, *len),
        ExprKind::Paren(inner) => array_length(f, s, *inner),
        _ => match expr_origin(s, expr) {
            Some(origin) => match origin.kind {
                ExprKind::Array(elems) => Some(exprs::length(elems)),
                ExprKind::Repeat { expr: _, len } => exprs::repeat_length(*f.env.generic_vars, *len),
                _ => None,
            },
            None => None,
        },
    }
}

/// The items of the tuple that an expression is, where it is one or stands for one.
pub open spec fn tuple_exprs(s: StateView, expr: Expr) -> Option<List<Expr>>
    decreases expr,
{
    match expr.kind {
        ExprKind::Tuple(elems) => Some(elems),
        ExprKind::Paren(inner) => tuple_exprs(s, *inner),
        _ => match expr_origin(s, expr) {
            Some(origin) => match origin.kind {
                ExprKind::Tuple(elems) => Some(elems),
                _ => None,
            },
            None => None,
        },
    }
}

/// An array type.
pub open spec fn array_type(elem: Rc<Type>, len: usize) -> Type {
    Type::Array { elem, len: Rc::new(exprs::count_expr(len)) }
}

/// The type that an array has whose item is expected to be of a type; the array's term is given
/// that type.
pub open spec fn array_expected_at_index(
    f: Frame,
    s: StateView,
    base: Expr,
    elem: Rc<TileType>,
) -> Outcome<Option<Rc<TileType>>> {
    match array_length(f, s, base) {
        None => Ok((s, None)),
        Some(len) => match ask::compiled(f.env, array_type(elem.rust_ty, len)) {
            Err(stop) => Err(stop),
            Ok(None) => Ok((s, None)),
            Ok(Some(array)) => {
                let s = match expr_or_local(s, base) {
                    Some(term) => {
                        let (s, term) = state::unified_with_known(f, s, term, array);
                        state::recorded(s, base.id, term)
                    },
                    None => s,
                };
                Ok((s, Some(array)))
            },
        },
    }
}

/// The kind of variable that a number without a suffix makes.
pub open spec fn literal_kind(lit: Lit) -> Option<InferVarKind> {
    match lit {
        Lit::Int { value: _, spelling: _, suffix } => if suffix is None {
            Some(InferVarKind::Int)
        } else {
            None
        },
        Lit::Float { digits: _, suffix } => if suffix is None {
            Some(InferVarKind::Float)
        } else {
            None
        },
        _ => None,
    }
}

/// The term of a literal whose form gives it no type: the one it has, or a new variable.
pub open spec fn literal_term(s: StateView, expr: Expr, lit: Lit) -> (StateView, InferredTy) {
    match unify::term_of(s.inference.terms, expr.id) {
        Some(term) => (s, term),
        None => match literal_kind(lit) {
            Some(kind) => (
                state::with_var(s, kind, expr.id, Some(expr)),
                unify::next_var(s.inference),
            ),
            None => (s, InferredTy::Unknown),
        },
    }
}

/// The type that is filed for the value of a block.
pub open spec fn tail_type(s: StateView, block: Block) -> Option<Type> {
    match block.stmts.end() {
        Some(Stmt::Expr { expr, semi }) => match expr.kind {
            ExprKind::Return(value) => match value {
                Some(value) => results::surface_type(s.results, value.id),
                None => None,
            },
            _ => if semi {
                None
            } else {
                results::surface_type(s.results, expr.id)
            },
        },
        _ => None,
    }
}

/// Whether a receiver can be borrowed mutably.
pub open spec fn borrows_mutably(s: StateView, receiver: Expr, ty: Type) -> bool {
    types::mut_reference(ty) || (match exprs::expr_name(receiver) {
        Some(name) => s.mutable_vars.contains(name),
        None => false,
    })
}

impl<'a> TypeInferenceCx<'a> {
    pub fn infer_global_const_type(&self, path: &Path) -> (r: Result<Option<Rc<TileType>>, Stop>)
        ensures
            r == const_type(self.frame(), *path),
    {
        match ask_resolution(self.env, path)? {
            Resolution::Const(ty) => compile(self.env, &ty),
            _ => Ok(None),
        }
    }

    pub fn infer_global_static_type(&self, path: &Path) -> (r: Result<Option<Rc<TileType>>, Stop>)
        ensures
            r == static_type(self.frame(), *path),
    {
        match ask_resolution(self.env, path)? {
            Resolution::Static(ty) => compile(self.env, &ty),
            _ => Ok(None),
        }
    }

    pub fn trait_associated_const_syn_type(
        &self,
        trait_name: Symbol,
        name: Symbol,
        self_ty: &Rc<Type>,
    ) -> (r: Option<Rc<Type>>)
        ensures
            r == types::shared(trait_const(self.frame(), trait_name, name, **self_ty)),
    {
        match find_consts(&self.env.traits, trait_name) {
            Some(consts) => match find_field(&consts, name) {
                Some(ty) => Some(substitute_self_type(&ty, self_ty)),
                None => None,
            },
            None => None,
        }
    }

    fn consts_by_traits(
        &self,
        traits: &List<Symbol>,
        name: Symbol,
        self_ty: &Rc<Type>,
    ) -> (r: List<Type>)
        ensures
            r == consts_of_traits(self.frame(), *traits, name, **self_ty),
        decreases traits,
    {
        match traits {
            List::Nil => List::Nil,
            List::Cons(trait_name, rest) => {
                let more = self.consts_by_traits(rest, name, self_ty);
                match self.trait_associated_const_syn_type(**trait_name, name, self_ty) {
                    Some(ty) => List::prepend(ty, more),
                    None => more,
                }
            },
        }
    }

    fn consts_by_impls(
        &self,
        impls: &List<TraitImpl>,
        self_name: Symbol,
        name: Symbol,
        self_ty: &Rc<Type>,
    ) -> (r: List<Type>)
        ensures
            r == consts_of_impls(self.frame(), *impls, self_name, name, **self_ty),
        decreases impls,
    {
        match impls {
            List::Nil => List::Nil,
            List::Cons(item, rest) => {
                let more = self.consts_by_impls(rest, self_name, name, self_ty);
                if item.self_name == self_name {
                    match self.trait_associated_const_syn_type(item.trait_name, name, self_ty) {
                        Some(ty) => List::prepend(ty, more),
                        None => more,
                    }
                } else {
                    more
                }
            },
        }
    }

    pub fn associated_const_syn_type_candidates(
        &self,
        qself: &Option<Rc<QSelf>>,
        path: &Path,
    ) -> (r: List<Type>)
        ensures
            r == assoc_const_types(self.frame(), *qself, *path),
    {
        match qself {
            Some(qself) => {
                let name = match path_last_name(path) {
                    Some(name) => name,
                    None => return List::Nil,
                };
                if qself.position < 1 {
                    return List::Nil;
                }
                match path.segments.nth(qself.position - 1) {
                    Some(segment) => match self.trait_associated_const_syn_type(
                        segment.ident,
                        name,
                        &qself.ty,
                    ) {
                        Some(ty) => List::one(ty),
                        None => List::Nil,
                    },
                    None => List::Nil,
                }
            },
            None => match &path.segments {
                List::Nil => List::Nil,
                List::Cons(qualifier, rest) => match &**rest {
                    List::Nil => {
                        assert(path.segments@ == seq![**qualifier] + rest@);
                        List::Nil
                    },
                    List::Cons(last, end) => {
                        proof {
                            reveal_with_fuel(List::items, 3);
                        }
                        assert(path.segments@ == seq![**qualifier] + (seq![**last] + end@));
                        if !end.is_empty() {
                            return List::Nil;
                        }
                        assert(path.segments@[0] == **qualifier);
                        assert(path.segments@[1] == **last);
                        let self_ty = type_from_path_segment(qualifier);
                        let by_traits = self.consts_by_traits(
                            &self.bounds.get(qualifier.ident),
                            last.ident,
                            &self_ty,
                        );
                        let by_impls = self.consts_by_impls(
                            &self.env.trait_impls,
                            qualifier.ident,
                            last.ident,
                            &self_ty,
                        );
                        let by_primitives = self.consts_by_impls(
                            &self.env.primitives,
                            qualifier.ident,
                            last.ident,
                            &self_ty,
                        );
                        by_traits.join(&by_impls.join(&by_primitives))
                    },
                },
            },
        }
    }

    pub fn infer_associated_const_type(
        &self,
        qself: &Option<Rc<QSelf>>,
        path: &Path,
    ) -> (r: Result<Option<Rc<TileType>>, Stop>)
        ensures
            r == assoc_const_type(self.frame(), *qself, *path),
    {
        match single_syn_type(&self.associated_const_syn_type_candidates(qself, path)) {
            Some(ty) => compile(self.env, &ty),
            None => Ok(None),
        }
    }

    pub fn bool_type(&self) -> (r: Result<Option<Rc<TileType>>, Stop>)
        ensures
            r == bool_tile(self.frame()),
    {
        compile(self.env, &bare_type(names::BOOL))
    }

    pub fn array_element_type(&self, ty: &TileType) -> (r: Result<Option<Rc<TileType>>, Stop>)
        ensures
            r == item_tile(self.frame(), *ty),
    {
        match &*ty.rust_ty {
            Type::Array { elem, len: _ } => compile(self.env, elem),
            Type::Slice(elem) => compile(self.env, elem),
            _ => Ok(None),
        }
    }

    pub fn compile_expected_param_type(
        &self,
        limit: u64,
        ty: &Rc<Type>,
    ) -> (r: Result<Option<Rc<TileType>>, Stop>)
        ensures
            r == expected_param(self.frame(), limit as nat, **ty),
    {
        if type_has_impl_trait(ty) {
            return Ok(None);
        }
        if !type_is_fully_known(self.env, limit, ty)? {
            return Ok(None);
        }
        if !type_is_resolvable(self.env, limit, ty)? {
            return Ok(None);
        }
        compile_if_any(self.env, ty)
    }

    pub fn compile_closure_value_type(
        &self,
        limit: u64,
        ty: &Rc<Type>,
    ) -> (r: Result<Option<Rc<TileType>>, Stop>)
        ensures
            r == closure_value(self.frame(), limit as nat, **ty),
    {
        if let Some(name) = scalar_type_name(ty) {
            if is_builtin_scalar_name(self.env.names.text(name)) {
                if let Some(tile) = ask_scalar_tile(self.env, name)? {
                    return Ok(Some(tile));
                }
            }
        }
        self.compile_expected_param_type(limit, ty)
    }

    fn compile_closure_inputs(
        &self,
        limit: u64,
        bindings: &List<env::ParamBinding>,
        inputs: &List<Type>,
    ) -> (r: Result<Option<List<TileType>>, Stop>)
        ensures
            r == closure_inputs(self.frame(), limit as nat, *bindings, *inputs),
        decreases inputs,
    {
        match inputs {
            List::Nil => Ok(Some(List::Nil)),
            List::Cons(input, rest) => match substitute_resolved_generics(input, bindings) {
                None => Ok(None),
                Some(ty) => match self.compile_closure_value_type(limit, &ty)? {
                    None => Ok(None),
                    Some(tile) => match self.compile_closure_inputs(limit, bindings, rest)? {
                        Some(more) => Ok(Some(List::prepend(tile, more))),
                        None => Ok(None),
                    },
                },
            },
        }
    }

    pub fn instantiate_closure_signature(
        &self,
        limit: u64,
        signature: &ClosureSignature,
        solver: &Solver,
    ) -> (r: Result<Option<(List<TileType>, Option<Rc<TileType>>)>, Stop>)
        ensures
            r == closure_types(self.frame(), limit as nat, *signature, *solver),
    {
        let bindings = ask_bindings(self.env, solver)?;
        let inputs = match self.compile_closure_inputs(limit, &bindings, &signature.inputs)? {
            Some(inputs) => inputs,
            None => return Ok(None),
        };
        match &signature.output {
            None => Ok(Some((inputs, None))),
            Some(output) => match substitute_resolved_generics(output, &bindings) {
                None => Ok(Some((inputs, None))),
                Some(ty) => {
                    let tile = self.compile_closure_value_type(limit, &ty)?;
                    Ok(Some((inputs, tile)))
                },
            },
        }
    }

    fn expected_args_under(
        &self,
        limit: u64,
        bindings: &List<env::ParamBinding>,
        params: &List<Type>,
    ) -> (r: Result<List<Option<Rc<TileType>>>, Stop>)
        ensures
            r == expected_args(self.frame(), limit as nat, *bindings, *params),
        decreases params,
    {
        match params {
            List::Nil => Ok(List::Nil),
            List::Cons(param, rest) => {
                let expected = match substitute_resolved_generics(param, bindings) {
                    Some(ty) => match self.compile_expected_param_type(limit, &ty)? {
                        Some(tile) => Some(tile),
                        None => self.compile_expected_param_type(limit, param)?,
                    },
                    None => self.compile_expected_param_type(limit, param)?,
                };
                let more = self.expected_args_under(limit, bindings, rest)?;
                Ok(List::prepend(Rc::new(expected), more))
            },
        }
    }

    pub fn solver_for_call(
        &self,
        item: &FnItem,
        func: &Rc<Expr>,
        expected: &Option<Rc<TileType>>,
    ) -> (r: Solver)
        ensures
            r == call_solver(*item, *func, *expected),
    {
        let solver = Solver { impl_item: None, callable: item.id, steps: List::Nil };
        let solver = match expected {
            Some(expected) => solver.tell(
                Step::Constraint {
                    param: share(&item.return_type),
                    arg: share(&expected.rust_ty),
                },
            ),
            None => solver,
        };
        solver.tell(Step::ProvidedByCall(share(func)))
    }

    pub fn expected_function_arg_types(
        &self,
        limit: u64,
        item: &FnItem,
        func: &Rc<Expr>,
        expected: &Option<Rc<TileType>>,
    ) -> (r: Result<List<Option<Rc<TileType>>>, Stop>)
        ensures
            r == call_expected_args(self.frame(), limit as nat, *item, *func, *expected),
    {
        let solver = self.solver_for_call(item, func, expected);
        let bindings = ask_bindings(self.env, &solver)?;
        self.expected_args_under(limit, &bindings, &item.param_types)
    }

    pub fn scalar_param_type(&self, param: &Rc<Type>) -> (r: Result<Option<Rc<TileType>>, Stop>)
        ensures
            r == scalar_param(self.frame(), **param),
    {
        match types::concrete_scalar_param_type(&self.env.names, param) {
            Some(param) => compile_if_any(self.env, &param),
            None => Ok(None),
        }
    }

    pub fn unique_inherent_method_arg_types(
        &self,
        receiver: &Rc<Type>,
        name: Symbol,
    ) -> (r: Result<Option<List<Type>>, Stop>)
        ensures
            r == method_expected_args(self.frame(), **receiver, name),
    {
        let ident = match ask_head(self.env, receiver)? {
            (Some(ident), _) => ident,
            (None, _) => return Ok(None),
        };
        let impls = match find_impls(&self.env.struct_impls, ident) {
            Some(impls) => impls,
            None => return Ok(None),
        };
        let found = match &find_methods(&impls, name) {
            List::Cons(found, rest) => {
                if rest.is_empty() {
                    share(found)
                } else {
                    return Ok(None);
                }
            },
            List::Nil => return Ok(None),
        };
        let solver = Solver {
            impl_item: Some(found.impl_item.id),
            callable: found.method.id,
            steps: List::Nil,
        };
        let solver = solver.tell(
            Step::Constraint { param: share(&found.impl_item.self_ty), arg: share(receiver) },
        );
        let bindings = ask_bindings(self.env, &solver)?;
        let rank = rank_from_type_shape_arg(receiver, &self.env.generic_vars);
        let params = match &found.method.param_types {
            List::Nil => List::Nil,
            List::Cons(_, rest) => rest.dup(),
        };
        Ok(Some(adjust_params(&bindings, rank, &params)))
    }

    pub fn global_receiver_element_and_shape(
        &self,
        receiver: &Expr,
    ) -> (r: Result<Option<(Rc<Type>, List<i32>)>, Stop>)
        ensures
            r == global_static(self.frame(), *receiver),
    {
        let path = match &receiver.kind {
            ExprKind::Path { qself: _, path } => path,
            _ => return Ok(None),
        };
        if path_single_name(path).is_none() {
            return Ok(None);
        }
        let written = match ask_resolution(self.env, path)? {
            Resolution::Static(ty) => ty,
            _ => return Ok(None),
        };
        let ty = match ask_normalized(self.env, &written)? {
            Ok(ty) => ty,
            Err(error) => return Err(Stop::Failed(error)),
        };
        match ask_head(self.env, &ty)? {
            (Some(ident), _) => {
                if ident != names::GLOBAL {
                    return Ok(None);
                }
            },
            (None, _) => return Ok(None),
        }
        let element = match global_element_type(&ty) {
            Some(element) => element,
            None => return Ok(None),
        };
        match global_shape(&ty) {
            Err(error) => Err(Stop::Failed(error)),
            Ok(None) => Ok(None),
            Ok(Some(shape)) => Ok(Some((element, shape))),
        }
    }

    pub fn expr_or_local_term(&self, expr: &Expr) -> (r: Option<InferredTy>)
        ensures
            r == expr_or_local(self@, *expr),
            sound::sound(self@) && r is Some ==> sound::owns(self@, r->0),
    {
        match self.expr_term(expr) {
            Some(term) => Some(term),
            None => match local_name(expr) {
                Some(name) => self.local_term(name),
                None => None,
            },
        }
    }

    pub fn origin(&self, expr: &Expr) -> (r: Option<Rc<Expr>>)
        ensures
            r == types::shared(expr_origin(self@, *expr)),
    {
        match self.expr_or_local_term(expr) {
            Some(term) => self.inference.term_origin(&term),
            None => None,
        }
    }

    pub fn array_like_expr_or_origin(&self, expr: &Expr) -> (r: Option<usize>)
        ensures
            r == array_length(self.frame(), self@, *expr),
        decreases expr,
    {
        match &expr.kind {
            ExprKind::Array(elems) => Some(elems.count()),
            ExprKind::Repeat { expr: _, len } => repeat_length_value(len, &self.env.generic_vars),
            ExprKind::Paren(inner) => self.array_like_expr_or_origin(inner),
            _ => match self.origin(expr) {
                Some(origin) => match &origin.kind {
                    ExprKind::Array(elems) => Some(elems.count()),
                    ExprKind::Repeat { expr: _, len } => repeat_length_value(
                        len,
                        &self.env.generic_vars,
                    ),
                    _ => None,
                },
                None => None,
            },
        }
    }

    pub fn tuple_expr_or_origin(&self, expr: &Expr) -> (r: Option<List<Expr>>)
        ensures
            r == tuple_exprs(self@, *expr),
        decreases expr,
    {
        match &expr.kind {
            ExprKind::Tuple(elems) => Some(elems.dup()),
            ExprKind::Paren(inner) => self.tuple_expr_or_origin(inner),
            _ => match self.origin(expr) {
                Some(origin) => match &origin.kind {
                    ExprKind::Tuple(elems) => Some(elems.dup()),
                    _ => None,
                },
                None => None,
            },
        }
    }

    pub fn expected_array_type_from_index_base(
        &mut self,
        base: &Expr,
        elem: &Rc<TileType>,
    ) -> (r: Result<Option<Rc<TileType>>, Stop>)
        ensures
            state::agrees(
                r,
                final(self)@,
                array_expected_at_index(old(self).frame(), old(self)@, *base, *elem),
            ),
            final(self).frame() == old(self).frame(),
            sound::sound(old(self)@) ==> sound::advances(old(self)@, final(self)@),
    {
        let len = match self.array_like_expr_or_origin(base) {
            Some(len) => len,
            None => return Ok(None),
        };
        let ty = Rc::new(Type::Array { elem: share(&elem.rust_ty), len: count_literal(len) });
        let array = match compile(self.env, &ty)? {
            Some(array) => array,
            None => return Ok(None),
        };
        if let Some(term) = self.expr_or_local_term(base) {
            let term = self.unify_with_known(&term, &array);
            self.record_expr_term(base, &term);
        }
        Ok(Some(array))
    }

    pub fn literal_infer_var(&mut self, expr: &Rc<Expr>, lit: &Lit) -> (r: InferredTy)
        ensures
            (final(self)@, r) == literal_term(old(self)@, **expr, *lit),
            final(self).frame() == old(self).frame(),
            sound::sound(old(self)@) ==> sound::advances(old(self)@, final(self)@) && sound::owns(
                final(self)@,
                r,
            ),
    {
        if let Some(term) = self.expr_term(expr) {
            return term;
        }
        let kind = match lit {
            Lit::Int { value: _, spelling: _, suffix: None } => InferVarKind::Int,
            Lit::Float { digits: _, suffix: None } => InferVarKind::Float,
            _ => return InferredTy::Unknown,
        };
        self.new_infer_var(kind, expr.id, Some(share(expr)))
    }

    pub fn block_tail_syn_type(&self, block: &Block) -> (r: Option<Rc<Type>>)
        ensures
            r == types::shared(tail_type(self@, *block)),
    {
        match block.stmts.last() {
            Some(stmt) => match &*stmt {
                Stmt::Expr { expr, semi } => match &expr.kind {
                    ExprKind::Return(value) => match value {
                        Some(value) => self.results.syn_expr_type(value),
                        None => None,
                    },
                    _ => {
                        if *semi {
                            None
                        } else {
                            self.results.syn_expr_type(expr)
                        }
                    },
                },
                _ => None,
            },
            None => None,
        }
    }

    pub fn receiver_allows_mut_borrow(&self, receiver: &Expr, ty: &Type) -> (r: bool)
        ensures
            r == borrows_mutably(self@, *receiver, *ty),
    {
        if type_is_mut_reference(ty) {
            return true;
        }
        match local_name(receiver) {
            Some(name) => self.mutable_vars.contains_key(&name),
            None => false,
        }
    }
}

fn find_methods_in(
    item: &Rc<ImplItem>,
    methods: &List<FnItem>,
    name: Symbol,
    more: List<FoundMethod>,
) -> (r: List<FoundMethod>)
    ensures
        r == methods_in(*item, *methods, name, more),
    decreases methods,
{
    match methods {
        List::Nil => more,
        List::Cons(method, rest) => {
            let later = find_methods_in(item, rest, name, more);
            if method.name == name {
                List::prepend(
                    Rc::new(FoundMethod { impl_item: share(item), method: share(method) }),
                    later,
                )
            } else {
                later
            }
        },
    }
}

fn find_methods(impls: &List<ImplItem>, name: Symbol) -> (r: List<FoundMethod>)
    ensures
        r == methods_named(*impls, name),
    decreases impls,
{
    match impls {
        List::Nil => List::Nil,
        List::Cons(item, rest) => find_methods_in(
            item,
            &item.methods,
            name,
            find_methods(rest, name),
        ),
    }
}

fn adjust_params(
    bindings: &List<env::ParamBinding>,
    rank: Option<usize>,
    params: &List<Type>,
) -> (r: List<Type>)
    ensures
        r == adjusted_params(*bindings, rank, *params),
    decreases params,
{
    match params {
        List::Nil => List::Nil,
        List::Cons(param, rest) => {
            let ty = match substitute_resolved_generics(param, bindings) {
                Some(ty) => ty,
                None => share(param),
            };
            let ty = match rank {
                Some(rank) => replace_array_len_with_rank(&ty, rank),
                None => ty,
            };
            List::prepend(ty, adjust_params(bindings, rank, rest))
        },
    }
}

} // verus!

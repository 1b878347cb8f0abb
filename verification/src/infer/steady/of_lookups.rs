//! What is looked up and what is expected stays.
use crate::ask;
use crate::env::{self, Solver, TileType, TraitImpl};
use crate::generics;
use crate::infer::lookups;
use crate::infer::macros;
use crate::infer::state::{Frame, StateView};
use crate::infer::steady;
use crate::infer::steady::of_types;
use crate::list::{self, List};
use crate::resolvable;
use crate::scalar;
use crate::substitute::{self, ClosureSignature};
use crate::syntax::{Expr, ExprKind, FnItem, Path, QSelf, Symbol, Token, Type};
use crate::types;
use std::rc::Rc;
use vstd::prelude::*;

verus! {

pub(crate) proof fn const_type_stays(f: Frame, g: Frame, path: Path)
    requires
        steady::learns(f, g),
    ensures
        steady::stays(lookups::const_type(f, path), lookups::const_type(g, path)),
{
}

pub(crate) proof fn static_type_stays(f: Frame, g: Frame, path: Path)
    requires
        steady::learns(f, g),
    ensures
        steady::stays(lookups::static_type(f, path), lookups::static_type(g, path)),
{
}

proof fn consts_of_traits_stays(
    f: Frame,
    g: Frame,
    traits: List<Symbol>,
    name: Symbol,
    self_ty: Type,
)
    requires
        steady::learns(f, g),
    ensures
        lookups::consts_of_traits(g, traits, name, self_ty)
            == lookups::consts_of_traits(f, traits, name, self_ty),
    decreases traits,
{
    if let List::Cons(trait_name, rest) = traits {
        consts_of_traits_stays(f, g, list::held(&rest), name, self_ty);
    }
}

proof fn consts_of_impls_stays(
    f: Frame,
    g: Frame,
    impls: List<TraitImpl>,
    self_name: Symbol,
    name: Symbol,
    self_ty: Type,
)
    requires
        steady::learns(f, g),
    ensures
        lookups::consts_of_impls(g, impls, self_name, name, self_ty)
            == lookups::consts_of_impls(f, impls, self_name, name, self_ty),
    decreases impls,
{
    if let List::Cons(item, rest) = impls {
        consts_of_impls_stays(f, g, list::held(&rest), self_name, name, self_ty);
    }
}

proof fn assoc_const_types_stays(f: Frame, g: Frame, qself: Option<Rc<QSelf>>, path: Path)
    requires
        steady::learns(f, g),
    ensures
        lookups::assoc_const_types(g, qself, path) == lookups::assoc_const_types(f, qself, path),
{
    if let None = qself {
        if path.segments@.len() == 2 {
            let qualifier = path.segments@[0];
            let name = path.segments@[1].ident;
            let self_ty = types::segment_type(qualifier);
            consts_of_traits_stays(
                f,
                g,
                generics::bounds_of(f.bounds, qualifier.ident),
                name,
                self_ty,
            );
            consts_of_impls_stays(f, g, f.env.trait_impls, qualifier.ident, name, self_ty);
            consts_of_impls_stays(f, g, f.env.primitives, qualifier.ident, name, self_ty);
        }
    }
}

pub(crate) proof fn assoc_const_type_stays(f: Frame, g: Frame, qself: Option<Rc<QSelf>>, path: Path)
    requires
        steady::learns(f, g),
    ensures
        steady::stays(
            lookups::assoc_const_type(f, qself, path),
            lookups::assoc_const_type(g, qself, path),
        ),
{
    assoc_const_types_stays(f, g, qself, path);
}

pub(crate) proof fn bool_tile_stays(f: Frame, g: Frame)
    requires
        steady::learns(f, g),
    ensures
        steady::stays(lookups::bool_tile(f), lookups::bool_tile(g)),
{
}

pub(crate) proof fn item_tile_stays(f: Frame, g: Frame, ty: TileType)
    requires
        steady::learns(f, g),
    ensures
        steady::stays(lookups::item_tile(f, ty), lookups::item_tile(g, ty)),
{
}

proof fn macro_dims_stays(f: Frame, g: Frame, tokens: List<Token>)
    requires
        steady::learns(f, g),
    ensures
        macros::macro_dims(g, tokens) == macros::macro_dims(f, tokens),
        macros::macro_texts(g, tokens) == macros::macro_texts(f, tokens),
    decreases tokens,
{
    if let List::Cons(token, rest) = tokens {
        macro_dims_stays(f, g, list::held(&rest));
    }
}

pub(crate) proof fn macro_type_stays(f: Frame, g: Frame, path: Path, tokens: List<Token>)
    requires
        steady::learns(f, g),
    ensures
        steady::stays(macros::macro_type(f, path, tokens), macros::macro_type(g, path, tokens)),
{
    if macros::macro_shape_name(path) is Some {
        macro_dims_stays(f, g, tokens);
    }
}

pub(crate) proof fn expected_param_stays(f: Frame, g: Frame, limit: nat, more: nat, ty: Type)
    requires
        steady::learns(f, g),
        limit <= more,
    ensures
        steady::stays(lookups::expected_param(f, limit, ty), lookups::expected_param(g, more, ty)),
{
    if !types::mentions_impl(ty) {
        of_types::fully_known_stays(f.env, g.env, limit, more, ty);
        if let Ok(true) = resolvable::fully_known(f.env, limit, ty) {
            of_types::resolvable_stays(f.env, g.env, limit, more, ty);
        }
    }
}

proof fn closure_value_stays(f: Frame, g: Frame, limit: nat, more: nat, ty: Type)
    requires
        steady::learns(f, g),
        limit <= more,
    ensures
        steady::stays(lookups::closure_value(f, limit, ty), lookups::closure_value(g, more, ty)),
{
    let is_number = match types::bare_name(ty) {
        Some(name) => scalar::builtin_scalar_name(list::held(&f.env.names).text_of(name)),
        None => false,
    };
    if is_number {
        if let Ok(None) = ask::scalar_tile(f.env, types::bare_name(ty)->0) {
            expected_param_stays(f, g, limit, more, ty);
        }
    } else {
        expected_param_stays(f, g, limit, more, ty);
    }
}

proof fn closure_inputs_stays(
    f: Frame,
    g: Frame,
    limit: nat,
    more: nat,
    bindings: List<env::ParamBinding>,
    inputs: List<Type>,
)
    requires
        steady::learns(f, g),
        limit <= more,
    ensures
        steady::stays(
            lookups::closure_inputs(f, limit, bindings, inputs),
            lookups::closure_inputs(g, more, bindings, inputs),
        ),
    decreases inputs,
{
    if let List::Cons(input, rest) = inputs {
        if let Some(ty) = substitute::substituted(bindings, list::held(&input)) {
            closure_value_stays(f, g, limit, more, list::held(&ty));
            if let Ok(Some(tile)) = lookups::closure_value(f, limit, list::held(&ty)) {
                closure_inputs_stays(f, g, limit, more, bindings, list::held(&rest));
            }
        }
    }
}

pub(crate) proof fn closure_types_stays(
    f: Frame,
    g: Frame,
    limit: nat,
    more: nat,
    signature: ClosureSignature,
    solver: Solver,
)
    requires
        steady::learns(f, g),
        limit <= more,
    ensures
        steady::stays(
            lookups::closure_types(f, limit, signature, solver),
            lookups::closure_types(g, more, signature, solver),
        ),
{
    if let Ok(bindings) = ask::bindings(f.env, solver) {
        closure_inputs_stays(f, g, limit, more, bindings, signature.inputs);
        if let Ok(Some(inputs)) = lookups::closure_inputs(f, limit, bindings, signature.inputs) {
            if let Some(output) = signature.output {
                if let Some(ty) = substitute::substituted(bindings, list::held(&output)) {
                    closure_value_stays(f, g, limit, more, list::held(&ty));
                }
            }
        }
    }
}

proof fn expected_arg_stays(
    f: Frame,
    g: Frame,
    limit: nat,
    more: nat,
    bindings: List<env::ParamBinding>,
    param: Type,
)
    requires
        steady::learns(f, g),
        limit <= more,
    ensures
        steady::stays(
            lookups::expected_arg(f, limit, bindings, param),
            lookups::expected_arg(g, more, bindings, param),
        ),
{
    match substitute::substituted(bindings, param) {
        Some(ty) => {
            expected_param_stays(f, g, limit, more, list::held(&ty));
            if let Ok(None) = lookups::expected_param(f, limit, list::held(&ty)) {
                expected_param_stays(f, g, limit, more, param);
            }
        },
        None => {
            expected_param_stays(f, g, limit, more, param);
        },
    }
}

proof fn expected_args_stays(
    f: Frame,
    g: Frame,
    limit: nat,
    more: nat,
    bindings: List<env::ParamBinding>,
    params: List<Type>,
)
    requires
        steady::learns(f, g),
        limit <= more,
    ensures
        steady::stays(
            lookups::expected_args(f, limit, bindings, params),
            lookups::expected_args(g, more, bindings, params),
        ),
    decreases params,
{
    if let List::Cons(param, rest) = params {
        expected_arg_stays(f, g, limit, more, bindings, list::held(&param));
        if let Ok(expected) = lookups::expected_arg(f, limit, bindings, list::held(&param)) {
            expected_args_stays(f, g, limit, more, bindings, list::held(&rest));
        }
    }
}

pub(crate) proof fn call_expected_args_stays(
    f: Frame,
    g: Frame,
    limit: nat,
    more: nat,
    item: FnItem,
    func: Rc<Expr>,
    expected: Option<Rc<TileType>>,
)
    requires
        steady::learns(f, g),
        limit <= more,
    ensures
        steady::stays(
            lookups::call_expected_args(f, limit, item, func, expected),
            lookups::call_expected_args(g, more, item, func, expected),
        ),
{
    if let Ok(bindings) = ask::bindings(f.env, lookups::call_solver(item, func, expected)) {
        expected_args_stays(f, g, limit, more, bindings, item.param_types);
    }
}

pub(crate) proof fn scalar_param_stays(f: Frame, g: Frame, param: Type)
    requires
        steady::learns(f, g),
    ensures
        steady::stays(lookups::scalar_param(f, param), lookups::scalar_param(g, param)),
{
}

pub(crate) proof fn method_expected_args_stays(f: Frame, g: Frame, receiver: Type, name: Symbol)
    requires
        steady::learns(f, g),
    ensures
        steady::stays(
            lookups::method_expected_args(f, receiver, name),
            lookups::method_expected_args(g, receiver, name),
        ),
{
}

pub(crate) proof fn global_static_stays(f: Frame, g: Frame, receiver: Expr)
    requires
        steady::learns(f, g),
    ensures
        steady::stays(lookups::global_static(f, receiver), lookups::global_static(g, receiver)),
{
}

proof fn array_length_stays(f: Frame, g: Frame, s: StateView, expr: Expr)
    requires
        steady::learns(f, g),
    ensures
        lookups::array_length(g, s, expr) == lookups::array_length(f, s, expr),
    decreases expr,
{
    if let ExprKind::Paren(inner) = expr.kind {
        array_length_stays(f, g, s, list::held(&inner));
    }
}

pub(crate) proof fn array_expected_at_index_stays(
    f: Frame,
    g: Frame,
    s: StateView,
    base: Expr,
    elem: Rc<TileType>,
)
    requires
        steady::learns(f, g),
    ensures
        steady::stays(
            lookups::array_expected_at_index(f, s, base, elem),
            lookups::array_expected_at_index(g, s, base, elem),
        ),
{
    array_length_stays(f, g, s, base);
}

} // verus!

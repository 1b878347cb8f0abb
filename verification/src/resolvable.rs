//! Whether a type names only what is declared, and whether it names only what is known.
use crate::ask::{self, ask_normalized};
use crate::env::{self, contains_impl, contains_name, find_fields, Env, Stop, TraitImpl};
use crate::exprs::{self, const_expr_is_fully_known, const_expr_is_resolvable, is_const_bound};
use crate::list::{share, List};
use crate::names;
use crate::scalar::{self, is_builtin_scalar_name, is_likely_unresolved_type_param};
use crate::syntax::{GenericArg, PathArgs, Symbol, Type};
use crate::types::{self, option_payload_syn_type};
use std::rc::Rc;
use vstd::prelude::*;

verus! {

/// The type with its aliases replaced, or the type itself where that fails.
pub open spec fn alias_free(env: Env, ty: Type) -> Result<Rc<Type>, Stop> {
    match ask::normalized(env, ty) {
        Ok(Ok(ty)) => Ok(ty),
        Ok(Err(_)) => Ok(Rc::new(ty)),
        Err(stop) => Err(stop),
    }
}

fn without_aliases(env: &Env, ty: &Rc<Type>) -> (r: Result<Rc<Type>, Stop>)
    ensures
        r == alias_free(*env, **ty),
{
    match ask_normalized(env, ty) {
        Ok(Ok(ty)) => Ok(ty),
        Ok(Err(_)) => Ok(share(ty)),
        Err(stop) => Err(stop),
    }
}

/// Whether a name is that of a type that stands on its own: a struct, an element type, a scalar.
pub open spec fn names_a_type(env: Env, name: Symbol) -> bool {
    env::fields_of(env.structs, name) is Some || env::has_impl(
        env.primitives,
        TraitImpl { trait_name: names::ELEMENT_TYPE, self_name: name },
    ) || env::has_impl(
        env.primitives,
        TraitImpl { trait_name: names::SCALAR, self_name: name },
    ) || scalar::builtin_scalar_name(env.names.text_of(name))
}

fn is_name_of_type(env: &Env, name: Symbol) -> (r: bool)
    ensures
        r == names_a_type(*env, name),
{
    find_fields(&env.structs, name).is_some() || contains_impl(
        &env.primitives,
        TraitImpl { trait_name: names::ELEMENT_TYPE, self_name: name },
    ) || contains_impl(
        &env.primitives,
        TraitImpl { trait_name: names::SCALAR, self_name: name },
    ) || is_builtin_scalar_name(env.names.text(name))
}

// Resolvable types.

/// Whether a type names only generic names that are declared and types that stand on their own.
pub open spec fn resolvable(env: Env, limit: nat, ty: Type) -> Result<bool, Stop>
    decreases limit, ty,
{
    if limit == 0 {
        Err(Stop::LimitReached)
    } else {
        let below = (limit - 1) as nat;
        match alias_free(env, ty) {
            Err(stop) => Err(stop),
            Ok(ty) => match *ty {
                Type::Reference { lifetime: _, mutable: _, elem } => resolvable(env, below, *elem),
                Type::Tuple(elems) => all_resolvable(env, below, elems),
                Type::Array { elem, len } => match resolvable(env, below, *elem) {
                    Ok(true) => Ok(exprs::const_ok(*env.generic_vars, false, *len)),
                    other => other,
                },
                Type::Ptr { mutable: _, elem } => resolvable(env, below, *elem),
                Type::Path { qself, path } => match path.segments.end() {
                    Some(segment) => if qself is Some {
                        Ok(false)
                    } else if segment.ident == names::OPTION {
                        match types::option_payload(*ty) {
                            Some(payload) => resolvable(env, below, payload),
                            None => Ok(false),
                        }
                    } else {
                        match segment.args {
                            PathArgs::Bare => Ok(
                                env::has_name(env.generic_vars.declared, segment.ident)
                                    || names_a_type(env, segment.ident),
                            ),
                            PathArgs::Angle(args) => args_resolvable(env, below, args),
                            _ => Ok(false),
                        }
                    },
                    None => Ok(false),
                },
                _ => Ok(true),
            },
        }
    }
}

pub open spec fn all_resolvable(env: Env, limit: nat, types: List<Type>) -> Result<bool, Stop>
    decreases limit, types,
{
    match types {
        List::Nil => Ok(true),
        List::Cons(ty, rest) => match resolvable(env, limit, *ty) {
            Ok(true) => all_resolvable(env, limit, *rest),
            other => other,
        },
    }
}

pub open spec fn args_resolvable(env: Env, limit: nat, args: List<GenericArg>) -> Result<bool, Stop>
    decreases limit, args,
{
    match args {
        List::Nil => Ok(true),
        List::Cons(arg, rest) => match *arg {
            GenericArg::Type(ty) => match resolvable(env, limit, *ty) {
                Ok(true) => args_resolvable(env, limit, *rest),
                other => other,
            },
            GenericArg::Const(expr) => if exprs::const_ok(*env.generic_vars, false, *expr) {
                args_resolvable(env, limit, *rest)
            } else {
                Ok(false)
            },
            GenericArg::Lifetime(_) => args_resolvable(env, limit, *rest),
            GenericArg::Other(_) => Ok(false),
        },
    }
}

pub fn type_is_resolvable(env: &Env, limit: u64, ty: &Rc<Type>) -> (r: Result<bool, Stop>)
    ensures
        r == resolvable(*env, limit as nat, **ty),
    decreases limit, ty,
{
    if limit == 0 {
        return Err(Stop::LimitReached);
    }
    let below: u64 = limit - 1;
    let ty = match without_aliases(env, ty) {
        Ok(ty) => ty,
        Err(stop) => return Err(stop),
    };
    match &*ty {
        Type::Reference { lifetime: _, mutable: _, elem } => type_is_resolvable(env, below, elem),
        Type::Tuple(elems) => types_are_resolvable(env, below, elems),
        Type::Array { elem, len } => match type_is_resolvable(env, below, elem) {
            Ok(true) => Ok(const_expr_is_resolvable(len, &env.generic_vars)),
            other => other,
        },
        Type::Ptr { mutable: _, elem } => type_is_resolvable(env, below, elem),
        Type::Path { qself, path } => match path.segments.last() {
            Some(segment) => {
                if qself.is_some() {
                    Ok(false)
                } else if segment.ident == names::OPTION {
                    match option_payload_syn_type(&ty) {
                        Some(payload) => type_is_resolvable(env, below, &payload),
                        None => Ok(false),
                    }
                } else {
                    match &segment.args {
                        PathArgs::Bare => Ok(
                            contains_name(&env.generic_vars.declared, segment.ident)
                                || is_name_of_type(env, segment.ident),
                        ),
                        PathArgs::Angle(args) => args_are_resolvable(env, below, args),
                        _ => Ok(false),
                    }
                }
            },
            None => Ok(false),
        },
        _ => Ok(true),
    }
}

fn types_are_resolvable(env: &Env, limit: u64, types: &List<Type>) -> (r: Result<bool, Stop>)
    ensures
        r == all_resolvable(*env, limit as nat, *types),
    decreases limit, types,
{
    match types {
        List::Nil => Ok(true),
        List::Cons(ty, rest) => match type_is_resolvable(env, limit, ty) {
            Ok(true) => types_are_resolvable(env, limit, rest),
            other => other,
        },
    }
}

fn args_are_resolvable(env: &Env, limit: u64, args: &List<GenericArg>) -> (r: Result<bool, Stop>)
    ensures
        r == args_resolvable(*env, limit as nat, *args),
    decreases limit, args,
{
    match args {
        List::Nil => Ok(true),
        List::Cons(arg, rest) => match &**arg {
            GenericArg::Type(ty) => match type_is_resolvable(env, limit, ty) {
                Ok(true) => args_are_resolvable(env, limit, rest),
                other => other,
            },
            GenericArg::Const(expr) => {
                if const_expr_is_resolvable(expr, &env.generic_vars) {
                    args_are_resolvable(env, limit, rest)
                } else {
                    Ok(false)
                }
            },
            GenericArg::Lifetime(_) => args_are_resolvable(env, limit, rest),
            GenericArg::Other(_) => Ok(false),
        },
    }
}

// Types that are fully known.

/// Whether a name of a path is known as it stands: none where its arguments decide.
pub open spec fn name_known(env: Env, name: Symbol) -> Option<bool> {
    let bound_to_type = env::has_name(env.generic_vars.inst_types, name);
    let is_struct = env::fields_of(env.structs, name) is Some;
    if env::has_name(env.generic_vars.declared, name) {
        Some(bound_to_type || exprs::const_bound(*env.generic_vars, name))
    } else if scalar::looks_like_type_param(env.names.text_of(name)) && !bound_to_type && !is_struct {
        Some(false)
    } else if bound_to_type || names_a_type(env, name) {
        None
    } else {
        Some(false)
    }
}

fn name_is_known(env: &Env, name: Symbol) -> (r: Option<bool>)
    ensures
        r == name_known(*env, name),
{
    let bound_to_type = contains_name(&env.generic_vars.inst_types, name);
    if contains_name(&env.generic_vars.declared, name) {
        return Some(bound_to_type || is_const_bound(&env.generic_vars, name));
    }
    if is_likely_unresolved_type_param(env.names.text(name)) && !bound_to_type && !find_fields(
        &env.structs,
        name,
    ).is_some() {
        return Some(false);
    }
    if bound_to_type || is_name_of_type(env, name) {
        None
    } else {
        Some(false)
    }
}

/// Whether a type names only generic names that are bound and types that stand on their own.
pub open spec fn fully_known(env: Env, limit: nat, ty: Type) -> Result<bool, Stop>
    decreases limit, ty,
{
    if limit == 0 {
        Err(Stop::LimitReached)
    } else {
        let below = (limit - 1) as nat;
        match alias_free(env, ty) {
            Err(stop) => Err(stop),
            Ok(ty) => match *ty {
                Type::Reference { lifetime: _, mutable: _, elem } => fully_known(env, below, *elem),
                Type::Tuple(elems) => all_fully_known(env, below, elems),
                Type::Array { elem, len } => match fully_known(env, below, *elem) {
                    Ok(true) => Ok(exprs::const_ok(*env.generic_vars, true, *len)),
                    other => other,
                },
                Type::Slice(elem) => fully_known(env, below, *elem),
                Type::Ptr { mutable: _, elem } => fully_known(env, below, *elem),
                Type::Path { qself, path } => match path.segments.end() {
                    Some(segment) => if qself is Some {
                        Ok(false)
                    } else if segment.ident == names::OPTION {
                        match types::option_payload(*ty) {
                            Some(payload) => fully_known(env, below, payload),
                            None => Ok(false),
                        }
                    } else {
                        match name_known(env, segment.ident) {
                            Some(known) => Ok(known),
                            None => match segment.args {
                                PathArgs::Bare => Ok(true),
                                PathArgs::Angle(args) => args_fully_known(env, below, args),
                                _ => Ok(false),
                            },
                        }
                    },
                    None => Ok(false),
                },
                Type::Infer => Ok(false),
                Type::ImplTrait(_) => Ok(false),
                _ => Ok(true),
            },
        }
    }
}

pub open spec fn all_fully_known(env: Env, limit: nat, types: List<Type>) -> Result<bool, Stop>
    decreases limit, types,
{
    match types {
        List::Nil => Ok(true),
        List::Cons(ty, rest) => match fully_known(env, limit, *ty) {
            Ok(true) => all_fully_known(env, limit, *rest),
            other => other,
        },
    }
}

pub open spec fn args_fully_known(
    env: Env,
    limit: nat,
    args: List<GenericArg>,
) -> Result<bool, Stop>
    decreases limit, args,
{
    match args {
        List::Nil => Ok(true),
        List::Cons(arg, rest) => match *arg {
            GenericArg::Type(ty) => match fully_known(env, limit, *ty) {
                Ok(true) => args_fully_known(env, limit, *rest),
                other => other,
            },
            GenericArg::Const(expr) => if exprs::const_ok(*env.generic_vars, true, *expr) {
                args_fully_known(env, limit, *rest)
            } else {
                Ok(false)
            },
            GenericArg::Lifetime(_) => args_fully_known(env, limit, *rest),
            GenericArg::Other(_) => Ok(false),
        },
    }
}

pub fn type_is_fully_known(env: &Env, limit: u64, ty: &Rc<Type>) -> (r: Result<bool, Stop>)
    ensures
        r == fully_known(*env, limit as nat, **ty),
    decreases limit, ty,
{
    if limit == 0 {
        return Err(Stop::LimitReached);
    }
    let below: u64 = limit - 1;
    let ty = match without_aliases(env, ty) {
        Ok(ty) => ty,
        Err(stop) => return Err(stop),
    };
    match &*ty {
        Type::Reference { lifetime: _, mutable: _, elem } => type_is_fully_known(env, below, elem),
        Type::Tuple(elems) => types_are_fully_known(env, below, elems),
        Type::Array { elem, len } => match type_is_fully_known(env, below, elem) {
            Ok(true) => Ok(const_expr_is_fully_known(len, &env.generic_vars)),
            other => other,
        },
        Type::Slice(elem) => type_is_fully_known(env, below, elem),
        Type::Ptr { mutable: _, elem } => type_is_fully_known(env, below, elem),
        Type::Path { qself, path } => match path.segments.last() {
            Some(segment) => {
                if qself.is_some() {
                    Ok(false)
                } else if segment.ident == names::OPTION {
                    match option_payload_syn_type(&ty) {
                        Some(payload) => type_is_fully_known(env, below, &payload),
                        None => Ok(false),
                    }
                } else {
                    match name_is_known(env, segment.ident) {
                        Some(known) => Ok(known),
                        None => match &segment.args {
                            PathArgs::Bare => Ok(true),
                            PathArgs::Angle(args) => args_are_fully_known(env, below, args),
                            _ => Ok(false),
                        },
                    }
                }
            },
            None => Ok(false),
        },
        Type::Infer => Ok(false),
        Type::ImplTrait(_) => Ok(false),
        _ => Ok(true),
    }
}

fn types_are_fully_known(env: &Env, limit: u64, types: &List<Type>) -> (r: Result<bool, Stop>)
    ensures
        r == all_fully_known(*env, limit as nat, *types),
    decreases limit, types,
{
    match types {
        List::Nil => Ok(true),
        List::Cons(ty, rest) => match type_is_fully_known(env, limit, ty) {
            Ok(true) => types_are_fully_known(env, limit, rest),
            other => other,
        },
    }
}

fn args_are_fully_known(env: &Env, limit: u64, args: &List<GenericArg>) -> (r: Result<bool, Stop>)
    ensures
        r == args_fully_known(*env, limit as nat, *args),
    decreases limit, args,
{
    match args {
        List::Nil => Ok(true),
        List::Cons(arg, rest) => match &**arg {
            GenericArg::Type(ty) => match type_is_fully_known(env, limit, ty) {
                Ok(true) => args_are_fully_known(env, limit, rest),
                other => other,
            },
            GenericArg::Const(expr) => {
                if const_expr_is_fully_known(expr, &env.generic_vars) {
                    args_are_fully_known(env, limit, rest)
                } else {
                    Ok(false)
                }
            },
            GenericArg::Lifetime(_) => args_are_fully_known(env, limit, rest),
            GenericArg::Other(_) => Ok(false),
        },
    }
}

} // verus!

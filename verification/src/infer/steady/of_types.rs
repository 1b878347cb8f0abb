//! What is known of types stays.
use crate::env::Env;
use crate::exprs;
use crate::infer::steady;
use crate::list::{self, List};
use crate::names;
use crate::resolvable;
use crate::syntax::{GenericArg, PathArgs, Type};
use crate::types;
use vstd::prelude::*;

verus! {

/// Whether a type is resolvable comes out the same with a larger limit and with more questions
/// answered.
pub proof fn resolvable_stays(env: Env, other: Env, limit: nat, more: nat, ty: Type)
    requires
        steady::env_learns(env, other),
        limit <= more,
    ensures
        steady::stays(
            resolvable::resolvable(env, limit, ty),
            resolvable::resolvable(other, more, ty),
        ),
    decreases limit, ty,
{
    if limit > 0 {
        let below = (limit - 1) as nat;
        let more_below = (more - 1) as nat;
        if let Ok(ty) = resolvable::alias_free(env, ty) {
            match list::held(&ty) {
                Type::Reference { lifetime: _, mutable: _, elem } => {
                    resolvable_stays(env, other, below, more_below, list::held(&elem));
                },
                Type::Tuple(elems) => {
                    all_resolvable_stays(env, other, below, more_below, elems);
                },
                Type::Array { elem, len } => {
                    resolvable_stays(env, other, below, more_below, list::held(&elem));
                },
                Type::Ptr { mutable: _, elem } => {
                    resolvable_stays(env, other, below, more_below, list::held(&elem));
                },
                Type::Path { qself, path } => {
                    if let Some(segment) = path.segments.end() {
                        if !(qself is Some) {
                            if segment.ident == names::OPTION {
                                if let Some(payload) = types::option_payload(list::held(&ty)) {
                                    resolvable_stays(env, other, below, more_below, payload);
                                }
                            } else {
                                if let PathArgs::Angle(args) = segment.args {
                                    args_resolvable_stays(env, other, below, more_below, args);
                                }
                            }
                        }
                    }
                },
                _ => {},
            }
        }
    }
}

proof fn all_resolvable_stays(env: Env, other: Env, limit: nat, more: nat, types: List<Type>)
    requires
        steady::env_learns(env, other),
        limit <= more,
    ensures
        steady::stays(
            resolvable::all_resolvable(env, limit, types),
            resolvable::all_resolvable(other, more, types),
        ),
    decreases limit, types,
{
    if let List::Cons(ty, rest) = types {
        resolvable_stays(env, other, limit, more, list::held(&ty));
        if let Ok(true) = resolvable::resolvable(env, limit, list::held(&ty)) {
            all_resolvable_stays(env, other, limit, more, list::held(&rest));
        }
    }
}

proof fn args_resolvable_stays(env: Env, other: Env, limit: nat, more: nat, args: List<GenericArg>)
    requires
        steady::env_learns(env, other),
        limit <= more,
    ensures
        steady::stays(
            resolvable::args_resolvable(env, limit, args),
            resolvable::args_resolvable(other, more, args),
        ),
    decreases limit, args,
{
    if let List::Cons(arg, rest) = args {
        match list::held(&arg) {
            GenericArg::Type(ty) => {
                resolvable_stays(env, other, limit, more, list::held(&ty));
                if let Ok(true) = resolvable::resolvable(env, limit, list::held(&ty)) {
                    args_resolvable_stays(env, other, limit, more, list::held(&rest));
                }
            },
            GenericArg::Const(expr) => {
                if exprs::const_ok(list::held(&env.generic_vars), false, list::held(&expr)) {
                    args_resolvable_stays(env, other, limit, more, list::held(&rest));
                }
            },
            GenericArg::Lifetime(_) => {
                args_resolvable_stays(env, other, limit, more, list::held(&rest));
            },
            _ => {},
        }
    }
}

/// Whether a type is fully known comes out the same with a larger limit and with more questions
/// answered.
pub proof fn fully_known_stays(env: Env, other: Env, limit: nat, more: nat, ty: Type)
    requires
        steady::env_learns(env, other),
        limit <= more,
    ensures
        steady::stays(
            resolvable::fully_known(env, limit, ty),
            resolvable::fully_known(other, more, ty),
        ),
    decreases limit, ty,
{
    if limit > 0 {
        let below = (limit - 1) as nat;
        let more_below = (more - 1) as nat;
        if let Ok(ty) = resolvable::alias_free(env, ty) {
            match list::held(&ty) {
                Type::Reference { lifetime: _, mutable: _, elem } => {
                    fully_known_stays(env, other, below, more_below, list::held(&elem));
                },
                Type::Tuple(elems) => {
                    all_fully_known_stays(env, other, below, more_below, elems);
                },
                Type::Array { elem, len } => {
                    fully_known_stays(env, other, below, more_below, list::held(&elem));
                },
                Type::Slice(elem) => {
                    fully_known_stays(env, other, below, more_below, list::held(&elem));
                },
                Type::Ptr { mutable: _, elem } => {
                    fully_known_stays(env, other, below, more_below, list::held(&elem));
                },
                Type::Path { qself, path } => {
                    if let Some(segment) = path.segments.end() {
                        if !(qself is Some) {
                            if segment.ident == names::OPTION {
                                if let Some(payload) = types::option_payload(list::held(&ty)) {
                                    fully_known_stays(env, other, below, more_below, payload);
                                }
                            } else {
                                if let None = resolvable::name_known(env, segment.ident) {
                                    if let PathArgs::Angle(args) = segment.args {
                                        args_fully_known_stays(env, other, below, more_below, args);
                                    }
                                }
                            }
                        }
                    }
                },
                _ => {},
            }
        }
    }
}

proof fn all_fully_known_stays(env: Env, other: Env, limit: nat, more: nat, types: List<Type>)
    requires
        steady::env_learns(env, other),
        limit <= more,
    ensures
        steady::stays(
            resolvable::all_fully_known(env, limit, types),
            resolvable::all_fully_known(other, more, types),
        ),
    decreases limit, types,
{
    if let List::Cons(ty, rest) = types {
        fully_known_stays(env, other, limit, more, list::held(&ty));
        if let Ok(true) = resolvable::fully_known(env, limit, list::held(&ty)) {
            all_fully_known_stays(env, other, limit, more, list::held(&rest));
        }
    }
}

proof fn args_fully_known_stays(env: Env, other: Env, limit: nat, more: nat, args: List<GenericArg>)
    requires
        steady::env_learns(env, other),
        limit <= more,
    ensures
        steady::stays(
            resolvable::args_fully_known(env, limit, args),
            resolvable::args_fully_known(other, more, args),
        ),
    decreases limit, args,
{
    if let List::Cons(arg, rest) = args {
        match list::held(&arg) {
            GenericArg::Type(ty) => {
                fully_known_stays(env, other, limit, more, list::held(&ty));
                if let Ok(true) = resolvable::fully_known(env, limit, list::held(&ty)) {
                    args_fully_known_stays(env, other, limit, more, list::held(&rest));
                }
            },
            GenericArg::Const(expr) => {
                if exprs::const_ok(list::held(&env.generic_vars), true, list::held(&expr)) {
                    args_fully_known_stays(env, other, limit, more, list::held(&rest));
                }
            },
            GenericArg::Lifetime(_) => {
                args_fully_known_stays(env, other, limit, more, list::held(&rest));
            },
            _ => {},
        }
    }
}

} // verus!

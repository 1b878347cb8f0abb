//! What calls mean and return stays.
use crate::ask;
use crate::env::{Env, NamedParam, Step, TileType};
use crate::infer::selection::{self, ArgNames, NamePair};
use crate::infer::state::{Frame, StateView};
use crate::infer::steady;
use crate::infer::steady::of_types;
use crate::list::{self, List};
use crate::names;
use crate::syntax::{Expr, ExprKind, FnItem, GenericArg, ImplItem, Lit, Symbol, Type};
use crate::types;
use std::rc::Rc;
use vstd::prelude::*;

verus! {

proof fn method_vars_stays(
    env: Env,
    other: Env,
    item: ImplItem,
    method: FnItem,
    turbofish: Option<List<GenericArg>>,
    args: List<Type>,
)
    requires
        steady::env_learns(env, other),
    ensures
        steady::stays(
            selection::method_vars(env, item, method, turbofish, args),
            selection::method_vars(other, item, method, turbofish, args),
        ),
{
}

proof fn method_return_stays(
    f: Frame,
    g: Frame,
    limit: nat,
    more: nat,
    s: StateView,
    item: ImplItem,
    method: FnItem,
    call: Expr,
    turbofish: Option<List<GenericArg>>,
    args: List<Type>,
)
    requires
        steady::learns(f, g),
        limit <= more,
    ensures
        steady::stays(
            selection::method_return(f, limit, s, item, method, call, turbofish, args),
            selection::method_return(g, more, s, item, method, call, turbofish, args),
        ),
{
    if !types::any_mentions_impl(method.param_types) && !types::mentions_impl(
        list::held(&method.return_type),
    ) {
        let solver = ask::method_solver(item.id, method.id).after(Step::Arguments(args)).after(
            Step::ProvidedByMethodCall(turbofish),
        );
        if let Ok(true) = ask::verified(f.env, solver) {
            if let Ok(ty) = ask::instantiated(f.env, solver, list::held(&method.return_type)) {
                of_types::resolvable_stays(f.env, g.env, limit, more, list::held(&ty));
            }
        }
    }
}

pub(crate) proof fn selected_method_stays(
    f: Frame,
    g: Frame,
    limit: nat,
    more: nat,
    s: StateView,
    call: Expr,
    turbofish: Option<List<GenericArg>>,
    args: List<Type>,
)
    requires
        steady::learns(f, g),
        limit <= more,
    ensures
        steady::stays(
            selection::selected_method(f, limit, s, call, turbofish, args),
            selection::selected_method(g, more, s, call, turbofish, args),
        ),
{
    if let List::Cons(receiver, _) = args {
        if let Ok(Some(found)) = ask::method(f.env, list::held(&receiver), call, args) {
            method_vars_stays(
                f.env,
                g.env,
                list::held(&found.impl_item),
                list::held(&found.method),
                turbofish,
                args,
            );
            if let Ok(generic_vars) = selection::method_vars(
                f.env,
                list::held(&found.impl_item),
                list::held(&found.method),
                turbofish,
                args,
            ) {
                method_return_stays(
                    f,
                    g,
                    limit,
                    more,
                    s,
                    list::held(&found.impl_item),
                    list::held(&found.method),
                    call,
                    turbofish,
                    args,
                );
            }
        }
    }
}

proof fn arg_names_stays(
    f: Frame,
    g: Frame,
    params: List<Symbol>,
    args: List<Expr>,
    found: ArgNames,
)
    requires
        steady::learns(f, g),
    ensures
        steady::stays(
            selection::arg_names(f, params, args, found),
            selection::arg_names(g, params, args, found),
        ),
    decreases params,
{
    if let (List::Cons(param, params), List::Cons(arg, args)) = (params, args) {
        if let Ok(marker) = ask::marker_name(f.env, list::held(&arg)) {
            let markers = match marker {
                Some(value) => List::Cons(
                    Rc::new(NamePair { name: list::held(&param), value }),
                    Rc::new(found.markers),
                ),
                None => found.markers,
            };
            match arg.kind {
                ExprKind::Lit { lit, ty: _ } => {
                    match lit {
                        Lit::Str(value) => {
                            arg_names_stays(
                                f,
                                g,
                                list::held(&params),
                                list::held(&args),
                                ArgNames {
                                    markers,
                                    strings: List::Cons(
                                        Rc::new(NamePair { name: list::held(&param), value }),
                                        Rc::new(found.strings),
                                    ),
                                },
                            );
                        },
                        _ => {
                            arg_names_stays(
                                f,
                                g,
                                list::held(&params),
                                list::held(&args),
                                ArgNames { markers, strings: found.strings },
                            );
                        },
                    }
                },
                _ => {
                    if list::held(&param) == names::PADDING_VALUE {
                        match ask::padding_name(f.env, list::held(&arg)) {
                            Err(_) => {},
                            Ok(Some(value)) => {
                                arg_names_stays(
                                    f,
                                    g,
                                    list::held(&params),
                                    list::held(&args),
                                    ArgNames {
                                        markers,
                                        strings: List::Cons(
                                            Rc::new(NamePair { name: list::held(&param), value }),
                                            Rc::new(found.strings),
                                        ),
                                    },
                                );
                            },
                            Ok(None) => {
                                arg_names_stays(
                                    f,
                                    g,
                                    list::held(&params),
                                    list::held(&args),
                                    ArgNames { markers, strings: found.strings },
                                );
                            },
                        }
                    } else {
                        arg_names_stays(
                            f,
                            g,
                            list::held(&params),
                            list::held(&args),
                            ArgNames { markers, strings: found.strings },
                        );
                    }
                },
            }
        }
    }
}

proof fn output_named_stays(
    f: Frame,
    g: Frame,
    wanted: List<Symbol>,
    item: FnItem,
    types: List<TileType>,
    found: ArgNames,
    named: List<NamedParam>,
)
    requires
        steady::learns(f, g),
    ensures
        steady::stays(
            selection::output_named(f, wanted, item, types, found, named),
            selection::output_named(g, wanted, item, types, found, named),
        ),
    decreases wanted,
{
    if let List::Cons(name, rest) = wanted {
        if selection::left_out(list::held(&name), found.markers) {
            output_named_stays(f, g, list::held(&rest), item, types, found, named);
        } else {
            match selection::arg_type_named(item.param_names, types, list::held(&name)) {
                None => {
                    output_named_stays(f, g, list::held(&rest), item, types, found, named);
                },
                Some(ty) => {
                    if let Ok(param) = ask::derived_param(f.env, list::held(&name), ty) {
                        output_named_stays(
                            f,
                            g,
                            list::held(&rest),
                            item,
                            types,
                            found,
                            selection::with_param(
                                named,
                                list::held(&name),
                                Rc::new(
                                    selection::with_padding(
                                        list::held(&param),
                                        selection::value_of(found.strings, list::held(&name)),
                                    ),
                                ),
                            ),
                        );
                    }
                },
            }
        }
    }
}

proof fn result_params_stays(
    f: Frame,
    g: Frame,
    item: FnItem,
    args: List<Expr>,
    types: List<TileType>,
    expected: Option<Rc<TileType>>,
)
    requires
        steady::learns(f, g),
    ensures
        steady::stays(
            selection::result_params(f, item, args, types, expected),
            selection::result_params(g, item, args, types, expected),
        ),
{
    let named = match expected {
        Some(expected) => selection::params_by_name(list::held(&expected).params, List::Nil),
        None => List::Nil,
    };
    arg_names_stays(
        f,
        g,
        item.param_names,
        args,
        ArgNames { markers: List::Nil, strings: List::Nil },
    );
    if let Ok(found) = selection::arg_names(
        f,
        item.param_names,
        args,
        ArgNames { markers: List::Nil, strings: List::Nil },
    ) {
        if let Ok(Some(wanted)) = ask::output_params(f.env, item.name) {
            output_named_stays(f, g, wanted, item, types, found, named);
        }
    }
}

proof fn call_output_stays(
    f: Frame,
    g: Frame,
    limit: nat,
    more: nat,
    item: FnItem,
    func: Rc<Expr>,
    args: List<Expr>,
    types: List<TileType>,
)
    requires
        steady::learns(f, g),
        limit <= more,
    ensures
        steady::stays(
            selection::call_output(f, limit, item, func, args, types),
            selection::call_output(g, more, item, func, args, types),
        ),
{
    if !(types is Nil && !(args is Nil)) {
        if !types::any_mentions_impl(item.param_types) && !types::mentions_impl(
            list::held(&item.return_type),
        ) {
            let solver = ask::function_solver(item.id).after(
                Step::Arguments(selection::written_types(types)),
            ).after(Step::ProvidedByCall(func));
            if let Ok(true) = ask::verified(f.env, solver) {
                if let Ok(ty) = ask::instantiated(f.env, solver, list::held(&item.return_type)) {
                    of_types::resolvable_stays(f.env, g.env, limit, more, list::held(&ty));
                }
            }
        }
    }
}

pub(crate) proof fn function_return_stays(
    f: Frame,
    g: Frame,
    limit: nat,
    more: nat,
    s: StateView,
    item: FnItem,
    call: Expr,
    func: Rc<Expr>,
    args: List<Expr>,
    types: List<TileType>,
    expected: Option<Rc<TileType>>,
)
    requires
        steady::learns(f, g),
        limit <= more,
    ensures
        steady::stays(
            selection::function_return(f, limit, s, item, call, func, args, types, expected),
            selection::function_return(g, more, s, item, call, func, args, types, expected),
        ),
{
    call_output_stays(f, g, limit, more, item, func, args, types);
    if let Ok(Some(ty)) = selection::call_output(f, limit, item, func, args, types) {
        result_params_stays(f, g, item, args, types, expected);
    }
}

} // verus!

//! What code generation has done stays done when it is started again with more replies.
//!
//! A step that comes to the end of its tape names the next request, and is started again with the
//! reply at the end. Each step is followed both ways: what did not stop for want of a reply comes
//! out the same, and leaves what was added.
use crate::codegen::calls::{self, Adopts, Entered, Params, Site};
use crate::codegen::consts::{self, Bound};
use crate::codegen::kernel::{
    self, CUDATileFunctionCompiler, EntryAttrs, KernelItem, KernelRequest, Program,
};
use crate::codegen::tape::{
    self, ArrayConst, BoolConst, ConstKind, Constants, Halt, Hints, IntConst, Reply, Request, Run,
    ScalarType, StrideArg, TypedName,
};
use crate::codegen::typing::{self, Body, Typing};
use crate::codegen::value::{self, Bounds, Context, Value};
use crate::env::{
    Entry, Env, GenericVars, MethodItem, NamedParam, Stop, TileType, TypeParam,
};
use crate::exprs;
use crate::infer::selection;
use crate::list::{self, List};
use crate::names::{self, Names};
use crate::results::ResultsView;
use crate::scalar;
use crate::syntax::{Expr, FnItem, Symbol, Type};
use std::rc::Rc;
use vstd::prelude::*;

verus! {

/// A tape with more replies at its end.
pub open spec fn appended(tape: List<Reply>, added: List<Reply>) -> List<Reply>
    decreases tape,
{
    match tape {
        List::Nil => added,
        List::Cons(reply, rest) => List::Cons(reply, Rc::new(appended(*rest, added))),
    }
}

/// Whether what came of a tape comes of the tape with more replies too, which are then left: it
/// does unless the tape was too short.
pub open spec fn goes_on<T>(before: Run<T>, after: Run<T>, added: List<Reply>) -> bool {
    match before {
        Err(Halt::Perform(_)) => true,
        Err(halt) => after == Err::<(List<Reply>, T), Halt<ResultsView>>(halt),
        Ok((left, value)) => after == Ok::<(List<Reply>, T), Halt<ResultsView>>(
            (appended(left, added), value),
        ),
    }
}

// Constants.

proof fn constant_bytes_goes_on(
    tape: List<Reply>,
    added: List<Reply>,
    scalar: ScalarType,
    value: i64,
)
    ensures
        goes_on(
            consts::constant_bytes(tape, scalar, value),
            consts::constant_bytes(appended(tape, added), scalar, value),
            added,
        ),
{
}

proof fn constant_from_bounds_goes_on(
    tape: List<Reply>,
    added: List<Reply>,
    bounds: Bounds,
    ty: Rc<TileType>,
)
    ensures
        goes_on(
            consts::constant_from_bounds(tape, bounds, ty),
            consts::constant_from_bounds(appended(tape, added), bounds, ty),
            added,
        ),
{
    if !(bounds.start != bounds.end) {
        if let Ok((tape, Some(scalar))) = tape::scalar_reply(tape, Request::ScalarOf(ty)) {
            constant_bytes_goes_on(tape, added, scalar, bounds.start);
        }
    }
}

proof fn constant_goes_on(
    tape: List<Reply>,
    added: List<Reply>,
    generics: Rc<GenericVars>,
    ty: Symbol,
    value: i64,
)
    ensures
        goes_on(
            consts::constant(tape, generics, ty, value),
            consts::constant(appended(tape, added), generics, ty, value),
            added,
        ),
{
    if let Ok((tape, Some(tile))) = tape::type_reply(
        tape,
        Request::CompileType { ty: Rc::new(scalar::named_type(ty)), generics, params: List::Nil },
    ) {
        constant_from_bounds_goes_on(tape, added, Bounds { start: value, end: value }, tile);
    }
}

proof fn with_ints_goes_on(
    tape: List<Reply>,
    added: List<Reply>,
    generics: Rc<GenericVars>,
    scope: Context,
    ints: List<IntConst>,
)
    ensures
        goes_on(
            consts::with_ints(tape, generics, scope, ints),
            consts::with_ints(appended(tape, added), generics, scope, ints),
            added,
        ),
    decreases ints,
{
    if let List::Cons(item, rest) = ints {
        constant_goes_on(tape, added, generics, names::I32, item.value as i64);
        if let Ok((tape, val)) = consts::constant(tape, generics, names::I32, item.value as i64) {
            with_ints_goes_on(
                tape,
                added,
                generics,
                value::binding(scope, item.name, val),
                list::held(&rest),
            );
        }
    }
}

proof fn with_bools_goes_on(
    tape: List<Reply>,
    added: List<Reply>,
    generics: Rc<GenericVars>,
    scope: Context,
    bools: List<BoolConst>,
)
    ensures
        goes_on(
            consts::with_bools(tape, generics, scope, bools),
            consts::with_bools(appended(tape, added), generics, scope, bools),
            added,
        ),
    decreases bools,
{
    if let List::Cons(item, rest) = bools {
        constant_goes_on(tape, added, generics, names::BOOL, consts::bool_number(item.value));
        if let Ok((tape, val)) = consts::constant(
            tape,
            generics,
            names::BOOL,
            consts::bool_number(item.value),
        ) {
            with_bools_goes_on(
                tape,
                added,
                generics,
                value::binding(scope, item.name, val),
                list::held(&rest),
            );
        }
    }
}

proof fn with_arrays_goes_on(
    tape: List<Reply>,
    added: List<Reply>,
    generics: Rc<GenericVars>,
    scope: Context,
    arrays: List<ArrayConst>,
)
    ensures
        goes_on(
            consts::with_arrays(tape, generics, scope, arrays),
            consts::with_arrays(appended(tape, added), generics, scope, arrays),
            added,
        ),
    decreases arrays,
{
    reveal_with_fuel(appended, 6);
    if let List::Cons(item, rest) = arrays {
        if let Ok((tape, expected)) = tape::type_reply(
            tape,
            Request::CompileType {
                ty: Rc::new(consts::int_array_type(exprs::length(list::held(&item).dims))),
                generics,
                params: List::Nil,
            },
        ) {
            if let Ok((tape, (Some(val), scope))) = tape::value_reply(
                tape,
                Request::CompileExpr {
                    expr: Rc::new(consts::array_literal(list::held(&item).dims)),
                    generics,
                    scope: Rc::new(scope),
                    expected,
                },
            ) {
                with_arrays_goes_on(
                    tape,
                    added,
                    generics,
                    value::binding(list::held(&scope), item.name, val),
                    list::held(&rest),
                );
            }
        }
    }
}

proof fn with_constants_goes_on(
    tape: List<Reply>,
    added: List<Reply>,
    outer: Rc<GenericVars>,
    generics: Rc<GenericVars>,
    constants: Constants,
    scope: Context,
)
    ensures
        goes_on(
            consts::with_constants(tape, outer, generics, constants, scope),
            consts::with_constants(appended(tape, added), outer, generics, constants, scope),
            added,
        ),
{
    with_ints_goes_on(tape, added, outer, scope, constants.ints);
    if let Ok((tape, scope)) = consts::with_ints(tape, outer, scope, constants.ints) {
        with_bools_goes_on(tape, added, outer, scope, constants.bools);
        if let Ok((tape, scope)) = consts::with_bools(tape, outer, scope, constants.bools) {
            with_arrays_goes_on(tape, added, generics, scope, constants.arrays);
        }
    }
}

// Calls.

proof fn tile_type_of_goes_on(
    tape: List<Reply>,
    added: List<Reply>,
    site: Site,
    expr: Expr,
    params: List<NamedParam>,
)
    ensures
        goes_on(
            calls::tile_type_of(tape, site, expr, params),
            calls::tile_type_of(appended(tape, added), site, expr, params),
            added,
        ),
{
}

proof fn derived_type_goes_on(
    tape: List<Reply>,
    added: List<Reply>,
    site: Site,
    expr: Expr,
    params: List<TypeParam>,
)
    ensures
        goes_on(
            calls::derived_type(tape, site, expr, params),
            calls::derived_type(appended(tape, added), site, expr, params),
            added,
        ),
{
    tile_type_of_goes_on(tape, added, site, expr, selection::params_by_name(params, List::Nil));
}

proof fn arg_values_goes_on(
    tape: List<Reply>,
    added: List<Reply>,
    site: Site,
    scope: Context,
    args: List<Expr>,
    at: usize,
)
    ensures
        goes_on(
            calls::arg_values(tape, site, scope, args, at),
            calls::arg_values(appended(tape, added), site, scope, args, at),
            added,
        ),
    decreases args,
{
    if let List::Cons(arg, rest) = args {
        if calls::takes_found_type(list::held(&arg)) {
            tile_type_of_goes_on(tape, added, site, list::held(&arg), List::Nil);
        }
        let expected = if calls::takes_found_type(list::held(&arg)) {
            calls::tile_type_of(tape, site, list::held(&arg), List::Nil)
        } else {
            Ok((tape, None))
        };
        if let Ok((tape, expected)) = expected {
            if let Ok((tape, (Some(val), scope))) = tape::value_reply(
                tape,
                Request::CompileExpr {
                    expr: arg,
                    generics: site.generics,
                    scope: Rc::new(scope),
                    expected,
                },
            ) {
                arg_values_goes_on(
                    tape,
                    added,
                    site,
                    list::held(&scope),
                    list::held(&rest),
                    calls::after(at),
                );
            }
        }
    }
}

proof fn payload_bound_goes_on(
    tape: List<Reply>,
    added: List<Reply>,
    site: Site,
    entered: Entered,
    arg: Value,
    payload_name: Symbol,
    at: usize,
)
    ensures
        goes_on(
            calls::payload_bound(tape, site, entered, arg, payload_name, at),
            calls::payload_bound(appended(tape, added), site, entered, arg, payload_name, at),
            added,
        ),
{
}

proof fn params_bound_goes_on(
    tape: List<Reply>,
    added: List<Reply>,
    site: Site,
    entered: Entered,
    params: Params,
    args: List<Expr>,
    values: List<Value>,
    at: usize,
)
    ensures
        goes_on(
            calls::params_bound(tape, site, entered, params, args, values, at),
            calls::params_bound(appended(tape, added), site, entered, params, args, values, at),
            added,
        ),
    decreases params.names,
{
    if let List::Cons(name, more_names) = params.names {
        if let (
            List::Cons(ty, more_types),
            List::Cons(mutable, more_mutable),
            List::Cons(arg, more_args),
            List::Cons(val, more_values),
        ) = (
            params.types,
            params.mutable,
            args,
            values,
        ) {
            if let Some(payloads) = params.payload_names {
                payload_bound_goes_on(
                    tape,
                    added,
                    site,
                    entered,
                    list::held(&val),
                    calls::first_name(payloads),
                    at,
                );
            }
            let step = match params.payload_names {
                Some(payloads) => calls::payload_bound(
                    tape,
                    site,
                    entered,
                    list::held(&val),
                    calls::first_name(payloads),
                    at,
                ),
                None => Ok((tape, (entered, list::held(&val)))),
            };
            if let Ok((tape, (entered, val))) = step {
                params_bound_goes_on(
                    tape,
                    added,
                    site,
                    Entered {
                        inner: value::binding(
                            entered.inner,
                            list::held(&name),
                            Rc::new(calls::as_param(val, ty, list::held(&mutable))),
                        ),
                        outer: entered.outer,
                        passed: calls::with_passed(
                            entered.passed,
                            list::held(&arg),
                            list::held(&name),
                        ),
                    },
                    Params {
                        names: list::held(&more_names),
                        types: list::held(&more_types),
                        mutable: list::held(&more_mutable),
                        payload_names: match params.payload_names {
                            Some(payloads) => Some(calls::behind(payloads)),
                            None => None,
                        },
                    },
                    list::held(&more_args),
                    list::held(&more_values),
                    calls::after(at),
                );
            }
        }
    }
}

proof fn call_value_goes_on(
    tape: List<Reply>,
    added: List<Reply>,
    site: Site,
    call: Expr,
    value: Option<Rc<Value>>,
    expected: Option<Rc<TileType>>,
    adopts: Adopts,
)
    ensures
        goes_on(
            calls::call_value(tape, site, call, value, expected, adopts),
            calls::call_value(appended(tape, added), site, call, value, expected, adopts),
            added,
        ),
{
    if let (Some(val), None) = (value, expected) {
        derived_type_goes_on(tape, added, site, call, list::held(&list::held(&val).ty).params);
    }
}

proof fn call_ended_goes_on(
    tape: List<Reply>,
    added: List<Reply>,
    site: Site,
    call: Expr,
    entered: Entered,
    body: (Option<Rc<Value>>, Rc<Context>),
    expected: Option<Rc<TileType>>,
    adopts: Adopts,
)
    ensures
        goes_on(
            calls::call_ended(tape, site, call, entered, body, expected, adopts),
            calls::call_ended(appended(tape, added), site, call, entered, body, expected, adopts),
            added,
        ),
{
    call_value_goes_on(tape, added, site, call, body.0, expected, adopts);
}

proof fn bound_generics_goes_on(
    tape: List<Reply>,
    added: List<Reply>,
    names: Names,
    site: Site,
    vars: Rc<GenericVars>,
)
    ensures
        goes_on(
            calls::bound_generics(tape, names, site, vars),
            calls::bound_generics(appended(tape, added), names, site, vars),
            added,
        ),
{
}

proof fn function_generics_goes_on(
    tape: List<Reply>,
    added: List<Reply>,
    site: Site,
    item: FnItem,
    func: Expr,
    values: List<Value>,
)
    ensures
        goes_on(
            calls::function_generics(tape, site, item, func, values),
            calls::function_generics(appended(tape, added), site, item, func, values),
            added,
        ),
{
}

proof fn types_found_goes_on(
    tape: List<Reply>,
    added: List<Reply>,
    env: Env,
    body: Body,
    initial: Map<Symbol, Rc<TileType>>,
)
    ensures
        goes_on(
            typing::types_found(tape, env, body, initial),
            typing::types_found(appended(tape, added), env, body, initial),
            added,
        ),
    decreases tape,
{
    if let Err(Stop::Unanswered(question)) = typing::found_with(env, body, initial) {
        if let List::Cons(reply, rest) = tape {
            if let Reply::Answer(answer) = list::held(&reply) {
                let book = List::Cons(
                    Rc::new(Entry { question, answer: list::held(&answer) }),
                    Rc::new(env.book),
                );
                types_found_goes_on(
                    list::held(&rest),
                    added,
                    Env { book, ..env },
                    body,
                    initial,
                );
            }
        }
    }
}

/// The types in a body are found as before with more replies on the tape.
pub proof fn body_types_goes_on(
    tape: List<Reply>,
    added: List<Reply>,
    typing: Typing,
    generics: Rc<GenericVars>,
    body: Body,
    initial: List<TypedName>,
)
    ensures
        goes_on(
            typing::body_types(tape, typing, generics, body, initial),
            typing::body_types(appended(tape, added), typing, generics, body, initial),
            added,
        ),
{
    types_found_goes_on(
        tape,
        added,
        typing::env_for(typing, generics),
        body,
        typing::type_table(initial),
    );
}

proof fn function_body_goes_on(
    tape: List<Reply>,
    added: List<Reply>,
    names: Names,
    site: Site,
    module: Symbol,
    item: Rc<FnItem>,
    call: Expr,
    entered: Entered,
    bound: Bound,
    expected: Option<Rc<TileType>>,
)
    ensures
        goes_on(
            calls::function_body(tape, names, site, module, item, call, entered, bound, expected),
            calls::function_body(
                appended(tape, added),
                names,
                site,
                module,
                item,
                call,
                entered,
                bound,
                expected,
            ),
            added,
        ),
{
    reveal_with_fuel(appended, 6);
    let at_call = !value::same_module(names.text_of(module), names.text_of(site.module));
    if let Ok((tape, numbered)) = tape::item_reply(tape, Request::Number { item, at_call }) {
        let item = Body { impl_item: None, item: numbered };
        let initial = calls::typed_names(entered.inner.vars);
        body_types_goes_on(tape, added, list::held(&site.typing), bound.vars, item, initial);
        if let Ok((tape, found)) = typing::body_types(
            tape,
            list::held(&site.typing),
            bound.vars,
            item,
            initial,
        ) {
            if let Ok((tape, lowered)) = tape::item_reply(
                tape,
                Request::Lower { item: numbered, results: found },
            ) {
                if let Ok((tape, body)) = tape::value_reply(
                    tape,
                    Request::CompileBlock {
                        body: Rc::new(list::held(&lowered).body),
                        generics: bound.vars,
                        scope: Rc::new(entered.inner),
                        expected,
                        results: found,
                    },
                ) {
                    call_ended_goes_on(
                        tape,
                        added,
                        site,
                        call,
                        entered,
                        body,
                        expected,
                        Adopts::All,
                    );
                }
            }
        }
    }
}

/// A call of a function is inlined as before with more replies on the tape.
pub proof fn function_inlined_goes_on(
    tape: List<Reply>,
    added: List<Reply>,
    names: Names,
    site: Site,
    module: Symbol,
    item: Rc<FnItem>,
    call: Expr,
    func: Expr,
    args: List<Expr>,
    payload_names: List<Symbol>,
    scope: Context,
    expected: Option<Rc<TileType>>,
)
    ensures
        goes_on(
            calls::function_inlined(
                tape,
                names,
                site,
                module,
                item,
                call,
                func,
                args,
                payload_names,
                scope,
                expected,
            ),
            calls::function_inlined(
                appended(tape, added),
                names,
                site,
                module,
                item,
                call,
                func,
                args,
                payload_names,
                scope,
                expected,
            ),
            added,
        ),
{
    if let Ok((tape, item)) = tape::item_reply(tape, Request::NormalizeParams(item)) {
        arg_values_goes_on(tape, added, site, scope, args, 0);
        if let Ok((tape, (values, outer))) = calls::arg_values(tape, site, scope, args, 0) {
            params_bound_goes_on(
                tape,
                added,
                site,
                Entered { inner: value::scope_in(module), outer, passed: List::Nil },
                Params {
                    names: list::held(&item).param_names,
                    types: list::held(&item).param_types,
                    mutable: list::held(&item).param_mutable,
                    payload_names: Some(payload_names),
                },
                args,
                values,
                0,
            );
            if let Ok((tape, entered)) = calls::params_bound(
                tape,
                site,
                Entered { inner: value::scope_in(module), outer, passed: List::Nil },
                Params {
                    names: list::held(&item).param_names,
                    types: list::held(&item).param_types,
                    mutable: list::held(&item).param_mutable,
                    payload_names: Some(payload_names),
                },
                args,
                values,
                0,
            ) {
                function_generics_goes_on(tape, added, site, list::held(&item), func, values);
                if let Ok((tape, vars)) = calls::function_generics(
                    tape,
                    site,
                    list::held(&item),
                    func,
                    values,
                ) {
                    bound_generics_goes_on(tape, added, names, site, vars);
                    if let Ok((tape, bound)) = calls::bound_generics(tape, names, site, vars) {
                        with_constants_goes_on(
                            tape,
                            added,
                            bound.vars,
                            bound.vars,
                            list::held(&bound.constants),
                            entered.inner,
                        );
                        if let Ok((tape, inner)) = consts::with_constants(
                            tape,
                            bound.vars,
                            bound.vars,
                            list::held(&bound.constants),
                            entered.inner,
                        ) {
                            function_body_goes_on(
                                tape,
                                added,
                                names,
                                site,
                                module,
                                item,
                                call,
                                Entered { inner, .. entered },
                                bound,
                                expected,
                            );
                        }
                    }
                }
            }
        }
    }
}

proof fn method_of_call_goes_on(
    tape: List<Reply>,
    added: List<Reply>,
    site: Site,
    call: Expr,
    receiver: Rc<Type>,
    args: List<Type>,
)
    ensures
        goes_on(
            calls::method_of_call(tape, site, call, receiver, args),
            calls::method_of_call(appended(tape, added), site, call, receiver, args),
            added,
        ),
{
}

proof fn method_generics_goes_on(
    tape: List<Reply>,
    added: List<Reply>,
    site: Site,
    method: MethodItem,
    call: Expr,
    args: List<Type>,
    known: Option<Rc<GenericVars>>,
)
    ensures
        goes_on(
            calls::method_generics(tape, site, method, call, args, known),
            calls::method_generics(appended(tape, added), site, method, call, args, known),
            added,
        ),
{
}

proof fn method_body_goes_on(
    tape: List<Reply>,
    added: List<Reply>,
    site: Site,
    method: MethodItem,
    call: Expr,
    entered: Entered,
    vars: Rc<GenericVars>,
    expected: Option<Rc<TileType>>,
)
    ensures
        goes_on(
            calls::method_body(tape, site, method, call, entered, vars, expected),
            calls::method_body(appended(tape, added), site, method, call, entered, vars, expected),
            added,
        ),
{
    reveal_with_fuel(appended, 6);
    if let Ok((tape, numbered)) = tape::item_reply(
        tape,
        Request::Number { item: method.method, at_call: true },
    ) {
        let item = Body { impl_item: Some(method.impl_item), item: numbered };
        let initial = calls::typed_names(entered.inner.vars);
        body_types_goes_on(tape, added, list::held(&site.typing), vars, item, initial);
        if let Ok((tape, found)) = typing::body_types(
            tape,
            list::held(&site.typing),
            vars,
            item,
            initial,
        ) {
            if let Ok((tape, body)) = tape::value_reply(
                tape,
                Request::CompileBlock {
                    body: Rc::new(list::held(&numbered).body),
                    generics: vars,
                    scope: Rc::new(entered.inner),
                    expected,
                    results: found,
                },
            ) {
                call_ended_goes_on(
                    tape,
                    added,
                    site,
                    call,
                    entered,
                    body,
                    expected,
                    Adopts::Written,
                );
            }
        }
    }
}

/// A call of a method is inlined as before with more replies on the tape.
pub proof fn method_inlined_goes_on(
    tape: List<Reply>,
    added: List<Reply>,
    names: Names,
    site: Site,
    call: Expr,
    receiver: Rc<Expr>,
    args: List<Expr>,
    scope: Context,
    expected: Option<Rc<TileType>>,
)
    ensures
        goes_on(
            calls::method_inlined(tape, names, site, call, receiver, args, scope, expected),
            calls::method_inlined(
                appended(tape, added),
                names,
                site,
                call,
                receiver,
                args,
                scope,
                expected,
            ),
            added,
        ),
{
    let args = List::Cons(receiver, Rc::new(args));
    arg_values_goes_on(tape, added, site, scope, args, 0);
    if let Ok((tape, (values, outer))) = calls::arg_values(tape, site, scope, args, 0) {
        let arg_types = calls::written_types(values);
        if let List::Cons(receiver_type, _) = arg_types {
            method_of_call_goes_on(tape, added, site, call, receiver_type, arg_types);
            if let Ok((tape, (method, known))) = calls::method_of_call(
                tape,
                site,
                call,
                receiver_type,
                arg_types,
            ) {
                params_bound_goes_on(
                    tape,
                    added,
                    site,
                    Entered { inner: value::scope_in(method.module), outer, passed: List::Nil },
                    Params {
                        names: list::held(&method.method).param_names,
                        types: list::held(&method.method).param_types,
                        mutable: list::held(&method.method).param_mutable,
                        payload_names: None,
                    },
                    args,
                    values,
                    0,
                );
                if let Ok((tape, entered)) = calls::params_bound(
                    tape,
                    site,
                    Entered { inner: value::scope_in(method.module), outer, passed: List::Nil },
                    Params {
                        names: list::held(&method.method).param_names,
                        types: list::held(&method.method).param_types,
                        mutable: list::held(&method.method).param_mutable,
                        payload_names: None,
                    },
                    args,
                    values,
                    0,
                ) {
                    method_generics_goes_on(tape, added, site, method, call, arg_types, known);
                    if let Ok((tape, vars)) = calls::method_generics(
                        tape,
                        site,
                        method,
                        call,
                        arg_types,
                        known,
                    ) {
                        bound_generics_goes_on(tape, added, names, site, vars);
                        if let Ok((tape, bound)) = calls::bound_generics(tape, names, site, vars) {
                            with_constants_goes_on(
                                tape,
                                added,
                                site.generics,
                                bound.vars,
                                list::held(&bound.constants),
                                entered.inner,
                            );
                            if let Ok((tape, inner)) = consts::with_constants(
                                tape,
                                site.generics,
                                bound.vars,
                                list::held(&bound.constants),
                                entered.inner,
                            ) {
                                method_body_goes_on(
                                    tape,
                                    added,
                                    site,
                                    method,
                                    call,
                                    Entered { inner, .. entered },
                                    bound.vars,
                                    expected,
                                );
                            }
                        }
                    }
                }
            }
        }
    }
}

// Kernels.

proof fn kernel_prepared_goes_on(
    tape: List<Reply>,
    added: List<Reply>,
    names: Names,
    program: Program,
    wanted: KernelRequest,
    kernel: KernelItem,
    attrs: EntryAttrs,
)
    ensures
        goes_on(
            kernel::kernel_prepared(tape, names, program, wanted, kernel, attrs),
            kernel::kernel_prepared(appended(tape, added), names, program, wanted, kernel, attrs),
            added,
        ),
{
    reveal_with_fuel(appended, 6);
    if let Ok((tape, _)) = tape::emitted_reply(tape, Request::AnalyzeEntry(kernel.item)) {
        if !(attrs.unchecked_accesses && !kernel.is_unsafe) {
            if let Ok((tape, hints)) = tape::hints_reply(
                tape,
                Request::Hints {
                    listed: attrs.hints,
                    gpu_name: wanted.gpu_name,
                    options: wanted.options,
                },
            ) {
                if let Ok((tape, vars)) = tape::vars_reply(
                    tape,
                    Request::FlatGenerics { callable: kernel.item.id, args: wanted.generic_args },
                ) {
                    if let Ok((tape, constants)) = tape::constants_reply(
                        tape,
                        Request::Constants(vars),
                    ) {
                        entry_prepared_goes_on(
                            tape,
                            added,
                            program,
                            wanted,
                            kernel,
                            attrs,
                            hints,
                            consts::with_module_consts(
                                names,
                                Bound { vars, constants },
                                program.consts,
                            ),
                        );
                    }
                }
            }
        }
    }
}

proof fn entry_prepared_goes_on(
    tape: List<Reply>,
    added: List<Reply>,
    program: Program,
    wanted: KernelRequest,
    kernel: KernelItem,
    attrs: EntryAttrs,
    hints: Rc<Hints>,
    generics: Bound,
)
    ensures
        goes_on(
            kernel::entry_prepared(tape, program, wanted, kernel, attrs, hints, generics),
            kernel::entry_prepared(
                appended(tape, added),
                program,
                wanted,
                kernel,
                attrs,
                hints,
                generics,
            ),
            added,
        ),
{
    reveal_with_fuel(appended, 6);
}

/// A kernel is prepared as before with more replies on the tape.
pub proof fn kernel_for_goes_on(
    tape: List<Reply>,
    added: List<Reply>,
    names: Names,
    program: Program,
    wanted: KernelRequest,
)
    ensures
        goes_on(
            kernel::kernel_for(tape, names, program, wanted),
            kernel::kernel_for(appended(tape, added), names, program, wanted),
            added,
        ),
{
    if let None = kernel::refusal(program, wanted) {
        let kernel = kernel::kernel_named(program.functions, wanted.naming.public_name)->0;
        kernel_prepared_goes_on(tape, added, names, program, wanted, kernel, kernel.entry->0);
    }
}

proof fn param_types_goes_on(
    tape: List<Reply>,
    added: List<Reply>,
    generics: Rc<GenericVars>,
    strides: List<StrideArg>,
    names: List<Symbol>,
    types: List<Type>,
    at: usize,
)
    ensures
        goes_on(
            kernel::param_types(tape, generics, strides, names, types, at),
            kernel::param_types(appended(tape, added), generics, strides, names, types, at),
            added,
        ),
    decreases types,
{
    if let List::Cons(ty, rest) = types {
        let known = match names {
            List::Cons(name, _) => match kernel::strides_of(strides, list::held(&name)) {
                Some(strides) => Some(Rc::new(kernel::strides_type(strides))),
                None => None,
            },
            List::Nil => None,
        };
        if let Ok((tape, Some(tile))) = tape::type_reply(
            tape,
            Request::CompileParam { ty, generics, strides: known },
        ) {
            param_types_goes_on(
                tape,
                added,
                generics,
                strides,
                calls::behind(names),
                list::held(&rest),
                calls::after(at),
            );
        }
    }
}

proof fn with_type_goes_on(
    tape: List<Reply>,
    added: List<Reply>,
    generics: Rc<GenericVars>,
    known: List<TypedName>,
    name: Symbol,
    ty: Type,
    kind: ConstKind,
)
    ensures
        goes_on(
            kernel::with_type(tape, generics, known, name, ty, kind),
            kernel::with_type(appended(tape, added), generics, known, name, ty, kind),
            added,
        ),
{
}

proof fn with_int_types_goes_on(
    tape: List<Reply>,
    added: List<Reply>,
    generics: Rc<GenericVars>,
    known: List<TypedName>,
    ints: List<IntConst>,
)
    ensures
        goes_on(
            kernel::with_int_types(tape, generics, known, ints),
            kernel::with_int_types(appended(tape, added), generics, known, ints),
            added,
        ),
    decreases ints,
{
    if let List::Cons(item, rest) = ints {
        with_type_goes_on(
            tape,
            added,
            generics,
            known,
            item.name,
            scalar::named_type(names::I32),
            ConstKind::Number,
        );
        if let Ok((tape, known)) = kernel::with_type(
            tape,
            generics,
            known,
            item.name,
            scalar::named_type(names::I32),
            ConstKind::Number,
        ) {
            with_int_types_goes_on(tape, added, generics, known, list::held(&rest));
        }
    }
}

proof fn with_bool_types_goes_on(
    tape: List<Reply>,
    added: List<Reply>,
    generics: Rc<GenericVars>,
    known: List<TypedName>,
    bools: List<BoolConst>,
)
    ensures
        goes_on(
            kernel::with_bool_types(tape, generics, known, bools),
            kernel::with_bool_types(appended(tape, added), generics, known, bools),
            added,
        ),
    decreases bools,
{
    if let List::Cons(item, rest) = bools {
        with_type_goes_on(
            tape,
            added,
            generics,
            known,
            item.name,
            scalar::named_type(names::BOOL),
            ConstKind::Bool,
        );
        if let Ok((tape, known)) = kernel::with_type(
            tape,
            generics,
            known,
            item.name,
            scalar::named_type(names::BOOL),
            ConstKind::Bool,
        ) {
            with_bool_types_goes_on(tape, added, generics, known, list::held(&rest));
        }
    }
}

proof fn with_array_types_goes_on(
    tape: List<Reply>,
    added: List<Reply>,
    generics: Rc<GenericVars>,
    known: List<TypedName>,
    arrays: List<ArrayConst>,
)
    ensures
        goes_on(
            kernel::with_array_types(tape, generics, known, arrays),
            kernel::with_array_types(appended(tape, added), generics, known, arrays),
            added,
        ),
    decreases arrays,
{
    if let List::Cons(item, rest) = arrays {
        with_type_goes_on(
            tape,
            added,
            generics,
            known,
            item.name,
            consts::int_array_type(exprs::length(list::held(&item).dims)),
            ConstKind::Array,
        );
        if let Ok((tape, known)) = kernel::with_type(
            tape,
            generics,
            known,
            item.name,
            consts::int_array_type(exprs::length(list::held(&item).dims)),
            ConstKind::Array,
        ) {
            with_array_types_goes_on(tape, added, generics, known, list::held(&rest));
        }
    }
}

proof fn initial_types_goes_on(
    tape: List<Reply>,
    added: List<Reply>,
    names: List<Symbol>,
    types: List<TileType>,
    generics: Bound,
)
    ensures
        goes_on(
            kernel::initial_types(tape, names, types, generics),
            kernel::initial_types(appended(tape, added), names, types, generics),
            added,
        ),
{
    with_int_types_goes_on(
        tape,
        added,
        generics.vars,
        kernel::paired(names, types),
        list::held(&generics.constants).ints,
    );
    if let Ok((tape, known)) = kernel::with_int_types(
        tape,
        generics.vars,
        kernel::paired(names, types),
        list::held(&generics.constants).ints,
    ) {
        with_bool_types_goes_on(
            tape,
            added,
            generics.vars,
            known,
            list::held(&generics.constants).bools,
        );
        if let Ok((tape, known)) = kernel::with_bool_types(
            tape,
            generics.vars,
            known,
            list::held(&generics.constants).bools,
        ) {
            with_array_types_goes_on(
                tape,
                added,
                generics.vars,
                known,
                list::held(&generics.constants).arrays,
            );
        }
    }
}

proof fn entry_body_goes_on(
    tape: List<Reply>,
    added: List<Reply>,
    kernel: CUDATileFunctionCompiler,
    params: List<TileType>,
    initial: List<TypedName>,
    scope: Context,
)
    ensures
        goes_on(
            kernel::entry_body(tape, kernel, params, initial, scope),
            kernel::entry_body(appended(tape, added), kernel, params, initial, scope),
            added,
        ),
{
    reveal_with_fuel(appended, 6);
    if let Ok((tape, numbered)) = tape::item_reply(
        tape,
        Request::Number { item: kernel.entry, at_call: false },
    ) {
        body_types_goes_on(
            tape,
            added,
            list::held(&kernel.typing),
            kernel.generics.vars,
            Body { impl_item: None, item: numbered },
            initial,
        );
    }
}

/// A kernel's entry point is compiled as before with more replies on the tape.
pub proof fn entry_compiled_goes_on(
    tape: List<Reply>,
    added: List<Reply>,
    kernel: CUDATileFunctionCompiler,
    module: u64,
)
    ensures
        goes_on(
            kernel::entry_compiled(tape, kernel, module),
            kernel::entry_compiled(appended(tape, added), kernel, module),
            added,
        ),
{
    let item = kernel.entry;
    param_types_goes_on(
        tape,
        added,
        kernel.generics.vars,
        kernel.stride_args,
        list::held(&item).param_names,
        list::held(&item).param_types,
        0,
    );
    if let Ok((tape, params)) = kernel::param_types(
        tape,
        kernel.generics.vars,
        kernel.stride_args,
        list::held(&item).param_names,
        list::held(&item).param_types,
        0,
    ) {
        if let Ok((tape, handles)) = tape::arguments_reply(
            tape,
            Request::OpenEntry { module, params },
        ) {
            let scope = kernel::entry_scope(
                kernel::empty_scope(),
                list::held(&item).param_names,
                handles,
                params,
                list::held(&item).param_mutable,
            );
            initial_types_goes_on(
                tape,
                added,
                list::held(&item).param_names,
                params,
                kernel.generics,
            );
            if let Ok((tape, initial)) = kernel::initial_types(
                tape,
                list::held(&item).param_names,
                params,
                kernel.generics,
            ) {
                with_constants_goes_on(
                    tape,
                    added,
                    kernel.generics.vars,
                    kernel.generics.vars,
                    list::held(&kernel.generics.constants),
                    scope,
                );
                if let Ok((tape, scope)) = consts::with_constants(
                    tape,
                    kernel.generics.vars,
                    kernel.generics.vars,
                    list::held(&kernel.generics.constants),
                    scope,
                ) {
                    entry_body_goes_on(tape, added, kernel, params, initial, scope);
                }
            }
        }
    }
}

/// A kernel is compiled as before with more replies on the tape.
pub proof fn module_compiled_goes_on(
    tape: List<Reply>,
    added: List<Reply>,
    kernel: CUDATileFunctionCompiler,
)
    ensures
        goes_on(
            kernel::module_compiled(tape, kernel),
            kernel::module_compiled(appended(tape, added), kernel),
            added,
        ),
{
    reveal_with_fuel(appended, 6);
    if let Ok((tape, module)) = tape::emitted_reply(tape, Request::NewModule(kernel.module_name)) {
        if let Ok((tape, _)) = tape::done_reply(tape, Request::EmitGlobals(module)) {
            entry_compiled_goes_on(tape, added, kernel, module);
        }
    }
}

/// The types in a kernel are inferred as before with more replies on the tape.
pub proof fn kernel_types_goes_on(
    tape: List<Reply>,
    added: List<Reply>,
    kernel: CUDATileFunctionCompiler,
)
    ensures
        goes_on(
            kernel::kernel_types(tape, kernel),
            kernel::kernel_types(appended(tape, added), kernel),
            added,
        ),
{
    reveal_with_fuel(appended, 6);
    let item = kernel.function;
    param_types_goes_on(
        tape,
        added,
        kernel.generics.vars,
        kernel.stride_args,
        list::held(&item).param_names,
        list::held(&item).param_types,
        0,
    );
    if let Ok((tape, params)) = kernel::param_types(
        tape,
        kernel.generics.vars,
        kernel.stride_args,
        list::held(&item).param_names,
        list::held(&item).param_types,
        0,
    ) {
        initial_types_goes_on(tape, added, list::held(&item).param_names, params, kernel.generics);
        if let Ok((tape, initial)) = kernel::initial_types(
            tape,
            list::held(&item).param_names,
            params,
            kernel.generics,
        ) {
            if let Ok((tape, numbered)) = tape::item_reply(
                tape,
                Request::Number { item, at_call: false },
            ) {
                body_types_goes_on(
                    tape,
                    added,
                    list::held(&kernel.typing),
                    kernel.generics.vars,
                    Body { impl_item: None, item: numbered },
                    initial,
                );
            }
        }
    }
}

} // verus!

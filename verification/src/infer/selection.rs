//! Which method a call means, and what calls give.
use crate::ask::{
    self, ask_bindings, ask_derived_param, ask_empty_vars, ask_inferred_vars, ask_instantiated,
    ask_marker_name, ask_merged_vars, ask_method, ask_output_params, ask_padding_name,
    ask_passed_vars, ask_verified, compile_if_any, compile_under, dup_opt,
};
use crate::env::{
    Env, GenericVars, NamedParam, ParamKind, Solver, Step, Stop, TileType, TypeParam,
};
use crate::infer::sound;
use crate::infer::state::{self, Frame, Outcome, StateView, TypeInferenceCx};
use crate::list::{self, share, share_opt, List};
use crate::names;
use crate::resolvable::{self, type_is_resolvable};
use crate::results::MethodSelection;
use crate::syntax::{Expr, ExprKind, FnItem, GenericArg, ImplItem, Lit, Symbol, Type};
use crate::types::{self, any_type_has_impl_trait, type_has_impl_trait};
use std::rc::Rc;
use vstd::prelude::*;

verus! {

broadcast use crate::infer::sound::group_sound;

// Methods.

/// The generic names that the body of a called method sees.
pub open spec fn method_vars(
    env: Env,
    item: ImplItem,
    method: FnItem,
    turbofish: Option<List<GenericArg>>,
    args: List<Type>,
) -> Result<Rc<GenericVars>, Stop> {
    let solver = ask::method_solver(item.id, method.id);
    match ask::bindings(env, solver) {
        Err(stop) => Err(stop),
        Ok(List::Nil) => ask::empty_vars(env, method.id),
        Ok(_) => match ask::inferred_vars(env, solver.after(Step::Arguments(args))) {
            Err(stop) => Err(stop),
            Ok(inferred) => match turbofish {
                None => Ok(inferred),
                Some(passed) => match ask::passed_vars(env, method.id, passed) {
                    Err(stop) => Err(stop),
                    Ok(passed) => ask::merged_vars(env, inferred, passed),
                },
            },
        },
    }
}

pub fn infer_method_generics(
    env: &Env,
    item: &ImplItem,
    method: &FnItem,
    turbofish: &Option<List<GenericArg>>,
    args: &List<Type>,
) -> (r: Result<Rc<GenericVars>, Stop>)
    ensures
        r == method_vars(*env, *item, *method, *turbofish, *args),
{
    let solver = Solver { impl_item: Some(item.id), callable: method.id, steps: List::Nil };
    if ask_bindings(env, &solver)?.is_empty() {
        return ask_empty_vars(env, method.id);
    }
    let inferred = ask_inferred_vars(env, &solver.tell(Step::Arguments(args.dup())))?;
    match turbofish {
        None => Ok(inferred),
        Some(passed) => {
            let passed = ask_passed_vars(env, method.id, passed)?;
            ask_merged_vars(env, &inferred, &passed)
        },
    }
}

/// What a method gives: a compiled type; or, where that is not known, the type is filed for the
/// call as it is written.
pub open spec fn method_return(
    f: Frame,
    limit: nat,
    s: StateView,
    item: ImplItem,
    method: FnItem,
    call: Expr,
    turbofish: Option<List<GenericArg>>,
    args: List<Type>,
) -> Outcome<Option<Rc<TileType>>> {
    if types::any_mentions_impl(method.param_types) || types::mentions_impl(*method.return_type) {
        Ok((s, None))
    } else {
        let solver = ask::method_solver(item.id, method.id).after(Step::Arguments(args)).after(
            Step::ProvidedByMethodCall(turbofish),
        );
        match ask::verified(f.env, solver) {
            Err(stop) => Err(stop),
            Ok(false) => Ok((s, None)),
            Ok(true) => match ask::instantiated(f.env, solver, *method.return_type) {
                Err(stop) => Err(stop),
                Ok(ty) => match resolvable::resolvable(f.env, limit, *ty) {
                    Err(stop) => Err(stop),
                    Ok(false) => Ok((state::filed_as(f, s, call.id, *ty), None)),
                    Ok(true) => match ask::compiled_if_any(f.env, *ty) {
                        Err(stop) => Err(stop),
                        Ok(Some(tile)) => Ok((s, Some(tile))),
                        Ok(None) => Ok((state::filed_as(f, s, call.id, *ty), None)),
                    },
                },
            },
        }
    }
}

/// The method that a call with these argument types means, the receiver's type among them.
pub open spec fn selected_method(
    f: Frame,
    limit: nat,
    s: StateView,
    call: Expr,
    turbofish: Option<List<GenericArg>>,
    args: List<Type>,
) -> Outcome<Option<Rc<MethodSelection>>> {
    match args {
        List::Nil => Ok((s, None)),
        List::Cons(receiver, _) => match ask::method(f.env, *receiver, call, args) {
            Err(stop) => Err(stop),
            Ok(None) => Ok((s, None)),
            Ok(Some(found)) => match method_vars(
                f.env,
                *found.impl_item,
                *found.method,
                turbofish,
                args,
            ) {
                Err(stop) => Err(stop),
                Ok(generic_vars) => match method_return(
                    f,
                    limit,
                    s,
                    *found.impl_item,
                    *found.method,
                    call,
                    turbofish,
                    args,
                ) {
                    Err(stop) => Err(stop),
                    Ok((s, return_type)) => Ok(
                        (
                            s,
                            Some(
                                Rc::new(
                                    MethodSelection {
                                        module_name: found.module,
                                        impl_item: found.impl_item,
                                        impl_method: found.method,
                                        generic_vars,
                                        return_type,
                                    },
                                ),
                            ),
                        ),
                    ),
                },
            },
        },
    }
}

// Functions.

/// A name and what it stands for.
#[derive(Clone, Copy)]
pub struct NamePair {
    pub name: Symbol,
    pub value: Symbol,
}

/// What a name stands for: the pair put in last, which is the first in the list.
pub open spec fn value_of(pairs: List<NamePair>, name: Symbol) -> Option<Symbol>
    decreases pairs,
{
    match pairs {
        List::Nil => None,
        List::Cons(pair, rest) => if pair.name == name {
            Some(pair.value)
        } else {
            value_of(*rest, name)
        },
    }
}

fn find_value(pairs: &List<NamePair>, name: Symbol) -> (r: Option<Symbol>)
    ensures
        r == value_of(*pairs, name),
    decreases pairs,
{
    match pairs {
        List::Nil => None,
        List::Cons(pair, rest) => {
            if pair.name == name {
                Some(pair.value)
            } else {
                find_value(rest, name)
            }
        },
    }
}

/// Whether a parameter of the result is left out: padding that is none, and a mapping of dimensions
/// that changes nothing.
pub open spec fn left_out(name: Symbol, markers: List<NamePair>) -> bool {
    (name == names::PADDING_VALUE && value_of(markers, name) == Some(names::NO_VALUE)) || (name
        == names::DIM_MAP && value_of(markers, name) == Some(names::IDENTITY))
}

pub fn should_skip_optional_output_type_param(name: Symbol, markers: &List<NamePair>) -> (r: bool)
    ensures
        r == left_out(name, *markers),
{
    match find_value(markers, name) {
        Some(value) => (name == names::PADDING_VALUE && value == names::NO_VALUE) || (name
            == names::DIM_MAP && value == names::IDENTITY),
        None => false,
    }
}

/// The parameters with one more, in the place of an earlier one of its name.
pub open spec fn with_param(
    params: List<NamedParam>,
    name: Symbol,
    param: Rc<TypeParam>,
) -> List<NamedParam>
    decreases params,
{
    match params {
        List::Nil => List::Cons(Rc::new(NamedParam { name, param }), Rc::new(List::Nil)),
        List::Cons(head, rest) => if head.name == name {
            List::Cons(Rc::new(NamedParam { name, param }), rest)
        } else {
            List::Cons(head, Rc::new(with_param(*rest, name, param)))
        },
    }
}

fn insert_param(
    params: &List<NamedParam>,
    name: Symbol,
    param: Rc<TypeParam>,
) -> (r: List<NamedParam>)
    ensures
        r == with_param(*params, name, param),
    decreases params,
{
    match params {
        List::Nil => List::one(Rc::new(NamedParam { name, param })),
        List::Cons(head, rest) => {
            if head.name == name {
                List::Cons(Rc::new(NamedParam { name, param }), share(rest))
            } else {
                List::prepend(share(head), insert_param(rest, name, param))
            }
        },
    }
}

/// The parameter of a name.
pub open spec fn param_named(params: List<NamedParam>, name: Symbol) -> Option<Rc<TypeParam>>
    decreases params,
{
    match params {
        List::Nil => None,
        List::Cons(head, rest) => if head.name == name {
            Some(head.param)
        } else {
            param_named(*rest, name)
        },
    }
}

/// A parameter that was put in is found under its name, and no other name finds anything else.
pub proof fn params_are_found(
    params: List<NamedParam>,
    name: Symbol,
    param: Rc<TypeParam>,
    other: Symbol,
)
    ensures
        param_named(with_param(params, name, param), other) == (if other == name {
            Some(param)
        } else {
            param_named(params, other)
        }),
    decreases params,
{
    match params {
        List::Nil => {
            reveal_with_fuel(param_named, 2);
        },
        List::Cons(_, rest) => params_are_found(list::held(&rest), name, param, other),
    }
}

/// The parameters of a compiled type by their names, those without one left out; where two have one
/// name, the later one.
pub open spec fn params_by_name(
    params: List<TypeParam>,
    named: List<NamedParam>,
) -> List<NamedParam>
    decreases params,
{
    match params {
        List::Nil => named,
        List::Cons(param, rest) => match param.name {
            Some(name) => params_by_name(*rest, with_param(named, name, param)),
            None => params_by_name(*rest, named),
        },
    }
}

fn collect_params(params: &List<TypeParam>, named: List<NamedParam>) -> (r: List<NamedParam>)
    ensures
        r == params_by_name(*params, named),
    decreases params,
{
    match params {
        List::Nil => named,
        List::Cons(param, rest) => match param.name {
            Some(name) => collect_params(rest, insert_param(&named, name, share(param))),
            None => collect_params(rest, named),
        },
    }
}

pub fn named_params(params: &List<TypeParam>) -> (r: List<NamedParam>)
    ensures
        r == params_by_name(*params, List::Nil),
{
    collect_params(params, List::Nil)
}

pub fn type_params_by_name(ty: &TileType) -> (r: List<NamedParam>)
    ensures
        r == params_by_name(ty.params, List::Nil),
{
    collect_params(&ty.params, List::Nil)
}

/// What the arguments of a call name: marker types, and strings or paddings.
pub struct ArgNames {
    pub markers: List<NamePair>,
    pub strings: List<NamePair>,
}

pub open spec fn arg_names(
    f: Frame,
    params: List<Symbol>,
    args: List<Expr>,
    found: ArgNames,
) -> Result<ArgNames, Stop>
    decreases params,
{
    match (params, args) {
        (List::Cons(param, params), List::Cons(arg, args)) => match ask::marker_name(f.env, *arg) {
            Err(stop) => Err(stop),
            Ok(marker) => {
                let markers = match marker {
                    Some(value) => List::Cons(
                        Rc::new(NamePair { name: *param, value }),
                        Rc::new(found.markers),
                    ),
                    None => found.markers,
                };
                match arg.kind {
                    ExprKind::Lit { lit, ty: _ } => match lit {
                        Lit::Str(value) => arg_names(
                            f,
                            *params,
                            *args,
                            ArgNames {
                                markers,
                                strings: List::Cons(
                                    Rc::new(NamePair { name: *param, value }),
                                    Rc::new(found.strings),
                                ),
                            },
                        ),
                        _ => arg_names(f, *params, *args, ArgNames { markers, strings: found.strings }),
                    },
                    _ => if *param == names::PADDING_VALUE {
                        match ask::padding_name(f.env, *arg) {
                            Err(stop) => Err(stop),
                            Ok(Some(value)) => arg_names(
                                f,
                                *params,
                                *args,
                                ArgNames {
                                    markers,
                                    strings: List::Cons(
                                        Rc::new(NamePair { name: *param, value }),
                                        Rc::new(found.strings),
                                    ),
                                },
                            ),
                            Ok(None) => arg_names(
                                f,
                                *params,
                                *args,
                                ArgNames { markers, strings: found.strings },
                            ),
                        }
                    } else {
                        arg_names(f, *params, *args, ArgNames { markers, strings: found.strings })
                    },
                }
            },
        },
        _ => Ok(found),
    }
}

/// The type of the argument for a parameter: the last one of that name.
pub open spec fn arg_type_named(
    params: List<Symbol>,
    types: List<TileType>,
    name: Symbol,
) -> Option<Rc<TileType>>
    decreases params,
{
    match (params, types) {
        (List::Cons(param, params), List::Cons(ty, types)) => match arg_type_named(
            *params,
            *types,
            name,
        ) {
            Some(later) => Some(later),
            None => if *param == name {
                Some(ty)
            } else {
                None
            },
        },
        _ => None,
    }
}

fn find_arg_type(
    params: &List<Symbol>,
    types: &List<TileType>,
    name: Symbol,
) -> (r: Option<Rc<TileType>>)
    ensures
        r == arg_type_named(*params, *types, name),
    decreases params,
{
    match (params, types) {
        (List::Cons(param, params), List::Cons(ty, types)) => match find_arg_type(
            params,
            types,
            name,
        ) {
            Some(later) => Some(later),
            None => {
                if **param == name {
                    Some(share(ty))
                } else {
                    None
                }
            },
        },
        _ => None,
    }
}

/// The parameter that an argument makes; padding takes the value that the argument names.
pub open spec fn with_padding(param: TypeParam, value: Option<Symbol>) -> TypeParam {
    match param.kind {
        ParamKind::Padding(_) => TypeParam { kind: ParamKind::Padding(value), ..param },
        ParamKind::Other => param,
    }
}

fn set_padding(param: &Rc<TypeParam>, value: Option<Symbol>) -> (r: Rc<TypeParam>)
    ensures
        *r == with_padding(**param, value),
{
    match param.kind {
        ParamKind::Padding(_) => Rc::new(
            TypeParam { name: param.name, kind: ParamKind::Padding(value), handle: param.handle },
        ),
        ParamKind::Other => share(param),
    }
}

/// The parameters that shape the result, those that the arguments make added.
pub open spec fn output_named(
    f: Frame,
    wanted: List<Symbol>,
    item: FnItem,
    types: List<TileType>,
    found: ArgNames,
    named: List<NamedParam>,
) -> Result<List<NamedParam>, Stop>
    decreases wanted,
{
    match wanted {
        List::Nil => Ok(named),
        List::Cons(name, rest) => if left_out(*name, found.markers) {
            output_named(f, *rest, item, types, found, named)
        } else {
            match arg_type_named(item.param_names, types, *name) {
                None => output_named(f, *rest, item, types, found, named),
                Some(ty) => match ask::derived_param(f.env, *name, ty) {
                    Err(stop) => Err(stop),
                    Ok(param) => output_named(
                        f,
                        *rest,
                        item,
                        types,
                        found,
                        with_param(
                            named,
                            *name,
                            Rc::new(with_padding(*param, value_of(found.strings, *name))),
                        ),
                    ),
                },
            }
        },
    }
}

/// The parameters under which the type of a call's result is compiled.
pub open spec fn result_params(
    f: Frame,
    item: FnItem,
    args: List<Expr>,
    types: List<TileType>,
    expected: Option<Rc<TileType>>,
) -> Result<List<NamedParam>, Stop> {
    let named = match expected {
        Some(expected) => params_by_name(expected.params, List::Nil),
        None => List::Nil,
    };
    match arg_names(
        f,
        item.param_names,
        args,
        ArgNames { markers: List::Nil, strings: List::Nil },
    ) {
        Err(stop) => Err(stop),
        Ok(found) => match ask::output_params(f.env, item.name) {
            Err(stop) => Err(stop),
            Ok(None) => Ok(named),
            Ok(Some(wanted)) => output_named(f, wanted, item, types, found, named),
        },
    }
}

/// The type of a call's result as the solver gives it: none where it is not known.
pub open spec fn call_output(
    f: Frame,
    limit: nat,
    item: FnItem,
    func: Rc<Expr>,
    args: List<Expr>,
    types: List<TileType>,
) -> Result<Option<Rc<Type>>, Stop> {
    if types is Nil && !(args is Nil) {
        Ok(None)
    } else if types::any_mentions_impl(item.param_types) || types::mentions_impl(
        *item.return_type,
    ) {
        Ok(None)
    } else {
        let solver = ask::function_solver(item.id).after(Step::Arguments(written_types(types))).after(
            Step::ProvidedByCall(func),
        );
        match ask::verified(f.env, solver) {
            Err(stop) => Err(stop),
            Ok(false) => Ok(None),
            Ok(true) => match ask::instantiated(f.env, solver, *item.return_type) {
                Err(stop) => Err(stop),
                Ok(ty) => match resolvable::resolvable(f.env, limit, *ty) {
                    Err(stop) => Err(stop),
                    Ok(false) => Ok(None),
                    Ok(true) => Ok(Some(ty)),
                },
            },
        }
    }
}

/// Compiled types as they are written.
pub open spec fn written_types(types: List<TileType>) -> List<Type>
    decreases types,
{
    match types {
        List::Nil => List::Nil,
        List::Cons(ty, rest) => List::Cons(ty.rust_ty, Rc::new(written_types(*rest))),
    }
}

fn write_types(types: &List<TileType>) -> (r: List<Type>)
    ensures
        r == written_types(*types),
    decreases types,
{
    match types {
        List::Nil => List::Nil,
        List::Cons(ty, rest) => List::prepend(share(&ty.rust_ty), write_types(rest)),
    }
}

/// What a call of a function gives: a compiled type, or what is expected where that is not known;
/// a type that does not compile is filed for the call as it is written.
pub open spec fn function_return(
    f: Frame,
    limit: nat,
    s: StateView,
    item: FnItem,
    call: Expr,
    func: Rc<Expr>,
    args: List<Expr>,
    types: List<TileType>,
    expected: Option<Rc<TileType>>,
) -> Outcome<Option<Rc<TileType>>> {
    match call_output(f, limit, item, func, args, types) {
        Err(stop) => Err(stop),
        Ok(None) => Ok((s, expected)),
        Ok(Some(ty)) => match result_params(f, item, args, types, expected) {
            Err(stop) => Err(stop),
            Ok(params) => match ask::compiled_under(f.env, *ty, params) {
                Err(stop) => Err(stop),
                Ok(Ok(Some(tile))) => Ok((s, Some(tile))),
                Ok(_) => Ok((state::filed_as(f, s, call.id, *ty), expected)),
            },
        },
    }
}

impl<'a> TypeInferenceCx<'a> {
    pub fn infer_method_return_type(
        &mut self,
        limit: u64,
        item: &ImplItem,
        method: &FnItem,
        call: &Expr,
        turbofish: &Option<List<GenericArg>>,
        args: &List<Type>,
    ) -> (r: Result<Option<Rc<TileType>>, Stop>)
        ensures
            state::agrees(
                r,
                final(self)@,
                method_return(
                    old(self).frame(),
                    limit as nat,
                    old(self)@,
                    *item,
                    *method,
                    *call,
                    *turbofish,
                    *args,
                ),
            ),
            final(self).frame() == old(self).frame(),
            sound::sound(old(self)@) ==> sound::advances(old(self)@, final(self)@),
    {
        if any_type_has_impl_trait(&method.param_types) || type_has_impl_trait(
            &method.return_type,
        ) {
            return Ok(None);
        }
        let solver = Solver { impl_item: Some(item.id), callable: method.id, steps: List::Nil };
        let solver = solver.tell(Step::Arguments(args.dup()));
        let solver = solver.tell(Step::ProvidedByMethodCall(dup_opt(turbofish)));
        if !ask_verified(self.env, &solver)? {
            return Ok(None);
        }
        let ty = ask_instantiated(self.env, &solver, &method.return_type)?;
        if !type_is_resolvable(self.env, limit, &ty)? {
            self.file_resolved(call, &ty);
            return Ok(None);
        }
        match compile_if_any(self.env, &ty)? {
            Some(tile) => Ok(Some(tile)),
            None => {
                self.file_resolved(call, &ty);
                Ok(None)
            },
        }
    }

    pub fn select_method_call(
        &mut self,
        limit: u64,
        call: &Rc<Expr>,
        turbofish: &Option<List<GenericArg>>,
        args: &List<Type>,
    ) -> (r: Result<Option<Rc<MethodSelection>>, Stop>)
        ensures
            state::agrees(
                r,
                final(self)@,
                selected_method(
                    old(self).frame(),
                    limit as nat,
                    old(self)@,
                    **call,
                    *turbofish,
                    *args,
                ),
            ),
            final(self).frame() == old(self).frame(),
            sound::sound(old(self)@) ==> sound::advances(old(self)@, final(self)@),
    {
        let receiver = match args {
            List::Nil => return Ok(None),
            List::Cons(receiver, _) => share(receiver),
        };
        let found = match ask_method(self.env, &receiver, call, args)? {
            Some(found) => found,
            None => return Ok(None),
        };
        let generic_vars = infer_method_generics(
            self.env,
            &found.impl_item,
            &found.method,
            turbofish,
            args,
        )?;
        let return_type = self.infer_method_return_type(
            limit,
            &found.impl_item,
            &found.method,
            call,
            turbofish,
            args,
        )?;
        Ok(
            Some(
                Rc::new(
                    MethodSelection {
                        module_name: found.module,
                        impl_item: share(&found.impl_item),
                        impl_method: share(&found.method),
                        generic_vars,
                        return_type,
                    },
                ),
            ),
        )
    }

    fn names_of_args(
        &self,
        params: &List<Symbol>,
        args: &List<Expr>,
        found: ArgNames,
    ) -> (r: Result<ArgNames, Stop>)
        ensures
            r == arg_names(self.frame(), *params, *args, found),
        decreases params,
    {
        match (params, args) {
            (List::Cons(param, params), List::Cons(arg, args)) => {
                let marker = ask_marker_name(self.env, arg)?;
                let markers = match marker {
                    Some(value) => List::prepend(
                        Rc::new(NamePair { name: **param, value }),
                        found.markers,
                    ),
                    None => found.markers,
                };
                let named = match &arg.kind {
                    ExprKind::Lit { lit, ty: _ } => match lit {
                        Lit::Str(value) => Some(*value),
                        _ => None,
                    },
                    _ => {
                        if **param == names::PADDING_VALUE {
                            ask_padding_name(self.env, arg)?
                        } else {
                            None
                        }
                    },
                };
                let strings = match named {
                    Some(value) => List::prepend(
                        Rc::new(NamePair { name: **param, value }),
                        found.strings,
                    ),
                    None => found.strings,
                };
                self.names_of_args(params, args, ArgNames { markers, strings })
            },
            _ => Ok(found),
        }
    }

    fn collect_output_params(
        &self,
        wanted: &List<Symbol>,
        item: &FnItem,
        types: &List<TileType>,
        found: &ArgNames,
        named: List<NamedParam>,
    ) -> (r: Result<List<NamedParam>, Stop>)
        ensures
            r == output_named(self.frame(), *wanted, *item, *types, *found, named),
        decreases wanted,
    {
        match wanted {
            List::Nil => Ok(named),
            List::Cons(name, rest) => {
                if should_skip_optional_output_type_param(**name, &found.markers) {
                    return self.collect_output_params(rest, item, types, found, named);
                }
                match find_arg_type(&item.param_names, types, **name) {
                    None => self.collect_output_params(rest, item, types, found, named),
                    Some(ty) => {
                        let param = ask_derived_param(self.env, **name, &ty)?;
                        let param = set_padding(&param, find_value(&found.strings, **name));
                        let named = insert_param(&named, **name, param);
                        self.collect_output_params(rest, item, types, found, named)
                    },
                }
            },
        }
    }

    fn params_of_result(
        &self,
        item: &FnItem,
        args: &List<Expr>,
        types: &List<TileType>,
        expected: &Option<Rc<TileType>>,
    ) -> (r: Result<List<NamedParam>, Stop>)
        ensures
            r == result_params(self.frame(), *item, *args, *types, *expected),
    {
        let named = match expected {
            Some(expected) => type_params_by_name(expected),
            None => List::Nil,
        };
        let found = self.names_of_args(
            &item.param_names,
            args,
            ArgNames { markers: List::Nil, strings: List::Nil },
        )?;
        match ask_output_params(self.env, item.name)? {
            None => Ok(named),
            Some(wanted) => self.collect_output_params(&wanted, item, types, &found, named),
        }
    }

    fn output_of_call(
        &self,
        limit: u64,
        item: &FnItem,
        func: &Rc<Expr>,
        args: &List<Expr>,
        types: &List<TileType>,
    ) -> (r: Result<Option<Rc<Type>>, Stop>)
        ensures
            r == call_output(self.frame(), limit as nat, *item, *func, *args, *types),
    {
        if types.is_empty() && !args.is_empty() {
            return Ok(None);
        }
        if any_type_has_impl_trait(&item.param_types) || type_has_impl_trait(&item.return_type) {
            return Ok(None);
        }
        let solver = Solver { impl_item: None, callable: item.id, steps: List::Nil };
        let solver = solver.tell(Step::Arguments(write_types(types)));
        let solver = solver.tell(Step::ProvidedByCall(share(func)));
        if !ask_verified(self.env, &solver)? {
            return Ok(None);
        }
        let ty = ask_instantiated(self.env, &solver, &item.return_type)?;
        if !type_is_resolvable(self.env, limit, &ty)? {
            return Ok(None);
        }
        Ok(Some(ty))
    }

    pub fn infer_function_return(
        &mut self,
        limit: u64,
        item: &FnItem,
        call: &Expr,
        func: &Rc<Expr>,
        args: &List<Expr>,
        types: &List<TileType>,
        expected: &Option<Rc<TileType>>,
    ) -> (r: Result<Option<Rc<TileType>>, Stop>)
        ensures
            state::agrees(
                r,
                final(self)@,
                function_return(
                    old(self).frame(),
                    limit as nat,
                    old(self)@,
                    *item,
                    *call,
                    *func,
                    *args,
                    *types,
                    *expected,
                ),
            ),
            final(self).frame() == old(self).frame(),
            sound::sound(old(self)@) ==> sound::advances(old(self)@, final(self)@),
    {
        let ty = match self.output_of_call(limit, item, func, args, types)? {
            Some(ty) => ty,
            None => return Ok(share_opt(expected)),
        };
        let params = self.params_of_result(item, args, types, expected)?;
        match compile_under(self.env, &ty, &params)? {
            Ok(Some(tile)) => Ok(Some(tile)),
            _ => {
                self.file_resolved(call, &ty);
                Ok(share_opt(expected))
            },
        }
    }
}

} // verus!

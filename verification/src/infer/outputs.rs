//! What holds of the parameters of results: which come from the arguments of a call, which from the
//! type that is expected, and what the body of a called method sees of them.
use crate::ask;
use crate::env::{Env, GenericVars, NamedParam, ParamKind, Step, Stop, TileType, TypeParam};
use crate::infer::selection::{self, ArgNames, NamePair};
use crate::infer::state::Frame;
use crate::list::{self, List};
use crate::names;
use crate::syntax::{Expr, ExprKind, FnItem, GenericArg, ImplItem, Lit, Symbol, Type};
use std::rc::Rc;
use vstd::prelude::*;

verus! {

/// Of the parameters of a compiled type, the last one of a name counts.
pub proof fn last_parameter_of_a_name_counts(
    params: List<TypeParam>,
    named: List<NamedParam>,
    at: int,
    name: Symbol,
)
    requires
        0 <= at < params@.len(),
        params@[at].name == Some(name),
        forall|k: int| at < k < params@.len() ==> (#[trigger] params@[k]).name != Some(name),
    ensures
        selection::param_named(selection::params_by_name(params, named), name) == Some(
            Rc::new(params@[at]),
        ),
    decreases params,
{
    if let List::Cons(param, rest) = params {
        assert(params@ == seq![list::held(&param)] + rest@);
        assert(params@[0] == list::held(&param));
        assert forall|k: int| 0 <= k < rest@.len() implies #[trigger] rest@[k] == params@[k + 1] by {}
        let next = match list::held(&param).name {
            Some(own) => selection::with_param(named, own, param),
            None => named,
        };
        if at == 0 {
            selection::params_are_found(named, name, param, name);
            unnamed_parameters_change_nothing(list::held(&rest), next, name);
        } else {
            last_parameter_of_a_name_counts(list::held(&rest), next, at - 1, name);
        }
    }
}

/// A name that no parameter of a compiled type has keeps what it stood for.
pub proof fn unnamed_parameters_change_nothing(
    params: List<TypeParam>,
    named: List<NamedParam>,
    name: Symbol,
)
    requires
        forall|k: int| 0 <= k < params@.len() ==> (#[trigger] params@[k]).name != Some(name),
    ensures
        selection::param_named(selection::params_by_name(params, named), name)
            == selection::param_named(named, name),
    decreases params,
{
    if let List::Cons(param, rest) = params {
        assert(params@ == seq![list::held(&param)] + rest@);
        assert(params@[0] == list::held(&param));
        assert forall|k: int| 0 <= k < rest@.len() implies (#[trigger] rest@[k]).name != Some(
            name,
        ) by {
            assert(rest@[k] == params@[k + 1]);
        }
        match list::held(&param).name {
            Some(own) => {
                selection::params_are_found(named, own, param, name);
                unnamed_parameters_change_nothing(
                    list::held(&rest),
                    selection::with_param(named, own, param),
                    name,
                );
            },
            None => unnamed_parameters_change_nothing(list::held(&rest), named, name),
        }
    }
}

/// The type of the argument for a parameter is the one in the parameter's place.
pub proof fn argument_is_in_its_parameters_place(
    params: List<Symbol>,
    types: List<TileType>,
    at: int,
)
    requires
        0 <= at < params@.len(),
        at < types@.len(),
        forall|k: int| at < k < params@.len() ==> #[trigger] params@[k] != params@[at],
    ensures
        selection::arg_type_named(params, types, params@[at]) == Some(Rc::new(types@[at])),
    decreases params,
{
    if let (List::Cons(param, more), List::Cons(ty, rest)) = (params, types) {
        assert(params@ == seq![list::held(&param)] + more@);
        assert(types@ == seq![list::held(&ty)] + rest@);
        assert(params@[0] == list::held(&param));
        assert(types@[0] == list::held(&ty));
        assert forall|k: int| 0 <= k < more@.len() implies #[trigger] more@[k] == params@[k + 1] by {}
        if at == 0 {
            missing_parameter_has_no_argument(list::held(&more), list::held(&rest), params@[at]);
        } else {
            assert(rest@[at - 1] == types@[at]);
            argument_is_in_its_parameters_place(list::held(&more), list::held(&rest), at - 1);
        }
    }
}

/// A name that is no parameter's has no argument.
pub proof fn missing_parameter_has_no_argument(
    params: List<Symbol>,
    types: List<TileType>,
    name: Symbol,
)
    requires
        forall|k: int| 0 <= k < params@.len() ==> #[trigger] params@[k] != name,
    ensures
        selection::arg_type_named(params, types, name) is None,
    decreases params,
{
    if let (List::Cons(param, more), List::Cons(ty, rest)) = (params, types) {
        assert(params@ == seq![list::held(&param)] + more@);
        assert(params@[0] == list::held(&param));
        assert forall|k: int| 0 <= k < more@.len() implies #[trigger] more@[k] != name by {
            assert(more@[k] == params@[k + 1]);
        }
        missing_parameter_has_no_argument(list::held(&more), list::held(&rest), name);
    }
}

/// What an argument names as a string or a padding: a string literal names itself, and for the
/// parameter of paddings another argument names what the compiler says.
pub open spec fn names_as_text(f: Frame, param: Symbol, arg: Expr, value: Symbol) -> bool {
    match arg.kind {
        ExprKind::Lit { lit, ty: _ } => lit == Lit::Str(value),
        _ => param == names::PADDING_VALUE && ask::padding_name(f.env, arg) == Ok::<
            Option<Symbol>,
            Stop,
        >(Some(value)),
    }
}

/// What the argument in a parameter's place names is what the parameter stands for.
pub proof fn arguments_name_for_their_parameters(
    f: Frame,
    params: List<Symbol>,
    args: List<Expr>,
    found: ArgNames,
    at: int,
    value: Symbol,
)
    requires
        0 <= at < params@.len(),
        at < args@.len(),
        forall|k: int| at < k < params@.len() ==> #[trigger] params@[k] != params@[at],
        selection::arg_names(f, params, args, found) is Ok,
    ensures
        names_as_text(f, params@[at], args@[at], value) ==> selection::value_of(
            selection::arg_names(f, params, args, found)->Ok_0.strings,
            params@[at],
        ) == Some(value),
        ask::marker_name(f.env, args@[at]) == Ok::<Option<Symbol>, Stop>(Some(value))
            ==> selection::value_of(
            selection::arg_names(f, params, args, found)->Ok_0.markers,
            params@[at],
        ) == Some(value),
    decreases params,
{
    if let (List::Cons(param, more), List::Cons(arg, rest)) = (params, args) {
        assert(params@ == seq![list::held(&param)] + more@);
        assert(args@ == seq![list::held(&arg)] + rest@);
        assert(params@[0] == list::held(&param));
        assert(args@[0] == list::held(&arg));
        assert forall|k: int| 0 <= k < more@.len() implies #[trigger] more@[k] == params@[k + 1] by {}
        let next = noted(f, list::held(&param), list::held(&arg), found);
        assert(selection::arg_names(f, params, args, found) == selection::arg_names(
            f,
            list::held(&more),
            list::held(&rest),
            next,
        ));
        if at == 0 {
            other_arguments_change_nothing(
                f,
                list::held(&more),
                list::held(&rest),
                next,
                params@[at],
            );
        } else {
            assert(rest@[at - 1] == args@[at]);
            arguments_name_for_their_parameters(
                f,
                list::held(&more),
                list::held(&rest),
                next,
                at - 1,
                value,
            );
        }
    }
}

spec fn noted(f: Frame, param: Symbol, arg: Expr, found: ArgNames) -> ArgNames {
    let markers = match ask::marker_name(f.env, arg) {
        Ok(Some(value)) => List::Cons(
            Rc::new(NamePair { name: param, value }),
            Rc::new(found.markers),
        ),
        _ => found.markers,
    };
    let text = match arg.kind {
        ExprKind::Lit { lit, ty: _ } => match lit {
            Lit::Str(value) => Some(value),
            _ => None,
        },
        _ => if param == names::PADDING_VALUE {
            match ask::padding_name(f.env, arg) {
                Ok(value) => value,
                Err(_) => None,
            }
        } else {
            None
        },
    };
    let strings = match text {
        Some(value) => List::Cons(
            Rc::new(NamePair { name: param, value }),
            Rc::new(found.strings),
        ),
        None => found.strings,
    };
    ArgNames { markers, strings }
}

/// An argument names something for its own parameter only.
pub proof fn other_arguments_change_nothing(
    f: Frame,
    params: List<Symbol>,
    args: List<Expr>,
    found: ArgNames,
    name: Symbol,
)
    requires
        forall|k: int| 0 <= k < params@.len() ==> #[trigger] params@[k] != name,
        selection::arg_names(f, params, args, found) is Ok,
    ensures
        selection::value_of(selection::arg_names(f, params, args, found)->Ok_0.strings, name)
            == selection::value_of(found.strings, name),
        selection::value_of(selection::arg_names(f, params, args, found)->Ok_0.markers, name)
            == selection::value_of(found.markers, name),
    decreases params,
{
    if let (List::Cons(param, more), List::Cons(arg, rest)) = (params, args) {
        assert(params@ == seq![list::held(&param)] + more@);
        assert(params@[0] == list::held(&param));
        assert forall|k: int| 0 <= k < more@.len() implies #[trigger] more@[k] != name by {
            assert(more@[k] == params@[k + 1]);
        }
        let next = noted(f, list::held(&param), list::held(&arg), found);
        assert(selection::arg_names(f, params, args, found) == selection::arg_names(
            f,
            list::held(&more),
            list::held(&rest),
            next,
        ));
        other_arguments_change_nothing(f, list::held(&more), list::held(&rest), next, name);
    }
}

/// A parameter that the compiler wants for the result is made from the type of the argument in its
/// place, and a padding takes the value that the argument names.
pub proof fn wanted_parameter_is_made_of_its_argument(
    f: Frame,
    wanted: List<Symbol>,
    item: FnItem,
    types: List<TileType>,
    found: ArgNames,
    named: List<NamedParam>,
    at: int,
    ty: Rc<TileType>,
    param: Rc<TypeParam>,
)
    requires
        0 <= at < wanted@.len(),
        !selection::left_out(wanted@[at], found.markers),
        selection::arg_type_named(item.param_names, types, wanted@[at]) == Some(ty),
        ask::derived_param(f.env, wanted@[at], ty) == Ok::<Rc<TypeParam>, Stop>(param),
        selection::output_named(f, wanted, item, types, found, named) is Ok,
    ensures
        selection::param_named(
            selection::output_named(f, wanted, item, types, found, named)->Ok_0,
            wanted@[at],
        ) matches Some(made) && made.name == param.name && made.handle == param.handle && made.kind
            == (if param.kind is Padding {
            ParamKind::Padding(selection::value_of(found.strings, wanted@[at]))
        } else {
            ParamKind::Other
        }),
    decreases wanted,
{
    if let List::Cons(name, rest) = wanted {
        assert(wanted@ == seq![list::held(&name)] + rest@);
        assert(wanted@[0] == list::held(&name));
        let own = list::held(&name);
        if at > 0 {
            assert(wanted@[at] == rest@[at - 1]);
        }
        if selection::left_out(own, found.markers) {
            wanted_parameter_is_made_of_its_argument(
                f,
                list::held(&rest),
                item,
                types,
                found,
                named,
                at - 1,
                ty,
                param,
            );
        } else {
            match selection::arg_type_named(item.param_names, types, own) {
                None => {
                    wanted_parameter_is_made_of_its_argument(
                        f,
                        list::held(&rest),
                        item,
                        types,
                        found,
                        named,
                        at - 1,
                        ty,
                        param,
                    );
                },
                Some(other) => {
                    let derived = ask::derived_param(f.env, own, other)->Ok_0;
                    let made = Rc::new(
                        selection::with_padding(
                            list::held(&derived),
                            selection::value_of(found.strings, own),
                        ),
                    );
                    let next = selection::with_param(named, own, made);
                    if rest@.contains(wanted@[at]) {
                        let k = rest@.index_of(wanted@[at]);
                        wanted_parameter_is_made_of_its_argument(
                            f,
                            list::held(&rest),
                            item,
                            types,
                            found,
                            next,
                            k,
                            ty,
                            param,
                        );
                    } else {
                        assert(at == 0);
                        selection::params_are_found(named, own, made, own);
                        unwanted_parameter_stays(
                            f,
                            list::held(&rest),
                            item,
                            types,
                            found,
                            next,
                            own,
                        );
                    }
                },
            }
        }
    }
}

/// A parameter that the compiler does not want, or that is left out, is as it is expected.
pub proof fn unwanted_parameter_stays(
    f: Frame,
    wanted: List<Symbol>,
    item: FnItem,
    types: List<TileType>,
    found: ArgNames,
    named: List<NamedParam>,
    name: Symbol,
)
    requires
        !wanted@.contains(name) || selection::left_out(name, found.markers),
        selection::output_named(f, wanted, item, types, found, named) is Ok,
    ensures
        selection::param_named(
            selection::output_named(f, wanted, item, types, found, named)->Ok_0,
            name,
        ) == selection::param_named(named, name),
    decreases wanted,
{
    if let List::Cons(first, rest) = wanted {
        assert(wanted@ == seq![list::held(&first)] + rest@);
        assert(wanted@[0] == list::held(&first));
        let own = list::held(&first);
        if rest@.contains(name) {
            let k = rest@.index_of(name);
            assert(wanted@[k + 1] == name);
        }
        if selection::left_out(own, found.markers) {
            unwanted_parameter_stays(f, list::held(&rest), item, types, found, named, name);
        } else {
            match selection::arg_type_named(item.param_names, types, own) {
                None => {
                    unwanted_parameter_stays(f, list::held(&rest), item, types, found, named, name);
                },
                Some(other) => {
                    let derived = ask::derived_param(f.env, own, other)->Ok_0;
                    let made = Rc::new(
                        selection::with_padding(
                            list::held(&derived),
                            selection::value_of(found.strings, own),
                        ),
                    );
                    selection::params_are_found(named, own, made, name);
                    unwanted_parameter_stays(
                        f,
                        list::held(&rest),
                        item,
                        types,
                        found,
                        selection::with_param(named, own, made),
                        name,
                    );
                },
            }
        }
    }
}

/// Padding is left out where the argument marks it as none, and a mapping of dimensions where it is
/// the identity; nothing else is.
pub proof fn only_plain_markers_are_left_out(name: Symbol, markers: List<NamePair>)
    ensures
        selection::left_out(name, markers) ==> (name == names::PADDING_VALUE || name
            == names::DIM_MAP),
        selection::left_out(names::PADDING_VALUE, markers) == (selection::value_of(
            markers,
            names::PADDING_VALUE,
        ) == Some(names::NO_VALUE)),
        selection::left_out(names::DIM_MAP, markers) == (selection::value_of(
            markers,
            names::DIM_MAP,
        ) == Some(names::IDENTITY)),
{
}

/// The generic names that the body of a called method sees: none where it has none; those found from
/// its arguments; and, where the call writes some out, those found with the written ones put over them.
pub proof fn method_sees_what_its_call_gives(
    env: Env,
    item: ImplItem,
    method: FnItem,
    written: List<GenericArg>,
    args: List<Type>,
    inferred: Rc<GenericVars>,
    passed: Rc<GenericVars>,
)
    requires
        ask::bindings(env, ask::method_solver(item.id, method.id)) matches Ok(bindings) && !(
        bindings is Nil),
        ask::inferred_vars(
            env,
            ask::method_solver(item.id, method.id).after(Step::Arguments(args)),
        ) == Ok::<Rc<GenericVars>, Stop>(inferred),
        ask::passed_vars(env, method.id, written) == Ok::<Rc<GenericVars>, Stop>(passed),
    ensures
        selection::method_vars(env, item, method, None, args) == Ok::<
            Rc<GenericVars>,
            Stop,
        >(inferred),
        selection::method_vars(env, item, method, Some(written), args) == ask::merged_vars(
            env,
            inferred,
            passed,
        ),
{
}

/// A method without generic names sees none.
pub proof fn method_without_generics_sees_none(
    env: Env,
    item: ImplItem,
    method: FnItem,
    written: Option<List<GenericArg>>,
    args: List<Type>,
)
    requires
        ask::bindings(env, ask::method_solver(item.id, method.id)) matches Ok(bindings)
            && bindings is Nil,
    ensures
        selection::method_vars(env, item, method, written, args) == ask::empty_vars(env, method.id),
{
}

} // verus!

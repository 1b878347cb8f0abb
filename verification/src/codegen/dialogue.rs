//! What the backend is asked for, one thing after the other, and what comes of its replies.
use crate::codegen::calls::{self, Entered, Params, Site};
use crate::codegen::kernel;
use crate::codegen::tape::{self, CompileError, Halt, Place, Reply, Request, Run};
use crate::codegen::value::{self, Context, Value};
use crate::env::TileType;
use crate::exprs;
use crate::list::{self, List};
use crate::names;
use crate::results::{self, ResultsView};
use crate::syntax::{Expr, ExprKind, FnItem, Symbol, Type};
use std::rc::Rc;
use vstd::prelude::*;

verus! {

/// A reply, and those after it.
pub open spec fn replied(reply: Reply, rest: List<Reply>) -> List<Reply> {
    List::Cons(Rc::new(reply), Rc::new(rest))
}

/// No replies.
pub open spec fn end() -> List<Reply> {
    List::Nil
}

/// Whether a step asks the backend for something next.
pub open spec fn asks<T>(run: Run<T>, request: Request<ResultsView>) -> bool {
    run == Err::<(List<Reply>, T), Halt<ResultsView>>(Halt::Perform(request))
}

/// Whether a step ended with a value, and left replies.
pub open spec fn ends<T>(run: Run<T>, rest: List<Reply>, value: T) -> bool {
    run == Ok::<(List<Reply>, T), Halt<ResultsView>>((rest, value))
}

/// Whether a step failed.
pub open spec fn fails<T>(run: Run<T>, error: CompileError) -> bool {
    run == Err::<(List<Reply>, T), Halt<ResultsView>>(Halt::Failed(error))
}

/// The backend is asked where there is no reply; an error that it reports is handed on; and a reply
/// of the sort that is waited for is handed on, with all later ones left.
pub proof fn replies_are_handed_on(
    request: Request<ResultsView>,
    error: u64,
    rest: List<Reply>,
    item: Rc<FnItem>,
    val: Option<Rc<Value>>,
    scope: Rc<Context>,
    tile: Option<Rc<TileType>>,
    handle: u64,
)
    ensures
        asks(tape::item_reply(end(), request), request),
        asks(tape::value_reply(end(), request), request),
        asks(tape::type_reply(end(), request), request),
        asks(tape::scalar_reply(end(), request), request),
        asks(tape::bytes_reply(end(), request), request),
        asks(tape::emitted_reply(end(), request), request),
        asks(tape::method_reply(end(), request), request),
        asks(tape::vars_reply(end(), request), request),
        asks(tape::constants_reply(end(), request), request),
        asks(tape::done_reply(end(), request), request),
        asks(tape::arguments_reply(end(), request), request),
        asks(tape::hints_reply(end(), request), request),
        asks(tape::entry_reply(end(), request), request),
        fails(
            tape::item_reply(replied(Reply::Failed(error), rest), request),
            CompileError::Reported(error),
        ),
        fails(
            tape::value_reply(replied(Reply::Failed(error), rest), request),
            CompileError::Reported(error),
        ),
        fails(
            tape::type_reply(replied(Reply::Failed(error), rest), request),
            CompileError::Reported(error),
        ),
        fails(
            tape::emitted_reply(replied(Reply::Failed(error), rest), request),
            CompileError::Reported(error),
        ),
        ends(tape::item_reply(replied(Reply::Item(item), rest), request), rest, item),
        ends(
            tape::value_reply(replied(Reply::Compiled { value: val, scope }, rest), request),
            rest,
            (val, scope),
        ),
        ends(tape::type_reply(replied(Reply::CompiledType(tile), rest), request), rest, tile),
        ends(tape::emitted_reply(replied(Reply::Emitted(handle), rest), request), rest, handle),
        ends(tape::done_reply(replied(Reply::Done, rest), request), rest, ()),
{
}

// Arguments.

/// Whether an argument is compiled with no type expected: it is no literal, no operator before its
/// operand and no `None`, or no types were found.
pub open spec fn is_compiled_freely(site: Site, arg: Expr) -> bool {
    site.results is None || (match arg.kind {
        ExprKind::Lit { .. } => false,
        ExprKind::Unary { .. } => false,
        ExprKind::Path { path, .. } => path.segments@.len() == 0 || path.segments@.last().ident
            != names::NO_VALUE,
        _ => true,
    })
}

/// Whether the first replies are those to arguments: a value of each, and the scope after it.
pub open spec fn replies_are_values(
    tape: List<Reply>,
    values: Seq<Rc<Value>>,
    scopes: Seq<Rc<Context>>,
) -> bool {
    &&& values.len() == scopes.len()
    &&& tape@.len() >= values.len()
    &&& forall|i: int|
        0 <= i < values.len() ==> #[trigger] tape@[i] == (Reply::Compiled {
            value: Some(values[i]),
            scope: scopes[i],
        })
}

/// The scope that an argument is compiled in: that of the call, or what the argument before it left.
pub open spec fn scope_at(scope: Context, scopes: Seq<Rc<Context>>, i: int) -> Context {
    if i == 0 {
        scope
    } else {
        *scopes[i - 1]
    }
}

proof fn last_name_is_of_the_last_segment(arg: Expr)
    ensures
        arg.kind matches ExprKind::Path { path, .. } ==> exprs::last_name(path) == (
        if path.segments@.len() > 0 {
            Some(path.segments@.last().ident)
        } else {
            None
        }),
{
}

/// The values of arguments are those that the backend gives for them, in the order of the
/// arguments: the reply to the first is the value of the first, and so on. Each argument is compiled
/// in the scope that the one before it left.
pub proof fn arguments_are_compiled_in_order(
    tape: List<Reply>,
    site: Site,
    scope: Context,
    args: List<Expr>,
    at: usize,
    values: Seq<Rc<Value>>,
    scopes: Seq<Rc<Context>>,
)
    requires
        forall|i: int| 0 <= i < args@.len() ==> is_compiled_freely(site, #[trigger] args@[i]),
        values.len() <= args@.len(),
        replies_are_values(tape, values, scopes),
    ensures
        values.len() == args@.len() ==> (calls::arg_values(tape, site, scope, args, at) matches Ok(
            (left, (found, last)),
        ) && {
            &&& found@.len() == args@.len()
            &&& forall|i: int| 0 <= i < args@.len() ==> #[trigger] found@[i] == *values[i]
            &&& left@ == tape@.skip(args@.len() as int)
            &&& last == scope_at(scope, scopes, args@.len() as int)
        }),
        values.len() < args@.len() && tape@.len() == values.len() ==> asks(
            calls::arg_values(tape, site, scope, args, at),
            Request::CompileExpr {
                expr: Rc::new(args@[values.len() as int]),
                generics: site.generics,
                scope: Rc::new(scope_at(scope, scopes, values.len() as int)),
                expected: None,
            },
        ),
    decreases args,
{
    if let List::Cons(arg, rest) = args {
        assert(args@ == seq![list::held(&arg)] + rest@);
        assert(args@[0] == list::held(&arg));
        last_name_is_of_the_last_segment(list::held(&arg));
        if values.len() > 0 {
            if let List::Cons(reply, later) = tape {
                assert(tape@ == seq![list::held(&reply)] + later@);
                assert(tape@[0] == list::held(&reply));
                assert forall|i: int| 0 <= i < rest@.len() implies is_compiled_freely(
                    site,
                    #[trigger] rest@[i],
                ) by {
                    assert(args@[i + 1] == rest@[i]);
                }
                let more = values.skip(1);
                let after = scopes.skip(1);
                assert forall|i: int| 0 <= i < more.len() implies #[trigger] later@[i] == (
                Reply::Compiled { value: Some(more[i]), scope: after[i] }) by {
                    assert(tape@[i + 1] == later@[i]);
                }
                arguments_are_compiled_in_order(
                    list::held(&later),
                    site,
                    list::held(&scopes[0]),
                    list::held(&rest),
                    calls::after(at),
                    more,
                    after,
                );
                if values.len() == args@.len() {
                    let (left, (found, last)) = calls::arg_values(
                        tape,
                        site,
                        scope,
                        args,
                        at,
                    )->Ok_0;
                    let (_, (tail, _)) = calls::arg_values(
                        list::held(&later),
                        site,
                        list::held(&scopes[0]),
                        list::held(&rest),
                        calls::after(at),
                    )->Ok_0;
                    assert(found@ == seq![list::held(&values[0])] + tail@);
                    assert forall|i: int| 0 <= i < args@.len() implies #[trigger] found@[i]
                        == *values[i] by {
                        if i > 0 {
                            assert(found@[i] == tail@[i - 1]);
                        }
                    }
                    assert(left@ =~= tape@.skip(args@.len() as int));
                } else {
                    assert(args@[values.len() as int] == rest@[more.len() as int]);
                }
            }
        } else {
            if tape@.len() == 0 {
                if let List::Cons(reply, later) = tape {
                    assert(tape@ == seq![list::held(&reply)] + later@);
                }
            }
        }
    } else {
        assert(tape@.skip(0) =~= tape@);
    }
}

/// Arguments one after the other give their values one after the other: those of the first part are
/// compiled first, and those of the second part follow them, in the scope and from the replies that
/// the first part left.
pub proof fn arguments_come_in_parts(
    tape: List<Reply>,
    site: Site,
    scope: Context,
    first: List<Expr>,
    second: List<Expr>,
    at: usize,
)
    requires
        at + first@.len() <= usize::MAX,
    ensures
        match calls::arg_values(tape, site, scope, first, at) {
            Err(halt) => calls::arg_values(tape, site, scope, first.joined(second), at) == Err::<
                (List<Reply>, (List<Value>, Context)),
                Halt<ResultsView>,
            >(halt),
            Ok((left, (values, after))) => match calls::arg_values(
                left,
                site,
                after,
                second,
                (at + first@.len()) as usize,
            ) {
                Err(halt) => calls::arg_values(tape, site, scope, first.joined(second), at) == Err::<
                    (List<Reply>, (List<Value>, Context)),
                    Halt<ResultsView>,
                >(halt),
                Ok((end, (more, last))) => calls::arg_values(
                    tape,
                    site,
                    scope,
                    first.joined(second),
                    at,
                ) matches Ok((all_left, (all, all_after))) && all_left == end && all@ == values@
                    + more@ && all_after == last,
            },
        },
    decreases first,
{
    match first {
        List::Nil => {
            if let Ok((_, (more, _))) = calls::arg_values(tape, site, scope, second, at) {
                assert(Seq::<Value>::empty() + more@ =~= more@);
            }
        },
        List::Cons(arg, rest) => {
            assert(first@ == seq![list::held(&arg)] + rest@);
            let expected = if calls::takes_found_type(list::held(&arg)) {
                calls::tile_type_of(tape, site, list::held(&arg), List::Nil)
            } else {
                Ok((tape, None))
            };
            if let Ok((tape2, expected)) = expected {
                if let Ok((tape3, (Some(val), scope3))) = tape::value_reply(
                    tape2,
                    Request::CompileExpr {
                        expr: arg,
                        generics: site.generics,
                        scope: Rc::new(scope),
                        expected,
                    },
                ) {
                    arguments_come_in_parts(
                        tape3,
                        site,
                        list::held(&scope3),
                        list::held(&rest),
                        second,
                        calls::after(at),
                    );
                    if let Ok((_, (all, _))) = calls::arg_values(
                        tape,
                        site,
                        scope,
                        first.joined(second),
                        at,
                    ) {
                        if let Ok((_, (values, _))) = calls::arg_values(
                            tape,
                            site,
                            scope,
                            first,
                            at,
                        ) {
                            let tail = list::held(&values->Cons_1);
                            let rear = list::held(&all->Cons_1);
                            assert(values@ == seq![list::held(&val)] + tail@);
                            assert(all@ == seq![list::held(&val)] + rear@);
                            assert(all@ =~= values@ + rear@.skip(tail@.len() as int)) by {
                                assert(rear@ =~= tail@ + rear@.skip(tail@.len() as int));
                            }
                        }
                    }
                }
            }
        },
    }
}

/// A literal or an operator before its operand is compiled with the type that was found for it.
pub proof fn literal_argument_takes_its_type(
    site: Site,
    scope: Context,
    arg: Rc<Expr>,
    rest: List<Expr>,
    at: usize,
    tile: Rc<TileType>,
)
    requires
        arg.kind is Lit || arg.kind is Unary,
        site.results matches Some(found) && results::filed(found@.tiles, arg.id) == Some(tile),
    ensures
        asks(
            calls::arg_values(end(), site, scope, List::Cons(arg, Rc::new(rest)), at),
            Request::CompileExpr {
                expr: arg,
                generics: site.generics,
                scope: Rc::new(scope),
                expected: Some(tile),
            },
        ),
{
}

// Parameters.

/// Whether the names of a list are different.
pub open spec fn are_different(names: List<Symbol>) -> bool {
    forall|i: int, j: int|
        0 <= i < j < names@.len() ==> #[trigger] names@[i] != #[trigger] names@[j]
}

/// Whether a value is the one that an argument was bound as: it is the same value, under another
/// type and mutability.
pub open spec fn is_bound_as(val: Value, arg: Value, ty: Type, mutable: bool) -> bool {
    &&& val.handle == arg.handle
    &&& val.variant == arg.variant
    &&& val.meta == arg.meta
    &&& val.bounds == arg.bounds
    &&& arg.variant != Some(names::WITH_VALUE) ==> val.payload == arg.payload
    &&& *val.ty.rust_ty == ty
    &&& val.ty.params == arg.ty.params
    &&& val.ty.handle == arg.ty.handle
    &&& val.mutable == mutable
}

/// Each parameter of an inlined callable stands for the argument in its place, under the type and the
/// mutability that the callable declares.
pub proof fn parameter_stands_for_its_argument(
    tape: List<Reply>,
    site: Site,
    entered: Entered,
    params: Params,
    args: List<Expr>,
    values: List<Value>,
    at: usize,
    i: int,
)
    requires
        calls::params_bound(tape, site, entered, params, args, values, at) is Ok,
        calls::payloads_are_named(params),
        are_different(params.names),
        0 <= i < params.names@.len(),
    ensures
        i < values@.len(),
        i < args@.len(),
        i < params.types@.len(),
        i < params.mutable@.len(),
        value::value_of(
            calls::params_bound(tape, site, entered, params, args, values, at)->Ok_0.1.inner.vars,
            params.names@[i],
        ) matches Some(val) && is_bound_as(
            *val,
            values@[i],
            params.types@[i],
            params.mutable@[i],
        ),
    decreases params.names,
{
    if let List::Cons(first, more_names) = params.names {
        assert(params.names@ == seq![list::held(&first)] + more_names@);
        assert(params.names@[0] == list::held(&first));
        let types_left = params.types->Cons_1;
        let mutable_left = params.mutable->Cons_1;
        let args_left = args->Cons_1;
        let values_left = values->Cons_1;
        assert(params.types@ == seq![list::held(&params.types->Cons_0)] + types_left@);
        assert(params.mutable@ == seq![list::held(&params.mutable->Cons_0)] + mutable_left@);
        assert(args@ == seq![list::held(&args->Cons_0)] + args_left@);
        assert(values@ == seq![list::held(&values->Cons_0)] + values_left@);
        let step = match params.payload_names {
            Some(payloads) => calls::payload_bound(
                tape,
                site,
                entered,
                list::held(&values->Cons_0),
                calls::first_name(payloads),
                at,
            ),
            None => Ok((tape, (entered, list::held(&values->Cons_0)))),
        };
        let (next_tape, (next, val)) = step->Ok_0;
        let param = calls::as_param(
            val,
            params.types->Cons_0,
            list::held(&params.mutable->Cons_0),
        );
        let inner = Entered {
            inner: value::binding(next.inner, list::held(&first), Rc::new(param)),
            outer: next.outer,
            passed: calls::with_passed(
                next.passed,
                list::held(&args->Cons_0),
                list::held(&first),
            ),
        };
        let rest = Params {
            names: list::held(&more_names),
            types: list::held(&types_left),
            mutable: list::held(&mutable_left),
            payload_names: match params.payload_names {
                Some(payloads) => Some(calls::behind(payloads)),
                None => None,
            },
        };
        if let Some(payloads) = params.payload_names {
            assert(payloads@ == seq![calls::first_name(payloads)] + calls::behind(payloads)@);
            assert forall|i: int, j: int|
                0 <= i < rest.names@.len() && 0 <= j < calls::behind(payloads)@.len() implies
                #[trigger] rest.names@[i] != #[trigger] calls::behind(payloads)@[j] by {
                assert(params.names@[i + 1] == rest.names@[i]);
                assert(payloads@[j + 1] == calls::behind(payloads)@[j]);
            }
        }
        assert forall|a: int, b: int| 0 <= a < b < rest.names@.len() implies #[trigger]
        rest.names@[a] != #[trigger] rest.names@[b] by {
            assert(params.names@[a + 1] == rest.names@[a]);
            assert(params.names@[b + 1] == rest.names@[b]);
        }
        if i > 0 {
            parameter_stands_for_its_argument(
                next_tape,
                site,
                inner,
                rest,
                list::held(&args_left),
                list::held(&values_left),
                calls::after(at),
                i - 1,
            );
            assert(params.names@[i] == rest.names@[i - 1]);
            assert(params.types@[i] == rest.types@[i - 1]);
            assert(params.mutable@[i] == rest.mutable@[i - 1]);
            assert(values@[i] == values_left@[i - 1]);
        } else {
            let name = list::held(&first);
            assert(!rest.names@.contains(name)) by {
                if rest.names@.contains(name) {
                    let j = rest.names@.index_of(name);
                    assert(params.names@[j + 1] == params.names@[0]);
                }
            }
            if let Some(payloads) = params.payload_names {
                assert(!calls::behind(payloads)@.contains(name)) by {
                    if calls::behind(payloads)@.contains(name) {
                        let j = calls::behind(payloads)@.index_of(name);
                        assert(payloads@[j + 1] == params.names@[0]);
                    }
                }
            }
            calls::other_names_stay(
                next_tape,
                site,
                inner,
                rest,
                list::held(&args_left),
                list::held(&values_left),
                calls::after(at),
                name,
            );
        }
    }
}

/// An inlined callable that is passed too few arguments is refused, at the first parameter without
/// one.
pub proof fn missing_argument_is_refused(
    tape: List<Reply>,
    site: Site,
    entered: Entered,
    params: Params,
    at: usize,
)
    requires
        params.names@.len() > 0,
    ensures
        fails(
            calls::params_bound(tape, site, entered, params, List::Nil, List::Nil, at),
            CompileError::TooFewArguments(Place::Param(at)),
        ),
{
}

// Entry points.

/// Each parameter of an entry point stands for the argument of the entry block in its place, of the
/// type and the mutability in that place.
pub proof fn entry_parameter_is_its_block_argument(
    scope: Context,
    names: List<Symbol>,
    handles: List<u64>,
    types: List<TileType>,
    mutable: List<bool>,
    i: int,
)
    requires
        are_different(names),
        handles@.len() == names@.len(),
        types@.len() == names@.len(),
        mutable@.len() == names@.len(),
        0 <= i < names@.len(),
    ensures
        value::value_of(
            kernel::entry_scope(scope, names, handles, types, mutable).vars,
            names@[i],
        ) matches Some(val) && {
            &&& val.handle == handles@[i]
            &&& *val.ty == types@[i]
            &&& val.mutable == mutable@[i]
            &&& val.variant is None
            &&& val.payload is None
            &&& val.bounds is None
        },
    decreases names,
{
    if let List::Cons(name, more_names) = names {
        let more_handles = handles->Cons_1;
        let more_types = types->Cons_1;
        let more_mutable = mutable->Cons_1;
        assert(names@ == seq![list::held(&name)] + more_names@);
        assert(names@[0] == list::held(&name));
        assert(handles@ == seq![list::held(&handles->Cons_0)] + more_handles@);
        assert(types@ == seq![list::held(&types->Cons_0)] + more_types@);
        assert(mutable@ == seq![list::held(&mutable->Cons_0)] + more_mutable@);
        let inner = value::binding(
            scope,
            list::held(&name),
            Rc::new(
                kernel::entry_value(
                    list::held(&handles->Cons_0),
                    types->Cons_0,
                    list::held(&mutable->Cons_0),
                ),
            ),
        );
        if i > 0 {
            assert forall|a: int, b: int| 0 <= a < b < more_names@.len() implies #[trigger]
            more_names@[a] != #[trigger] more_names@[b] by {
                assert(names@[a + 1] == more_names@[a]);
                assert(names@[b + 1] == more_names@[b]);
            }
            entry_parameter_is_its_block_argument(
                inner,
                list::held(&more_names),
                list::held(&more_handles),
                list::held(&more_types),
                list::held(&more_mutable),
                i - 1,
            );
            assert(names@[i] == more_names@[i - 1]);
            assert(handles@[i] == more_handles@[i - 1]);
            assert(types@[i] == more_types@[i - 1]);
            assert(mutable@[i] == more_mutable@[i - 1]);
        } else {
            assert(!more_names@.contains(list::held(&name))) by {
                if more_names@.contains(list::held(&name)) {
                    let j = more_names@.index_of(list::held(&name));
                    assert(names@[j + 1] == names@[0]);
                }
            }
            other_entry_names_stay(
                inner,
                list::held(&more_names),
                list::held(&more_handles),
                list::held(&more_types),
                list::held(&more_mutable),
                list::held(&name),
            );
        }
    }
}

/// An entry point binds no names but those of its parameters.
pub proof fn other_entry_names_stay(
    scope: Context,
    names: List<Symbol>,
    handles: List<u64>,
    types: List<TileType>,
    mutable: List<bool>,
    name: Symbol,
)
    requires
        !names@.contains(name),
    ensures
        value::value_of(
            kernel::entry_scope(scope, names, handles, types, mutable).vars,
            name,
        ) == value::value_of(scope.vars, name),
    decreases names,
{
    if let List::Cons(first, more_names) = names {
        assert(names@ == seq![list::held(&first)] + more_names@);
        assert(names@[0] == list::held(&first));
        assert(!more_names@.contains(name)) by {
            if more_names@.contains(name) {
                let j = more_names@.index_of(name);
                assert(names@[j + 1] == name);
            }
        }
        if handles is Cons && types is Cons && mutable is Cons {
            other_entry_names_stay(
                value::binding(
                    scope,
                    list::held(&first),
                    Rc::new(
                        kernel::entry_value(
                            list::held(&handles->Cons_0),
                            types->Cons_0,
                            list::held(&mutable->Cons_0),
                        ),
                    ),
                ),
                list::held(&more_names),
                list::held(&handles->Cons_1),
                list::held(&types->Cons_1),
                list::held(&mutable->Cons_1),
                name,
            );
        }
    }
}

} // verus!

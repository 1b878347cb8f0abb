//! The steps in which bodies are compiled: what is asked for first, and what after each reply.
use crate::codegen::calls::{self, Adopts, Entered, Site};
use crate::codegen::consts::Bound;
use crate::codegen::dialogue;
use crate::codegen::kernel::{self, CUDATileFunctionCompiler};
use crate::codegen::tape::{
    BoolConst, CompileError, ConstKind, Halt, IntConst, Place, Reply, Request, TypedName,
};
use crate::codegen::typing::{self, Body};
use crate::codegen::value::{self, Context, Value};
use crate::env::{GenericVars, MethodItem, NamedParam, TileType};
use crate::exprs;
use crate::list::List;
use crate::names::{self, Names};
use crate::results::{self, ResultsView};
use crate::scalar;
use crate::syntax::{Expr, FnItem, Symbol, Type};
use std::rc::Rc;
use vstd::prelude::*;

verus! {

/// What a `Some` argument holds is compiled where the call stands, is bound inside to a name of its
/// own, and the argument holds that name from then on; another argument is bound as it is.
pub proof fn payload_is_compiled_where_the_call_stands(
    site: Site,
    entered: Entered,
    arg: Value,
    payload: Rc<Expr>,
    name: Symbol,
    at: usize,
    val: Rc<Value>,
    outer: Rc<Context>,
    rest: List<Reply>,
)
    ensures
        arg.variant != Some(names::WITH_VALUE) ==> dialogue::ends(
            calls::payload_bound(rest, site, entered, arg, name, at),
            rest,
            (entered, arg),
        ),
        arg.variant == Some(names::WITH_VALUE) && arg.payload is None ==> dialogue::fails(
            calls::payload_bound(rest, site, entered, arg, name, at),
            CompileError::MissingPayload(Place::Argument(at)),
        ),
        arg.variant == Some(names::WITH_VALUE) && arg.payload == Some(payload) ==> {
            &&& dialogue::asks(
                calls::payload_bound(dialogue::end(), site, entered, arg, name, at),
                Request::CompileExpr {
                    expr: payload,
                    generics: site.generics,
                    scope: Rc::new(entered.outer),
                    expected: None,
                },
            )
            &&& dialogue::fails(
                calls::payload_bound(
                    dialogue::replied(Reply::Compiled { value: None, scope: outer }, rest),
                    site,
                    entered,
                    arg,
                    name,
                    at,
                ),
                CompileError::UncompiledPayload(Place::Argument(at)),
            )
            &&& calls::payload_bound(
                dialogue::replied(Reply::Compiled { value: Some(val), scope: outer }, rest),
                site,
                entered,
                arg,
                name,
                at,
            ) matches Ok((left, (inside, held))) && left == rest && value::value_of(
                inside.inner.vars,
                name,
            ) == Some(val) && inside.outer == *outer && inside.passed == entered.passed
                && inside.inner.modules == entered.inner.modules && held.handle == arg.handle
                && held.ty == arg.ty && (held.payload matches Some(own) && exprs::expr_name(*own)
                == Some(name))
        },
{
    value::bound_value_is_found(entered.inner.vars, name, val, name);
}

/// An inlined call of a function starts with its parameters: the backend is asked for the function
/// with these normalized, before any argument is compiled.
pub proof fn parameters_are_normalized_first(
    names: Names,
    site: Site,
    module: Symbol,
    item: Rc<FnItem>,
    call: Expr,
    func: Expr,
    args: List<Expr>,
    payload_names: List<Symbol>,
    scope: Context,
    expected: Option<Rc<TileType>>,
)
    ensures
        dialogue::asks(
            calls::function_inlined(
                dialogue::end(),
                names,
                site,
                module,
                item,
                call,
                func,
                args,
                payload_names,
                scope,
                expected,
            ),
            Request::NormalizeParams(item),
        ),
{
}

/// The body of an inlined function is numbered, as written where it is called unless it stands in the
/// module of the call; then its types are found; then it is lowered with these; then the lowered body
/// is compiled with them; and then the call ends with the value of the body.
pub proof fn function_body_is_compiled_step_by_step(
    names: Names,
    site: Site,
    module: Symbol,
    item: Rc<FnItem>,
    call: Expr,
    entered: Entered,
    bound: Bound,
    expected: Option<Rc<TileType>>,
    numbered: Rc<FnItem>,
    lowered: Rc<FnItem>,
    found: ResultsView,
    val: Option<Rc<Value>>,
    after: Rc<Context>,
    more: List<Reply>,
    rest: List<Reply>,
)
    requires
        typing::body_types(
            more,
            *site.typing,
            bound.vars,
            Body { impl_item: None, item: numbered },
            calls::typed_names(entered.inner.vars),
        ) == Ok::<(List<Reply>, ResultsView), Halt<ResultsView>>((rest, found)),
    ensures
        dialogue::asks(
            calls::function_body(
                dialogue::end(),
                names,
                site,
                module,
                item,
                call,
                entered,
                bound,
                expected,
            ),
            Request::Number {
                item,
                at_call: !value::same_module(names.text_of(module), names.text_of(site.module)),
            },
        ),
        ({
            let run = calls::function_body(
                dialogue::replied(Reply::Item(numbered), more),
                names,
                site,
                module,
                item,
                call,
                entered,
                bound,
                expected,
            );
            &&& rest is Nil ==> dialogue::asks(run, Request::Lower { item: numbered, results: found })
            &&& rest == dialogue::replied(Reply::Item(lowered), dialogue::end()) ==> dialogue::asks(
                run,
                Request::CompileBlock {
                    body: Rc::new(lowered.body),
                    generics: bound.vars,
                    scope: Rc::new(entered.inner),
                    expected,
                    results: found,
                },
            )
            &&& rest == dialogue::replied(
                Reply::Item(lowered),
                dialogue::replied(Reply::Compiled { value: val, scope: after }, dialogue::end()),
            ) ==> run == calls::call_ended(
                dialogue::end(),
                site,
                call,
                entered,
                (val, after),
                expected,
                Adopts::All,
            )
        }),
{
}

/// The body of a method is numbered as written where it is called; then its types are found, with its
/// `impl` block; then it is compiled with them; and then the call ends, its value written as the type
/// that is expected.
pub proof fn method_body_is_compiled_step_by_step(
    site: Site,
    method: MethodItem,
    call: Expr,
    entered: Entered,
    vars: Rc<GenericVars>,
    expected: Option<Rc<TileType>>,
    numbered: Rc<FnItem>,
    found: ResultsView,
    val: Option<Rc<Value>>,
    after: Rc<Context>,
    more: List<Reply>,
    rest: List<Reply>,
)
    requires
        typing::body_types(
            more,
            *site.typing,
            vars,
            Body { impl_item: Some(method.impl_item), item: numbered },
            calls::typed_names(entered.inner.vars),
        ) == Ok::<(List<Reply>, ResultsView), Halt<ResultsView>>((rest, found)),
    ensures
        dialogue::asks(
            calls::method_body(dialogue::end(), site, method, call, entered, vars, expected),
            Request::Number { item: method.method, at_call: true },
        ),
        ({
            let run = calls::method_body(
                dialogue::replied(Reply::Item(numbered), more),
                site,
                method,
                call,
                entered,
                vars,
                expected,
            );
            &&& rest is Nil ==> dialogue::asks(
                run,
                Request::CompileBlock {
                    body: Rc::new(numbered.body),
                    generics: vars,
                    scope: Rc::new(entered.inner),
                    expected,
                    results: found,
                },
            )
            &&& rest == dialogue::replied(
                Reply::Compiled { value: val, scope: after },
                dialogue::end(),
            ) ==> run == calls::call_ended(
                dialogue::end(),
                site,
                call,
                entered,
                (val, after),
                expected,
                Adopts::Written,
            )
        }),
{
}

/// The body of an entry point is numbered as it is written; then its types are found; then it is
/// lowered with these, and the lowered body is compiled, as one that returns at its end and gives
/// nothing.
pub proof fn entry_body_is_compiled_step_by_step(
    kernel: CUDATileFunctionCompiler,
    params: List<TileType>,
    initial: List<TypedName>,
    scope: Context,
    numbered: Rc<FnItem>,
    lowered: Rc<FnItem>,
    found: ResultsView,
    val: Rc<Value>,
    after: Rc<Context>,
    more: List<Reply>,
    rest: List<Reply>,
)
    requires
        typing::body_types(
            more,
            *kernel.typing,
            kernel.generics.vars,
            Body { impl_item: None, item: numbered },
            initial,
        ) == Ok::<(List<Reply>, ResultsView), Halt<ResultsView>>((rest, found)),
    ensures
        dialogue::asks(
            kernel::entry_body(dialogue::end(), kernel, params, initial, scope),
            Request::Number { item: kernel.entry, at_call: false },
        ),
        ({
            let run = kernel::entry_body(
                dialogue::replied(Reply::Item(numbered), more),
                kernel,
                params,
                initial,
                scope,
            );
            &&& rest is Nil ==> dialogue::asks(run, Request::Lower { item: numbered, results: found })
            &&& rest == dialogue::replied(Reply::Item(lowered), dialogue::end()) ==> (run matches Err(
                Halt::Perform(
                    Request::CompileBlock { body, generics, scope: within, expected, results },
                ),
            ) && *body == lowered.body && generics == kernel.generics.vars && within.returns_at_end
                && within.vars == scope.vars && within.modules == scope.modules && expected is None
                && results == found)
            &&& rest == dialogue::replied(
                Reply::Item(lowered),
                dialogue::replied(
                    Reply::Compiled { value: Some(val), scope: after },
                    dialogue::end(),
                ),
            ) ==> dialogue::fails(run, CompileError::ReturnsValue(Place::Body))
            &&& rest == dialogue::replied(
                Reply::Item(lowered),
                dialogue::replied(Reply::Compiled { value: None, scope: after }, dialogue::end()),
            ) ==> dialogue::asks(
                run,
                Request::CloseEntry { name: kernel.entry.name, params, hints: kernel.hints },
            )
        }),
{
}

/// The names that inference starts with have the types that the backend compiles for them: `i32` for
/// a constant that is a number, and `bool` for a truth value; the names before them stay.
pub proof fn constants_are_typed_as_their_kind(
    generics: Rc<GenericVars>,
    known: List<TypedName>,
    item: IntConst,
    flag: BoolConst,
    tile: Rc<TileType>,
    rest: List<Reply>,
    other: Symbol,
)
    ensures
        ({
            let ints = List::Cons(Rc::new(item), Rc::new(List::Nil));
            let bools = List::Cons(Rc::new(flag), Rc::new(List::Nil));
            let replies = dialogue::replied(Reply::CompiledType(Some(tile)), rest);
            let none = dialogue::replied(Reply::CompiledType(None), rest);
            &&& dialogue::asks(
                kernel::with_int_types(dialogue::end(), generics, known, ints),
                Request::CompileType {
                    ty: Rc::new(scalar::named_type(names::I32)),
                    generics,
                    params: List::Nil,
                },
            )
            &&& dialogue::asks(
                kernel::with_bool_types(dialogue::end(), generics, known, bools),
                Request::CompileType {
                    ty: Rc::new(scalar::named_type(names::BOOL)),
                    generics,
                    params: List::Nil,
                },
            )
            &&& kernel::with_int_types(replies, generics, known, ints) matches Ok((left, all))
                && left == rest && typing::type_table(all)[item.name] == tile
                && typing::type_table(all).contains_key(item.name) && (other != item.name
                ==> typing::type_table(all).contains_key(other) == typing::type_table(
                known,
            ).contains_key(other) && typing::type_table(all)[other] == typing::type_table(
                known,
            )[other])
            &&& dialogue::fails(
                kernel::with_int_types(none, generics, known, ints),
                CompileError::UncompiledConstType {
                    place: Place::Nowhere,
                    kind: ConstKind::Number,
                },
            )
        }),
        ({
            let bools = List::Cons(Rc::new(flag), Rc::new(List::Nil));
            let replies = dialogue::replied(Reply::CompiledType(Some(tile)), rest);
            kernel::with_bool_types(replies, generics, known, bools) matches Ok((left, all)) && left
                == rest && typing::type_table(all).contains_key(flag.name) && typing::type_table(
                all,
            )[flag.name] == tile && (other != flag.name ==> typing::type_table(all).contains_key(
                other,
            ) == typing::type_table(known).contains_key(other) && typing::type_table(all)[other]
                == typing::type_table(known)[other])
        }),
{
    reveal_with_fuel(kernel::with_int_types, 2);
    reveal_with_fuel(kernel::with_bool_types, 2);
    let int_typed = List::Cons(
        Rc::new(TypedName { name: item.name, ty: tile }),
        Rc::new(known),
    );
    let bool_typed = List::Cons(
        Rc::new(TypedName { name: flag.name, ty: tile }),
        Rc::new(known),
    );
    assert(typing::type_table(int_typed) == typing::type_table(known).insert(item.name, tile));
    assert(typing::type_table(bool_typed) == typing::type_table(known).insert(flag.name, tile));
}

/// The compiled type of an expression is the one that inference filed; where it filed only the type
/// as written, the backend compiles that; and without inference none is known.
pub proof fn filed_type_is_compiled(
    tape: List<Reply>,
    site: Site,
    expr: Expr,
    params: List<NamedParam>,
    tile: Rc<TileType>,
    ty: Type,
)
    ensures
        site.results is None ==> dialogue::ends(
            calls::tile_type_of(tape, site, expr, params),
            tape,
            None,
        ),
        site.results matches Some(found) && results::filed(found@.tiles, expr.id) == Some(tile)
            ==> dialogue::ends(calls::tile_type_of(tape, site, expr, params), tape, Some(tile)),
        site.results matches Some(found) && results::filed(found@.tiles, expr.id) is None
            && results::surface_type(found@, expr.id) == Some(ty) ==> dialogue::asks(
            calls::tile_type_of(dialogue::end(), site, expr, params),
            Request::CompileType { ty: Rc::new(ty), generics: site.generics, params },
        ),
{
}

/// A kernel's own body is numbered as it is written once the types of its parameters and constants
/// are known, and its types are found from these.
pub proof fn kernel_is_typed_from_its_parameters(
    tape: List<Reply>,
    kernel: CUDATileFunctionCompiler,
    params: List<TileType>,
    initial: List<TypedName>,
    numbered: Rc<FnItem>,
    one: List<Reply>,
    two: List<Reply>,
    rest: List<Reply>,
)
    requires
        kernel::param_types(
            tape,
            kernel.generics.vars,
            kernel.stride_args,
            kernel.function.param_names,
            kernel.function.param_types,
            0,
        ) == Ok::<(List<Reply>, List<TileType>), Halt<ResultsView>>((one, params)),
        kernel::initial_types(one, kernel.function.param_names, params, kernel.generics) == Ok::<
            (List<Reply>, List<TypedName>),
            Halt<ResultsView>,
        >((two, initial)),
    ensures
        two is Nil ==> dialogue::asks(
            kernel::kernel_types(tape, kernel),
            Request::Number { item: kernel.function, at_call: false },
        ),
        two == dialogue::replied(Reply::Item(numbered), rest) ==> kernel::kernel_types(tape, kernel)
            == typing::body_types(
            rest,
            *kernel.typing,
            kernel.generics.vars,
            Body { impl_item: None, item: numbered },
            initial,
        ),
{
}

} // verus!

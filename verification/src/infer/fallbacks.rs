//! What holds where less is known: of indices into arrays whose types come from their items, of
//! variables without an annotation, of closures, and of patterns of other forms.
use crate::ask;
use crate::env::{
    self, Env, Fields, NamedParam, ParamBinding, Solver, Step, Stop, TileType,
};
use crate::exprs;
use crate::infer::compounds;
use crate::infer::lookups;
use crate::infer::patterns;
use crate::infer::selection;
use crate::infer::state::{self, Frame, StateView};
use crate::infer::terms;
use crate::infer::walk;
use crate::list::{self, List};
use crate::names;
use crate::resolvable;
use crate::resolved;
use crate::results;
use crate::scalar;
use crate::substitute::{self, ClosureSignature};
use crate::syntax::{
    ClosureParam, Expr, ExprKind, FnItem, GenericArg, ImplItem, NodeId, Pat, Path, Symbol, Type,
};
use crate::types;
use crate::unify::{self, InferVarId, InferVarKind, InferredTy};
use std::rc::Rc;
use vstd::prelude::*;

verus! {

/// The indices of a mapped partition are indices of as many dimensions as its second argument says;
/// of another type nothing is decided.
pub proof fn partition_has_indices_of_its_shape(
    f: Frame,
    ty: Type,
    ident: Symbol,
    args: List<GenericArg>,
    dims: List<i32>,
    other: Option<List<GenericArg>>,
)
    ensures
        ask::head(f.env, ty) == Ok::<(Option<Symbol>, Option<List<GenericArg>>), Stop>(
            (Some(ident), Some(args)),
        ) && names::starts(f.env.names.text_of(ident), "MappedPartitionMut"@) && args@.len() >= 2
            && ask::dims(f.env, args@[1]) == Ok::<Option<List<i32>>, Stop>(Some(dims))
            ==> walk::partition_index_type(f, ty) == (match ask::compiled(
            f.env,
            types::shaped_type(names::PARTITION_INDEX, exprs::dim_exprs(dims)),
        ) {
            Ok(tile) => Ok::<Option<Option<Rc<TileType>>>, Stop>(Some(tile)),
            Err(stop) => Err(stop),
        }),
        ask::head(f.env, ty) == Ok::<(Option<Symbol>, Option<List<GenericArg>>), Stop>(
            (Some(ident), other),
        ) && !names::starts(f.env.names.text_of(ident), "MappedPartitionMut"@)
            ==> walk::partition_index_type(f, ty) == Ok::<Option<Option<Rc<TileType>>>, Stop>(None),
{
}

/// What is expected of an argument so far is the parameter's type with the names replaced that are
/// bound so far, where that is known; else the parameter's own type, where it is a scalar.
pub proof fn argument_is_expected_as_bound_so_far(
    f: Frame,
    limit: nat,
    param: Type,
    solver: Solver,
    bindings: List<ParamBinding>,
    own: Rc<Type>,
    tile: Rc<TileType>,
)
    requires
        ask::bindings(f.env, solver) == Ok::<List<ParamBinding>, Stop>(bindings),
    ensures
        substitute::substituted(bindings, param) == Some(own) && lookups::expected_param(
            f,
            limit,
            *own,
        ) == Ok::<Option<Rc<TileType>>, Stop>(Some(tile)) ==> walk::expected_so_far(
            f,
            limit,
            param,
            solver,
        ) == Ok::<Option<Rc<TileType>>, Stop>(Some(tile)),
        substitute::substituted(bindings, param) is None && types::is_scalar(*f.env.names, param)
            ==> walk::expected_so_far(f, limit, param, solver) == ask::compiled_if_any(f.env, param),
        substitute::substituted(bindings, param) is None && !types::is_scalar(*f.env.names, param)
            ==> walk::expected_so_far(f, limit, param, solver) == Ok::<
            Option<Rc<TileType>>,
            Stop,
        >(None),
{
}

/// A closure's parameter or result that is a scalar is a one-element tile; one that is not, or that
/// has no such tile, is what a parameter of its type is.
pub proof fn scalars_of_closures_are_tiles(
    f: Frame,
    limit: nat,
    name: Symbol,
    tile: Rc<TileType>,
    ty: Type,
)
    ensures
        scalar::builtin_scalar_name(f.env.names.text_of(name)) && ask::scalar_tile(f.env, name)
            == Ok::<Option<Rc<TileType>>, Stop>(Some(tile)) ==> lookups::closure_value(
            f,
            limit,
            scalar::named_type(name),
        ) == Ok::<Option<Rc<TileType>>, Stop>(Some(tile)),
        scalar::builtin_scalar_name(f.env.names.text_of(name)) && ask::scalar_tile(f.env, name)
            == Ok::<Option<Rc<TileType>>, Stop>(None) ==> lookups::closure_value(
            f,
            limit,
            scalar::named_type(name),
        ) == lookups::expected_param(f, limit, scalar::named_type(name)),
        types::bare_name(ty) is None ==> lookups::closure_value(f, limit, ty)
            == lookups::expected_param(f, limit, ty),
{
    assert(types::bare_name(scalar::named_type(name)) == Some(name));
}

/// The types of a closure are those of its inputs and of its output, with the names replaced that the
/// solver has bound; without an output, or where it is not known, only those of its inputs.
pub proof fn closure_has_the_types_of_its_signature(
    f: Frame,
    limit: nat,
    inputs: List<Type>,
    output: Rc<Type>,
    solver: Solver,
    bindings: List<ParamBinding>,
    tiles: List<TileType>,
    own: Rc<Type>,
    result: Option<Rc<TileType>>,
)
    requires
        ask::bindings(f.env, solver) == Ok::<List<ParamBinding>, Stop>(bindings),
        lookups::closure_inputs(f, limit, bindings, inputs) == Ok::<Option<List<TileType>>, Stop>(
            Some(tiles),
        ),
    ensures
        lookups::closure_types(f, limit, ClosureSignature { inputs, output: None }, solver) == Ok::<
            Option<(List<TileType>, Option<Rc<TileType>>)>,
            Stop,
        >(Some((tiles, None))),
        substitute::substituted(bindings, *output) == Some(own) && lookups::closure_value(
            f,
            limit,
            *own,
        ) == Ok::<Option<Rc<TileType>>, Stop>(result) ==> lookups::closure_types(
            f,
            limit,
            ClosureSignature { inputs, output: Some(output) },
            solver,
        ) == Ok::<Option<(List<TileType>, Option<Rc<TileType>>)>, Stop>(Some((tiles, result))),
{
}

/// What is indexed takes its type from the item that is expected of it: an array of as many such
/// items is expected of the base, and the index is of the expected type.
pub proof fn expected_item_types_the_array(
    f: Frame,
    limit: nat,
    s: StateView,
    one: StateView,
    two: StateView,
    three: StateView,
    base: Expr,
    index: Expr,
    elem: Rc<TileType>,
    array: Rc<TileType>,
    again: Option<Rc<TileType>>,
)
    requires
        walk::expr_type(f, limit, s, base, None) == compounds::read(one, None),
        lookups::array_expected_at_index(f, one, base, elem) == compounds::read(two, Some(array)),
        walk::expr_type(f, limit, two, base, Some(array)) == compounds::read(three, again),
    ensures
        walk::index_rule(f, limit, s, base, index, Some(elem)) == compounds::read(
            three,
            Some(elem),
        ),
        walk::index_rule(f, limit, s, base, index, None) == compounds::read(one, None),
{
}

/// The array whose item is expected to be of a type is an array of such items, as many as it has; its
/// term takes that type.
pub proof fn array_is_of_the_expected_items(
    f: Frame,
    s: StateView,
    base: Expr,
    elem: Rc<TileType>,
    len: usize,
    array: Rc<TileType>,
    term: InferredTy,
)
    requires
        lookups::array_length(f, s, base) == Some(len),
        ask::compiled(
            f.env,
            Type::Array { elem: elem.rust_ty, len: Rc::new(exprs::count_expr(len)) },
        ) == Ok::<Option<Rc<TileType>>, Stop>(Some(array)),
        lookups::expr_or_local(s, base) == Some(term),
    ensures
        ({
            let (after, own) = unify::unified_with_known(*f.env.names, s.inference, term, array);
            lookups::array_expected_at_index(f, s, base, elem) matches Ok((end, ty)) && ty == Some(
                array,
            ) && end.inference == unify::recorded(after, base.id, own) && end.results == s.results
        }),
{
}

/// An index into a shape gives an `i32`.
pub proof fn shape_is_indexed_by_numbers(
    f: Frame,
    limit: nat,
    s: StateView,
    mid: StateView,
    base: Expr,
    index: Expr,
    path: Path,
    tile: Rc<TileType>,
    expected: Option<Rc<TileType>>,
    integer: Option<Rc<TileType>>,
)
    requires
        walk::expr_type(f, limit, s, base, None) == compounds::read(mid, Some(tile)),
        *tile.rust_ty == (Type::Path { qself: None, path }),
        exprs::last_name(path) == Some(names::SHAPE) || (exprs::last_name(path) matches Some(name)
            && names::starts(f.env.names.text_of(name), "Shape_"@)),
        ask::compiled(f.env, scalar::named_type(names::I32)) == Ok::<Option<Rc<TileType>>, Stop>(
            integer,
        ),
    ensures
        walk::index_rule(f, limit, s, base, index, expected) == compounds::read(mid, integer),
{
}

// Variables and closures.

/// A variable without an annotation stands for the term of its value: a known type is its type, a
/// variable is what its name stands for, and of an unknown value the name stands for a new variable.
pub proof fn variable_stands_for_the_term_of_its_value(
    f: Frame,
    limit: nat,
    s: StateView,
    mid: StateView,
    pat: Pat,
    name: Symbol,
    init: Rc<Expr>,
    tile: Rc<TileType>,
    id: InferVarId,
)
    requires
        exprs::binding_name(pat) == Some(name),
    ensures
        walk::expr_term(f, limit, s, *init, None) == terms::termed(mid, InferredTy::Known(tile))
            ==> walk::local_init(f, limit, s, pat, Some(init), None) == compounds::read(
            mid,
            Some(tile),
        ),
        walk::expr_term(f, limit, s, *init, None) == terms::termed(mid, InferredTy::Var(id))
            && unify::known_type(mid.inference.vars, InferredTy::Var(id)) is None ==> (
        walk::local_init(f, limit, s, pat, Some(init), None) matches Ok((end, ty)) && ty is None
            && end.local_terms == mid.local_terms.insert(name, InferredTy::Var(id))),
        walk::expr_term(f, limit, s, *init, None) == terms::termed(mid, InferredTy::Unknown) ==> (
        walk::local_init(f, limit, s, pat, Some(init), None) matches Ok((end, ty)) && ty is None
            && end.inference == unify::with_var(
            mid.inference,
            InferVarKind::General,
            init.id,
            Some(*init),
        )),
        walk::local_init(f, limit, s, pat, None, None) == compounds::read(s, None),
        walk::local_init(f, limit, s, pat, Some(init), Some(tile)) == walk::expr_type(
            f,
            limit,
            s,
            *init,
            Some(tile),
        ),
{
}

/// The names of a variable's pattern are bound to the compiled type of its value; else to the type
/// that it is annotated with, or that is filed for its value; else to the parts of its value.
pub proof fn variable_is_bound_to_what_is_known(
    f: Frame,
    limit: nat,
    s: StateView,
    pat: Pat,
    init: Rc<Expr>,
    tile: Rc<TileType>,
    ty: Type,
)
    ensures
        walk::local_binding(f, limit, s, pat, Some(init), Some(tile)) == patterns::pattern_compiled(
            f,
            s,
            pat,
            tile,
        ),
        exprs::annotation(pat) == Some(ty) ==> walk::local_binding(f, limit, s, pat, Some(init), None)
            == patterns::pattern_as_written(f, s, pat, Rc::new(ty)),
        exprs::annotation(pat) is None && results::surface_type(s.results, init.id) == Some(ty)
            ==> walk::local_binding(f, limit, s, pat, Some(init), None)
            == patterns::pattern_as_written(f, s, pat, Rc::new(ty)),
        exprs::annotation(pat) is None && results::surface_type(s.results, init.id) is None
            ==> walk::local_binding(f, limit, s, pat, Some(init), None) == walk::pattern_from_expr(
            f,
            limit,
            s,
            pat,
            *init,
        ),
        exprs::annotation(pat) is None ==> walk::local_binding(f, limit, s, pat, None, None)
            == terms::done(s),
{
}

/// A closure's parameter for which no type is given is of the type that it is annotated with, and
/// else stands for a new variable.
pub proof fn closure_parameter_without_a_given_type(
    f: Frame,
    s: StateView,
    param: ClosureParam,
    written: Rc<Type>,
    tile: Rc<TileType>,
    rest: List<ClosureParam>,
)
    ensures
        param.ty == Some(written) && ask::compiled(f.env, *written) == Ok::<
            Option<Rc<TileType>>,
            Stop,
        >(Some(tile)) ==> walk::closure_params(
            f,
            s,
            List::Cons(Rc::new(param), Rc::new(rest)),
            List::Nil,
        ) == walk::closure_params(f, state::bound(s, param.name, tile), rest, List::Nil),
        param.ty is None ==> walk::closure_params(
            f,
            s,
            List::Cons(Rc::new(param), Rc::new(rest)),
            List::Nil,
        ) == walk::closure_params(
            f,
            state::bound_to_term(
                state::with_var(s, InferVarKind::General, None, None),
                param.name,
                InferredTy::Var(InferVarId { index: s.inference.vars.len() as usize }),
            ),
            rest,
            List::Nil,
        ),
        walk::closure_params(f, s, List::Nil, List::Nil) == terms::done(s),
{
}

/// A cast to a type that does not compile has no compiled type where that is `isize` or `usize`, and
/// fails else; either way the type is filed for it.
pub proof fn cast_to_a_size_need_not_compile(
    f: Frame,
    limit: nat,
    s: StateView,
    mid: StateView,
    id: NodeId,
    expr: Expr,
    source: Expr,
    ty: Rc<Type>,
    own: Option<Rc<TileType>>,
    error: env::JitError,
)
    requires
        expr.id == Some(id),
        walk::expr_type(f, limit, s, source, None) == compounds::read(mid, own),
        ask::compiled_under(f.env, *ty, List::Nil) == Ok::<
            Result<Option<Rc<TileType>>, env::JitError>,
            Stop,
        >(Err(error)),
    ensures
        *ty == scalar::named_type(names::USIZE) || *ty == scalar::named_type(names::ISIZE) ==> (
        walk::cast_rule(f, limit, s, expr, source, ty) matches Ok((end, tile)) && tile is None
            && results::filed(end.results.resolved, Some(id)) is Some),
        !types::surface_only(*ty) ==> walk::cast_rule(f, limit, s, expr, source, ty) == Err::<
            (StateView, Option<Rc<TileType>>),
            Stop,
        >(Stop::Failed(error)),
{
}

// Patterns.

/// A reference in a pattern takes the reference off the type, and a tuple of patterns with a struct's
/// name binds its fields in their order.
pub proof fn patterns_take_types_apart(
    f: Frame,
    s: StateView,
    inner: Rc<Pat>,
    pats: List<Pat>,
    lifetime: Option<Symbol>,
    mutable: bool,
    elem: Rc<Type>,
    ty: Rc<Type>,
    tile: Option<Rc<TileType>>,
    name: Symbol,
    fields: List<Type>,
)
    ensures
        *ty == (Type::Reference { lifetime, mutable, elem }) ==> patterns::pattern_typed(
            f,
            s,
            Pat::Reference(inner),
            ty,
            tile,
        ) == patterns::pattern_as_written(f, s, *inner, elem),
        types::path_name_of(*ty) == Some(name) && env::fields_of(f.env.structs, name) == Some(
            Fields::Unnamed(fields),
        ) ==> patterns::pattern_typed(f, s, Pat::TupleStruct(pats), ty, tile)
            == patterns::patterns_typed(f, s, pats, fields),
        patterns::pattern_typed(f, s, Pat::Paren(inner), ty, tile) == patterns::pattern_typed(
            f,
            s,
            *inner,
            ty,
            tile,
        ),
        patterns::pattern_typed(f, s, Pat::Wild, ty, tile) == terms::done(s),
{
}

/// A type whose name is not known as it stands is not fully known: a declared name that is not bound,
/// one that looks like a parameter, and one that is of nothing.
pub proof fn unbound_names_are_not_known(env: Env, name: Symbol)
    ensures
        env::has_name(env.generic_vars.declared, name) && !env::has_name(
            env.generic_vars.inst_types,
            name,
        ) && !exprs::const_bound(*env.generic_vars, name) ==> resolvable::name_known(env, name)
            == Some(false),
        env::has_name(env.generic_vars.declared, name) && env::has_name(
            env.generic_vars.inst_types,
            name,
        ) ==> resolvable::name_known(env, name) == Some(true),
        !env::has_name(env.generic_vars.declared, name) && !env::has_name(
            env.generic_vars.inst_types,
            name,
        ) && !resolvable::names_a_type(env, name) ==> resolvable::name_known(env, name) == Some(
            false,
        ),
        !env::has_name(env.generic_vars.declared, name) && env::fields_of(env.structs, name) is Some
            ==> resolvable::name_known(env, name) is None,
{
}

// Calls.

/// The solver of a call is told first that the result is of the type that is expected, where one is,
/// and then what the call writes out.
pub proof fn solver_is_told_the_expected_result(item: FnItem, func: Rc<Expr>, expected: Rc<TileType>)
    ensures
        lookups::call_solver(item, func, None).callable == item.id,
        lookups::call_solver(item, func, None).impl_item is None,
        lookups::call_solver(item, func, None).steps@ == seq![Step::ProvidedByCall(func)],
        lookups::call_solver(item, func, Some(expected)).callable == item.id,
        lookups::call_solver(item, func, Some(expected)).impl_item is None,
        lookups::call_solver(item, func, Some(expected)).steps@ == seq![
            Step::Constraint { param: item.return_type, arg: expected.rust_ty },
            Step::ProvidedByCall(func),
        ],
{
    let none = List::<Step>::Nil;
    let told = Step::Constraint { param: item.return_type, arg: list::held(&expected).rust_ty };
    assert(none@.len() == 0);
    list::pushed_item_is_last(none, told);
    list::pushed_item_is_last(none.pushed(told), Step::ProvidedByCall(func));
    list::pushed_item_is_last(none, Step::ProvidedByCall(func));
}

/// A call whose result does not compile gives what is expected of it, and the type of the result is
/// filed for it as it is written; a call whose result is not known gives what is expected.
pub proof fn result_that_does_not_compile_is_filed(
    f: Frame,
    limit: nat,
    s: StateView,
    item: FnItem,
    id: NodeId,
    call: Expr,
    func: Rc<Expr>,
    args: List<Expr>,
    types: List<TileType>,
    expected: Option<Rc<TileType>>,
    ty: Rc<Type>,
    params: List<NamedParam>,
    none: Result<Option<Rc<TileType>>, env::JitError>,
)
    requires
        call.id == Some(id),
        none is Err || none == Ok::<Option<Rc<TileType>>, env::JitError>(None),
    ensures
        selection::call_output(f, limit, item, func, args, types) == Ok::<Option<Rc<Type>>, Stop>(
            Some(ty),
        ) && selection::result_params(f, item, args, types, expected) == Ok::<
            List<NamedParam>,
            Stop,
        >(params) && ask::compiled_under(f.env, *ty, params) == Ok::<
            Result<Option<Rc<TileType>>, env::JitError>,
            Stop,
        >(none) ==> (selection::function_return(
            f,
            limit,
            s,
            item,
            call,
            func,
            args,
            types,
            expected,
        ) matches Ok((end, given)) && given == expected && results::filed(
            end.results.resolved,
            Some(id),
        ) == Some(Rc::new(resolved::resolved(*f.env.names, *ty))) && end.inference == s.inference),
        selection::call_output(f, limit, item, func, args, types) == Ok::<Option<Rc<Type>>, Stop>(
            None,
        ) ==> selection::function_return(
            f,
            limit,
            s,
            item,
            call,
            func,
            args,
            types,
            expected,
        ) == compounds::read(s, expected),
{
}

/// What a method gives is filed for its call as it is written where it cannot be resolved or does not
/// compile.
pub proof fn result_of_a_method_is_filed(
    f: Frame,
    limit: nat,
    s: StateView,
    item: ImplItem,
    method: FnItem,
    id: NodeId,
    call: Expr,
    turbofish: Option<List<GenericArg>>,
    args: List<Type>,
    ty: Rc<Type>,
)
    requires
        call.id == Some(id),
        !types::any_mentions_impl(method.param_types),
        !types::mentions_impl(*method.return_type),
        ({
            let solver = ask::method_solver(item.id, method.id).after(Step::Arguments(args)).after(
                Step::ProvidedByMethodCall(turbofish),
            );
            &&& ask::verified(f.env, solver) == Ok::<bool, Stop>(true)
            &&& ask::instantiated(f.env, solver, *method.return_type) == Ok::<Rc<Type>, Stop>(ty)
        }),
        resolvable::resolvable(f.env, limit, *ty) == Ok::<bool, Stop>(false) || (
        resolvable::resolvable(f.env, limit, *ty) == Ok::<bool, Stop>(true)
            && ask::compiled_if_any(f.env, *ty) == Ok::<Option<Rc<TileType>>, Stop>(None)),
    ensures
        selection::method_return(f, limit, s, item, method, call, turbofish, args) matches Ok(
            (end, given),
        ) && given is None && results::filed(end.results.resolved, Some(id)) == Some(
            Rc::new(resolved::resolved(*f.env.names, *ty)),
        ) && end.inference == s.inference,
{
}

/// The type of an expression as written is that of its compiled type; else the one that is filed for
/// it; else that of what is in its parentheses, or a reference to that of its referent.
pub proof fn written_type_is_the_best_known(
    f: Frame,
    limit: nat,
    s: StateView,
    mid: StateView,
    end: StateView,
    expr: Expr,
    expected: Option<Rc<TileType>>,
    tile: Rc<TileType>,
    ty: Type,
    inner: Rc<Expr>,
    mutable: bool,
    own: Rc<Type>,
)
    ensures
        walk::expr_type(f, limit, s, expr, expected) == compounds::read(mid, Some(tile))
            ==> walk::written_type(f, limit, s, expr, expected) == Ok::<
            (StateView, Option<Rc<Type>>),
            Stop,
        >((mid, Some(tile.rust_ty))),
        walk::expr_type(f, limit, s, expr, expected) == compounds::read(mid, None)
            && results::surface_type(mid.results, expr.id) == Some(ty) ==> walk::written_type(
            f,
            limit,
            s,
            expr,
            expected,
        ) == Ok::<(StateView, Option<Rc<Type>>), Stop>((mid, Some(Rc::new(ty)))),
        walk::expr_type(f, limit, s, expr, expected) == compounds::read(mid, None)
            && results::surface_type(mid.results, expr.id) is None && expr.kind == ExprKind::Paren(
            inner,
        ) ==> walk::written_type(f, limit, s, expr, expected) == walk::written_type(
            f,
            limit,
            mid,
            *inner,
            None,
        ),
        walk::expr_type(f, limit, s, expr, expected) == compounds::read(mid, None)
            && results::surface_type(mid.results, expr.id) is None && expr.kind == (
        ExprKind::Reference { mutable, expr: inner }) && walk::written_type(
            f,
            limit,
            mid,
            *inner,
            None,
        ) == Ok::<(StateView, Option<Rc<Type>>), Stop>((end, Some(own))) ==> walk::written_type(
            f,
            limit,
            s,
            expr,
            expected,
        ) == Ok::<(StateView, Option<Rc<Type>>), Stop>(
            (end, Some(Rc::new(Type::Reference { lifetime: None, mutable, elem: own }))),
        ),
{
}

} // verus!

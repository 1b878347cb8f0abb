//! What calls are typed as: what is expected of their arguments, what the solver is told, and what
//! they give.
use crate::ask;
use crate::env::{
    self, Answer, Entry, Env, NamedParam, ParamBinding, Question, Resolution, Solver, Step, Stop,
    TileType,
};
use crate::exprs;
use crate::infer::compounds;
use crate::infer::forms;
use crate::infer::lookups;
use crate::infer::methods;
use crate::infer::selection;
use crate::infer::state::{self, Frame, StateView};
use crate::infer::walk;
use crate::list::{self, List};
use crate::names;
use crate::resolvable;
use crate::results;
use crate::scalar;
use crate::substitute;
use crate::syntax::{
    Expr, ExprKind, FnItem, GenericArg, ImplItem, NodeId, Path, Symbol, Type,
};
use crate::types;
use std::rc::Rc;
use vstd::prelude::*;

verus! {

// Questions.

/// The answer to a question is that of the first entry for it.
pub proof fn first_answer_counts(book: List<Entry>, at: int)
    requires
        0 <= at < book@.len(),
        forall|i: int| 0 <= i < at ==> (#[trigger] book@[i]).question != book@[at].question,
    ensures
        env::answer_to(book, book@[at].question) == Some(book@[at].answer),
    decreases book,
{
    if let List::Cons(first, rest) = book {
        assert(book@ == seq![list::held(&first)] + rest@);
        assert(book@[0] == list::held(&first));
        if at > 0 {
            assert(book@[at] == rest@[at - 1]);
            assert forall|i: int| 0 <= i < at - 1 implies (#[trigger] rest@[i]).question != rest@[at
                - 1].question by {
                assert(book@[i + 1] == rest@[i]);
            }
            first_answer_counts(list::held(&rest), at - 1);
        }
    }
}

/// Whether a question stops inference.
pub open spec fn stops_at<T>(r: Result<T, Stop>, question: Question) -> bool {
    r == Err::<T, Stop>(Stop::Unanswered(question))
}

/// How a type compiles is what the book answers to the question how it compiles; without an answer,
/// that question is put. An error that the compiler reports fails inference, or means that there is
/// no type.
pub proof fn compiled_types_are_in_the_book(
    env: Env,
    ty: Type,
    params: List<NamedParam>,
    tile: Option<Rc<TileType>>,
    code: u64,
)
    ensures
        ({
            let plain = Question::Compile { ty: Rc::new(ty), params: List::Nil };
            let question = Question::Compile { ty: Rc::new(ty), params };
            &&& env::answer_to(env.book, question) is None ==> stops_at(
                ask::compiled_under(env, ty, params),
                question,
            )
            &&& env::answer_to(env.book, question) == Some(Answer::Compiled(tile))
                ==> (ask::compiled_under(env, ty, params) matches Ok(Ok(own)) && own == tile)
            &&& env::answer_to(env.book, plain) is None ==> stops_at(
                ask::compiled(env, ty),
                plain,
            ) && stops_at(ask::compiled_if_any(env, ty), plain)
            &&& env::answer_to(env.book, plain) == Some(Answer::Compiled(tile)) ==> ask::compiled(
                env,
                ty,
            ) == Ok::<Option<Rc<TileType>>, Stop>(tile) && ask::compiled_if_any(env, ty) == Ok::<
                Option<Rc<TileType>>,
                Stop,
            >(tile)
            &&& env::answer_to(env.book, plain) == Some(Answer::CompileFailed(code))
                ==> ask::compiled(env, ty) == Err::<Option<Rc<TileType>>, Stop>(
                Stop::Failed(env::JitError::Reported(code)),
            ) && ask::compiled_if_any(env, ty) == Ok::<Option<Rc<TileType>>, Stop>(None)
        }),
{
}

/// Every other question is put as it is meant, and its answer is handed on.
pub proof fn answers_are_handed_on(
    env: Env,
    ty: Rc<Type>,
    path: Path,
    name: Symbol,
    solver: Solver,
    call: Rc<Expr>,
    id: u64,
    other: Rc<Type>,
    target: Resolution,
    bindings: List<ParamBinding>,
    truth: bool,
    tile: Option<Rc<TileType>>,
)
    ensures
        env::answer_to(env.book, Question::Resolve(path)) == Some(Answer::Resolved(target))
            ==> ask::resolution(env, path) == Ok::<Resolution, Stop>(target),
        env::answer_to(env.book, Question::Resolve(path)) is None ==> stops_at(
            ask::resolution(env, path),
            Question::Resolve(path),
        ),
        env::answer_to(env.book, Question::Normalize(ty)) == Some(Answer::Normalized(other))
            ==> (ask::normalized(env, *ty) matches Ok(Ok(own)) && own == other),
        env::answer_to(env.book, Question::Normalize(ty)) is None ==> stops_at(
            ask::normalized(env, *ty),
            Question::Normalize(ty),
        ),
        env::answer_to(env.book, Question::ScalarTile(name)) == Some(Answer::Compiled(tile))
            ==> ask::scalar_tile(env, name) == Ok::<Option<Rc<TileType>>, Stop>(tile),
        env::answer_to(env.book, Question::Bindings(solver)) == Some(Answer::Bindings(bindings))
            ==> ask::bindings(env, solver) == Ok::<List<ParamBinding>, Stop>(bindings),
        env::answer_to(env.book, Question::Verified(solver)) == Some(Answer::Verified(truth))
            ==> ask::verified(env, solver) == Ok::<bool, Stop>(truth),
        env::answer_to(env.book, Question::Instantiate { solver, ty }) == Some(
            Answer::Instantiated(other),
        ) ==> ask::instantiated(env, solver, *ty) == Ok::<Rc<Type>, Stop>(other),
        env::answer_to(env.book, Question::Unwrapped { function: id, call }) == Some(
            Answer::Unwrapped(None),
        ) ==> ask::unwrapped(env, id, *call) == Ok::<Option<Rc<Expr>>, Stop>(None),
        env::answer_to(env.book, Question::Unwrapped { function: id, call }) is None ==> stops_at(
            ask::unwrapped(env, id, *call),
            Question::Unwrapped { function: id, call },
        ),
{
}

// Arguments.

/// A call's arguments are of the types that they are found to be, in their order. Of each the type is
/// expected that its parameter lets expect, in its place.
pub proof fn arguments_are_read_against_their_parameters(
    f: Frame,
    limit: nat,
    states: Seq<StateView>,
    args: List<Expr>,
    params: List<Type>,
    wanted: List<Option<Rc<TileType>>>,
    tiles: Seq<Rc<TileType>>,
)
    requires
        wanted@.len() == args@.len(),
        tiles.len() == args@.len(),
        states.len() == args@.len() + 1,
        forall|i: int| 0 <= i < args@.len() ==> (#[trigger] wanted@[i]) is Some,
        forall|i: int|
            0 <= i < args@.len() ==> walk::expr_type(
                f,
                limit,
                states[i],
                #[trigger] args@[i],
                wanted@[i],
            ) == compounds::read(states[i + 1], Some(tiles[i])),
    ensures
        walk::args_against_params(f, limit, states[0], args, params, wanted) matches Ok(
            (after, found),
        ) && after == states.last() && found@.len() == args@.len() && forall|i: int|
            0 <= i < args@.len() ==> #[trigger] found@[i] == *tiles[i],
    decreases args,
{
    if let List::Cons(arg, rest) = args {
        let more = list::held(&wanted->Cons_1);
        assert(args@ == seq![list::held(&arg)] + rest@);
        assert(args@[0] == list::held(&arg));
        assert(wanted@ == seq![list::held(&wanted->Cons_0)] + more@);
        assert(wanted@[0] == list::held(&wanted->Cons_0));
        let later = states.skip(1);
        let behind = tiles.skip(1);
        assert forall|i: int| 0 <= i < rest@.len() implies (#[trigger] more@[i]) is Some by {
            assert(wanted@[i + 1] == more@[i]);
        }
        assert forall|i: int| 0 <= i < rest@.len() implies walk::expr_type(
            f,
            limit,
            later[i],
            #[trigger] rest@[i],
            more@[i],
        ) == compounds::read(later[i + 1], Some(behind[i])) by {
            assert(args@[i + 1] == rest@[i]);
            assert(wanted@[i + 1] == more@[i]);
        }
        arguments_are_read_against_their_parameters(
            f,
            limit,
            later,
            list::held(&rest),
            lookups::behind_first(params),
            more,
            behind,
        );
        assert(later.last() == states.last());
        let tail = walk::args_against_params(
            f,
            limit,
            later[0],
            list::held(&rest),
            lookups::behind_first(params),
            more,
        )->Ok_0.1;
        if tail is Nil {
            assert(tail@.len() == 0);
            assert(list::held(&rest) is Nil);
        }
        let found = List::Cons(tiles[0], Rc::new(tail));
        assert(walk::args_against_params(f, limit, states[0], args, params, wanted) == Ok::<
            (StateView, List<TileType>),
            Stop,
        >((states.last(), found)));
        assert(found@ == seq![list::held(&tiles[0])] + tail@);
        assert forall|i: int| 0 <= i < args@.len() implies #[trigger] found@[i] == *tiles[i] by {
            if i > 0 {
                assert(found@[i] == tail@[i - 1]);
            }
        }
    }
}

/// Whether a type lets expect what it compiles to.
pub open spec fn is_expected(f: Frame, limit: nat, ty: Rc<Type>, tile: Rc<TileType>) -> bool {
    lookups::expected_param(f, limit, *ty) == Ok::<Option<Rc<TileType>>, Stop>(Some(tile))
}

/// What is expected of arguments is in the order of the parameters: each parameter's type with its
/// generic names replaced, where that is known, or else the parameter's own type.
pub proof fn expectations_are_in_order(
    f: Frame,
    limit: nat,
    bindings: List<ParamBinding>,
    params: List<Type>,
    i: int,
)
    requires
        lookups::expected_args(f, limit, bindings, params) is Ok,
        0 <= i < params@.len(),
    ensures
        ({
            let wanted = lookups::expected_args(f, limit, bindings, params)->Ok_0;
            let own = substitute::substituted(bindings, params@[i]);
            &&& wanted@.len() == params@.len()
            &&& forall|ty: Rc<Type>, tile: Rc<TileType>|
                own == Some(ty) && #[trigger] is_expected(f, limit, ty, tile) ==> wanted@[i]
                    == Some(tile)
            &&& own is None ==> lookups::expected_param(f, limit, params@[i]) == Ok::<
                Option<Rc<TileType>>,
                Stop,
            >(wanted@[i])
        }),
    decreases params,
{
    if let List::Cons(param, rest) = params {
        assert(params@ == seq![list::held(&param)] + rest@);
        assert(params@[0] == list::held(&param));
        let wanted = lookups::expected_args(f, limit, bindings, params)->Ok_0;
        let tail = lookups::expected_args(f, limit, bindings, list::held(&rest))->Ok_0;
        let first = lookups::expected_arg(f, limit, bindings, list::held(&param))->Ok_0;
        assert(wanted@ == seq![first] + tail@);
        expectations_are_as_many(f, limit, bindings, list::held(&rest));
        if i > 0 {
            assert(params@[i] == rest@[i - 1]);
            assert(wanted@[i] == tail@[i - 1]);
            expectations_are_in_order(f, limit, bindings, list::held(&rest), i - 1);
        } else {
            assert(wanted@[0] == first);
            let own = substitute::substituted(bindings, params@[i]);
            assert(lookups::expected_arg(f, limit, bindings, params@[i]) == Ok::<
                Option<Rc<TileType>>,
                Stop,
            >(wanted@[i]));
            if let Some(ty) = own {
                if let Ok(Some(tile)) = lookups::expected_param(f, limit, list::held(&ty)) {
                    assert(wanted@[i] == Some(tile));
                }
            }
        }
    }
}

proof fn expectations_are_as_many(
    f: Frame,
    limit: nat,
    bindings: List<ParamBinding>,
    params: List<Type>,
)
    requires
        lookups::expected_args(f, limit, bindings, params) is Ok,
    ensures
        lookups::expected_args(f, limit, bindings, params)->Ok_0@.len() == params@.len(),
    decreases params,
{
    if let List::Cons(param, rest) = params {
        assert(params@ == seq![list::held(&param)] + rest@);
        expectations_are_as_many(f, limit, bindings, list::held(&rest));
    }
}

/// A type that is expected of an argument is one that mentions no `impl`, is known in full and can
/// be resolved; and it is what that type compiles to.
pub proof fn expected_types_are_known(f: Frame, limit: nat, ty: Type, tile: Rc<TileType>)
    ensures
        lookups::expected_param(f, limit, ty) == Ok::<Option<Rc<TileType>>, Stop>(Some(tile)) <==> {
            &&& !types::mentions_impl(ty)
            &&& resolvable::fully_known(f.env, limit, ty) == Ok::<bool, Stop>(true)
            &&& resolvable::resolvable(f.env, limit, ty) == Ok::<bool, Stop>(true)
            &&& ask::compiled_if_any(f.env, ty) == Ok::<Option<Rc<TileType>>, Stop>(Some(tile))
        },
{
}

// Functions.

/// The solver that a call of a function is decided by: it is told the types of all arguments in their
/// order, and then what is written at the call.
pub open spec fn solver_of_call(item: FnItem, types: List<Type>, func: Rc<Expr>) -> Solver {
    Solver {
        impl_item: None,
        callable: item.id,
        steps: List::Cons(
            Rc::new(Step::Arguments(types)),
            Rc::new(List::Cons(Rc::new(Step::ProvidedByCall(func)), Rc::new(List::Nil))),
        ),
    }
}

/// A call of a function gives what the function's declared result compiles to, with the generic names
/// in it replaced as the solver replaces them who was told the types of the arguments.
pub proof fn call_gives_the_declared_result(
    f: Frame,
    limit: nat,
    s: StateView,
    item: FnItem,
    call: Expr,
    func: Rc<Expr>,
    args: List<Expr>,
    tiles: List<TileType>,
    own: List<Type>,
    ty: Rc<Type>,
    params: List<NamedParam>,
    tile: Rc<TileType>,
    expected: Option<Rc<TileType>>,
)
    requires
        tiles@.len() == args@.len(),
        own@.len() == tiles@.len(),
        forall|i: int| 0 <= i < tiles@.len() ==> #[trigger] own@[i] == *tiles@[i].rust_ty,
        !types::any_mentions_impl(item.param_types),
        !types::mentions_impl(*item.return_type),
        env::answer_to(f.env.book, Question::Verified(solver_of_call(item, own, func))) == Some(
            Answer::Verified(true),
        ),
        env::answer_to(
            f.env.book,
            Question::Instantiate {
                solver: solver_of_call(item, own, func),
                ty: item.return_type,
            },
        ) == Some(Answer::Instantiated(ty)),
        resolvable::resolvable(f.env, limit, *ty) == Ok::<bool, Stop>(true),
        selection::result_params(f, item, args, tiles, expected) == Ok::<List<NamedParam>, Stop>(
            params,
        ),
        env::answer_to(f.env.book, Question::Compile { ty, params }) == Some(
            Answer::Compiled(Some(tile)),
        ),
    ensures
        selection::function_return(f, limit, s, item, call, func, args, tiles, expected)
            == compounds::read(s, Some(tile)),
{
    written_types_are_in_order(tiles);
    let types = selection::written_types(tiles);
    assert(types@ =~= own@);
    list::lists_are_their_items(types, own);
    if tiles is Nil {
        assert(args@.len() == 0);
        assert(args is Nil);
    }
    let solver = ask::function_solver(item.id).after(Step::Arguments(types)).after(
        Step::ProvidedByCall(func),
    );
    reveal_with_fuel(List::pushed, 3);
    assert(solver == solver_of_call(item, own, func));
}

/// Compiled types as they are written are in their order.
pub proof fn written_types_are_in_order(tiles: List<TileType>)
    ensures
        selection::written_types(tiles)@.len() == tiles@.len(),
        forall|i: int|
            0 <= i < tiles@.len() ==> #[trigger] selection::written_types(tiles)@[i]
                == *tiles@[i].rust_ty,
    decreases tiles,
{
    if let List::Cons(tile, rest) = tiles {
        written_types_are_in_order(list::held(&rest));
        let tail = selection::written_types(list::held(&rest));
        assert(tiles@ == seq![list::held(&tile)] + rest@);
        assert(selection::written_types(tiles)@ == seq![list::held(&tile.rust_ty)] + tail@);
        assert forall|i: int| 0 <= i < tiles@.len() implies #[trigger] selection::written_types(
            tiles,
        )@[i] == *tiles@[i].rust_ty by {
            if i > 0 {
                assert(selection::written_types(tiles)@[i] == tail@[i - 1]);
                assert(tiles@[i] == rest@[i - 1]);
            }
        }
    }
}

/// A call of which the result is not known gives what is expected of it.
pub proof fn unknown_result_is_what_is_expected(
    f: Frame,
    limit: nat,
    s: StateView,
    item: FnItem,
    call: Expr,
    func: Rc<Expr>,
    args: List<Expr>,
    tiles: List<TileType>,
    expected: Option<Rc<TileType>>,
)
    requires
        tiles@.len() == 0 && args@.len() > 0 || types::mentions_impl(*item.return_type),
    ensures
        selection::function_return(f, limit, s, item, call, func, args, tiles, expected)
            == compounds::read(s, expected),
{
    if tiles@.len() == 0 {
        if let List::Cons(tile, rest) = tiles {
            assert(tiles@ == seq![list::held(&tile)] + rest@);
        }
    }
}

/// A function is called that has the name at the end of the path: its closures are read, then its
/// arguments, and what it gives is decided by these, unless it stands for a method.
pub proof fn named_function_is_called(
    f: Frame,
    limit: nat,
    s: StateView,
    one: StateView,
    two: StateView,
    after: StateView,
    id: Option<NodeId>,
    target: Option<NodeId>,
    path: Path,
    args: List<Expr>,
    at: int,
    types: List<TileType>,
    expected: Option<Rc<TileType>>,
    tile: Option<Rc<TileType>>,
)
    requires
        path.segments@.len() > 0,
        !exprs::names_dim_new(path),
        path.segments@.last().ident != names::WITH_VALUE,
        0 <= at < f.env.functions@.len(),
        f.env.functions@[at].name == path.segments@.last().ident,
        forall|i: int|
            0 <= i < at ==> (#[trigger] f.env.functions@[i]).name != path.segments@.last().ident,
        ({
            let item = f.env.functions@[at];
            let func = Rc::new(Expr { id: target, kind: ExprKind::Path { qself: None, path } });
            let call = Expr { id, kind: ExprKind::Call { func, args } };
            &&& walk::closure_args(f, limit, s, item, func, args, expected) == Ok::<
                (StateView, ()),
                Stop,
            >((one, ()))
            &&& walk::call_arg_types(f, limit, one, item, func, args, expected) == Ok::<
                (StateView, List<TileType>),
                Stop,
            >((two, types))
            &&& ask::unwrapped(f.env, item.id, call) == Ok::<Option<Rc<Expr>>, Stop>(None)
            &&& selection::function_return(
                f,
                limit,
                two,
                item,
                call,
                func,
                args,
                types,
                expected,
            ) == compounds::read(after, tile)
        }),
    ensures
        compounds::is_of_after(
            walk::expr_type(
                f,
                limit + 1,
                s,
                Expr {
                    id,
                    kind: ExprKind::Call {
                        func: Rc::new(
                            Expr { id: target, kind: ExprKind::Path { qself: None, path } },
                        ),
                        args,
                    },
                },
                expected,
            ),
            id,
            after,
            tile,
        ),
{
    let item = f.env.functions@[at];
    let func = Rc::new(Expr { id: target, kind: ExprKind::Path { qself: None, path } });
    let call = Expr { id, kind: ExprKind::Call { func, args } };
    function_is_found(f.env.functions, at);
    assert(exprs::last_name(path) == Some(path.segments@.last().ident));
    assert(walk::dim_call(f, limit, s, path, args) == Ok::<
        (StateView, Option<Option<Rc<TileType>>>),
        Stop,
    >((s, None)));
    assert(walk::function_call(f, limit, s, item, call, func, args, expected) == compounds::read(
        after,
        tile,
    ));
    assert(walk::call_rule(f, limit, s, call, func, args, expected) == compounds::read(after, tile));
    assert(walk::expr_rule(f, limit, s, call, expected) == compounds::read(after, tile));
    assert(walk::expr_type(f, limit + 1, s, call, expected) is Ok);
}

/// A function is found under its name: the first of that name.
pub proof fn function_is_found(functions: List<FnItem>, at: int)
    requires
        0 <= at < functions@.len(),
        forall|i: int| 0 <= i < at ==> (#[trigger] functions@[i]).name != functions@[at].name,
    ensures
        env::function_named(functions, functions@[at].name) == Some(functions@[at]),
    decreases functions,
{
    if let List::Cons(first, rest) = functions {
        assert(functions@ == seq![list::held(&first)] + rest@);
        assert(functions@[0] == list::held(&first));
        if at > 0 {
            assert(functions@[at] == rest@[at - 1]);
            assert forall|i: int| 0 <= i < at - 1 implies (#[trigger] rest@[i]).name != rest@[at
                - 1].name by {
                assert(functions@[i + 1] == rest@[i]);
            }
            function_is_found(list::held(&rest), at - 1);
        }
    }
}

/// The call of a function that is not known is of the type that is expected of it, and so is one
/// whose function is no path.
pub proof fn unknown_function_gives_what_is_expected(
    f: Frame,
    limit: nat,
    s: StateView,
    mid: StateView,
    id: Option<NodeId>,
    func: Rc<Expr>,
    args: List<Expr>,
    types: List<TileType>,
    expected: Option<Rc<TileType>>,
)
    requires
        func.kind matches ExprKind::Path { path, .. } ==> {
            &&& !exprs::names_dim_new(path)
            &&& exprs::last_name(path) matches Some(name) && name != names::WITH_VALUE
                && env::function_named(f.env.functions, name) is None
            &&& walk::arg_types(f, limit, s, args) == Ok::<(StateView, List<TileType>), Stop>(
                (mid, types),
            )
        },
        !(func.kind is Path) ==> mid == s,
    ensures
        compounds::is_of_after(
            walk::expr_type(
                f,
                limit + 1,
                s,
                Expr { id, kind: ExprKind::Call { func, args } },
                expected,
            ),
            id,
            mid,
            expected,
        ),
{
    let call = Expr { id, kind: ExprKind::Call { func, args } };
    if let ExprKind::Path { path, .. } = func.kind {
        assert(walk::dim_call(f, limit, s, path, args) == Ok::<
            (StateView, Option<Option<Rc<TileType>>>),
            Stop,
        >((s, None)));
        assert(walk::unknown_call(f, limit, s, args, expected) == compounds::read(mid, expected));
    }
    assert(walk::call_rule(f, limit, s, call, func, args, expected) == compounds::read(
        mid,
        expected,
    ));
    assert(walk::expr_rule(f, limit, s, call, expected) == compounds::read(mid, expected));
    assert(walk::expr_type(f, limit + 1, s, call, expected) is Ok);
}

/// `Dim::new` takes an `i32` and gives a `Dim`.
pub proof fn dim_is_made_of_an_integer(
    f: Frame,
    limit: nat,
    s: StateView,
    mid: StateView,
    id: Option<NodeId>,
    target: Option<NodeId>,
    path: Path,
    arg: Rc<Expr>,
    integer: Rc<TileType>,
    dim: Rc<TileType>,
    found: Option<Rc<TileType>>,
    expected: Option<Rc<TileType>>,
)
    requires
        path.segments@.len() == 2,
        path.segments@[0].ident == names::DIM,
        path.segments@[1].ident == names::NEW,
        forms::compiles_to(f, scalar::named_type(names::I32), integer),
        walk::expr_type(f, limit, s, *arg, Some(integer)) == compounds::read(mid, found),
        forms::compiles_to(f, scalar::named_type(names::DIM), dim),
    ensures
        compounds::is_of_after(
            walk::expr_type(
                f,
                limit + 1,
                s,
                Expr {
                    id,
                    kind: ExprKind::Call {
                        func: Rc::new(
                            Expr { id: target, kind: ExprKind::Path { qself: None, path } },
                        ),
                        args: List::Cons(arg, Rc::new(List::Nil)),
                    },
                },
                expected,
            ),
            id,
            mid,
            Some(dim),
        ),
{
    let args = List::Cons(arg, Rc::new(List::Nil));
    let func = Rc::new(Expr { id: target, kind: ExprKind::Path { qself: None, path } });
    let call = Expr { id, kind: ExprKind::Call { func, args } };
    assert(types::sole(args) == Some(list::held(&arg)));
    assert(walk::dim_call(f, limit, s, path, args) == Ok::<
        (StateView, Option<Option<Rc<TileType>>>),
        Stop,
    >((mid, Some(Some(dim)))));
    assert(walk::call_rule(f, limit, s, call, func, args, expected) == compounds::read(
        mid,
        Some(dim),
    ));
    assert(walk::expr_rule(f, limit, s, call, expected) == compounds::read(mid, Some(dim)));
    assert(walk::expr_type(f, limit + 1, s, call, expected) is Ok);
}

// Methods.

/// A method is looked for by the receiver's type and the types of the arguments behind it, in their
/// order.
pub proof fn method_is_looked_for_with_its_arguments(
    f: Frame,
    limit: nat,
    states: Seq<StateView>,
    call: Expr,
    method: Symbol,
    turbofish: Option<List<GenericArg>>,
    args: List<Expr>,
    receiver: Rc<Type>,
    found: Seq<Rc<Type>>,
    all: List<Type>,
)
    requires
        lookups::method_expected_args(f, *receiver, method) == Ok::<Option<List<Type>>, Stop>(
            None,
        ),
        states.len() == args@.len() + 1,
        found.len() == args@.len(),
        forall|i: int|
            0 <= i < args@.len() ==> walk::written_type(
                f,
                limit,
                states[i],
                #[trigger] args@[i],
                None,
            ) == Ok::<(StateView, Option<Rc<Type>>), Stop>((states[i + 1], Some(found[i]))),
        all@.len() == args@.len() + 1,
        all@[0] == *receiver,
        forall|i: int| 0 <= i < args@.len() ==> #[trigger] all@[i + 1] == *found[i],
    ensures
        walk::method_probe(
            f,
            limit,
            states[0],
            call,
            method,
            turbofish,
            args,
            receiver,
        ) == selection::selected_method(f, limit, states.last(), call, turbofish, all),
{
    let first = List::Cons(receiver, Rc::new(List::Nil));
    method_arguments_are_read(f, limit, states, args, found, first);
    let types = walk::method_args(f, limit, states[0], args, List::Nil, first)->Ok_0.1->0;
    reveal_with_fuel(List::items, 3);
    assert(first@ =~= seq![list::held(&receiver)]);
    assert(types@ =~= all@) by {
        assert forall|i: int| 0 <= i < types@.len() implies types@[i] == all@[i] by {
            if i > 0 {
                assert(all@[(i - 1) + 1] == *found[i - 1]);
            }
        }
    }
    list::lists_are_their_items(types, all);
}

proof fn method_arguments_are_read(
    f: Frame,
    limit: nat,
    states: Seq<StateView>,
    args: List<Expr>,
    found: Seq<Rc<Type>>,
    before: List<Type>,
)
    requires
        states.len() == args@.len() + 1,
        found.len() == args@.len(),
        forall|i: int|
            0 <= i < args@.len() ==> walk::written_type(
                f,
                limit,
                states[i],
                #[trigger] args@[i],
                None,
            ) == Ok::<(StateView, Option<Rc<Type>>), Stop>((states[i + 1], Some(found[i]))),
    ensures
        walk::method_args(f, limit, states[0], args, List::Nil, before) matches Ok(
            (after, Some(types)),
        ) && after == states.last() && types@ == before@ + Seq::new(
            found.len(),
            |i: int| *found[i],
        ),
    decreases args,
{
    if let List::Cons(arg, rest) = args {
        assert(args@ == seq![list::held(&arg)] + rest@);
        assert(args@[0] == list::held(&arg));
        let later = states.skip(1);
        let more = found.skip(1);
        assert forall|i: int| 0 <= i < rest@.len() implies walk::written_type(
            f,
            limit,
            later[i],
            #[trigger] rest@[i],
            None,
        ) == Ok::<(StateView, Option<Rc<Type>>), Stop>((later[i + 1], Some(more[i]))) by {
            assert(args@[i + 1] == rest@[i]);
        }
        let ty = list::held(&found[0]);
        list::pushed_item_is_last(before, ty);
        method_arguments_are_read(f, limit, later, list::held(&rest), more, before.pushed(ty));
        assert(later.last() == states.last());
        assert(before@.push(ty) + Seq::new(more.len(), |i: int| *more[i]) =~= before@ + Seq::new(
            found.len(),
            |i: int| *found[i],
        ));
    } else {
        assert(before@ + Seq::new(found.len(), |i: int| *found[i]) =~= before@);
    }
}

/// What a method gives is what its declared result compiles to, with the generic names in it replaced
/// as the solver replaces them who was told the types of all arguments and what is written at the
/// call.
pub proof fn method_gives_the_declared_result(
    f: Frame,
    limit: nat,
    s: StateView,
    item: ImplItem,
    method: FnItem,
    call: Expr,
    turbofish: Option<List<GenericArg>>,
    args: List<Type>,
    ty: Rc<Type>,
    tile: Rc<TileType>,
)
    requires
        !types::any_mentions_impl(method.param_types),
        !types::mentions_impl(*method.return_type),
        ({
            let solver = Solver {
                impl_item: Some(item.id),
                callable: method.id,
                steps: List::Cons(
                    Rc::new(Step::Arguments(args)),
                    Rc::new(
                        List::Cons(
                            Rc::new(Step::ProvidedByMethodCall(turbofish)),
                            Rc::new(List::Nil),
                        ),
                    ),
                ),
            };
            &&& env::answer_to(f.env.book, Question::Verified(solver)) == Some(
                Answer::Verified(true),
            )
            &&& env::answer_to(
                f.env.book,
                Question::Instantiate { solver, ty: method.return_type },
            ) == Some(Answer::Instantiated(ty))
        }),
        resolvable::resolvable(f.env, limit, *ty) == Ok::<bool, Stop>(true),
        env::answer_to(f.env.book, Question::Compile { ty, params: List::Nil }) == Some(
            Answer::Compiled(Some(tile)),
        ),
    ensures
        selection::method_return(f, limit, s, item, method, call, turbofish, args)
            == compounds::read(s, Some(tile)),
{
    reveal_with_fuel(List::pushed, 3);
}

/// The inherent methods of a name are those that blocks have under it, in the order of the blocks.
pub proof fn inherent_methods_are_all_of_the_name(impls: List<ImplItem>, name: Symbol, k: int)
    requires
        0 <= k < lookups::methods_named(impls, name)@.len(),
    ensures
        lookups::methods_named(impls, name)@[k].method.name == name,
    decreases impls,
{
    if let List::Cons(item, rest) = impls {
        let more = lookups::methods_named(list::held(&rest), name);
        methods_of_a_block_have_the_name(item, list::held(&item).methods, name, more, k);
        let n = lookups::methods_named(impls, name)@.len() - more@.len();
        if k >= n {
            inherent_methods_are_all_of_the_name(list::held(&rest), name, k - n);
        }
    }
}

proof fn methods_of_a_block_have_the_name(
    item: Rc<ImplItem>,
    methods: List<FnItem>,
    name: Symbol,
    more: List<lookups::FoundMethod>,
    k: int,
)
    ensures
        ({
            let found = lookups::methods_in(item, methods, name, more)@;
            let n = found.len() - more@.len();
            &&& n >= 0
            &&& 0 <= k < n ==> found[k].method.name == name && found[k].impl_item == item
            &&& n <= k < found.len() ==> found[k] == more@[k - n]
        }),
    decreases methods,
{
    if let List::Cons(method, rest) = methods {
        let later = lookups::methods_in(item, list::held(&rest), name, more);
        if method.name == name {
            let found = lookups::methods_in(item, methods, name, more);
            assert(found@ == seq![lookups::FoundMethod { impl_item: item, method }] + later@);
            methods_of_a_block_have_the_name(item, list::held(&rest), name, more, k - 1);
            if k > 0 && k < found@.len() {
                assert(found@[k] == later@[k - 1]);
            }
        } else {
            methods_of_a_block_have_the_name(item, list::held(&rest), name, more, k);
        }
    }
}

// Statics in global memory.

/// What the methods of a static in global memory give: `load` and `atomic_add` a tile of its element
/// and shape with a token, `store` a token. Of the first argument of `store` and of `atomic_add` that
/// tile is expected.
pub proof fn global_methods_give_tiles_and_tokens(tile: Rc<Type>)
    ensures
        walk::global_result(names::LOAD, tile) matches Some((Type::Tuple(items), takes))
            && items@.len() == 2 && items@[0] == *tile && items@[1] == scalar::named_type(
            names::TOKEN,
        ) && !takes,
        walk::global_result(names::ATOMIC_ADD, tile) matches Some((Type::Tuple(items), takes))
            && items@.len() == 2 && items@[0] == *tile && items@[1] == scalar::named_type(
            names::TOKEN,
        ) && takes,
        walk::global_result(names::STORE, tile) == Some((scalar::named_type(names::TOKEN), true)),
        forall|other: Symbol|
            other != names::LOAD && other != names::ATOMIC_ADD && other != names::STORE ==> (
            #[trigger] walk::global_result(other, tile)) is None,
{
    reveal_with_fuel(List::items, 3);
    let token = Rc::new(scalar::named_type(names::TOKEN));
    let items = List::Cons(tile, Rc::new(List::Cons(token, Rc::new(List::Nil))));
    assert(items@ =~= seq![list::held(&tile), list::held(&token)]);
}

/// A method of a static in global memory is typed by the static's element and shape, and that type is
/// filed for the call.
pub proof fn global_call_is_typed_by_the_static(
    f: Frame,
    limit: nat,
    s: StateView,
    mid: StateView,
    id: Option<NodeId>,
    receiver: Rc<Expr>,
    method: Symbol,
    turbofish: Option<List<GenericArg>>,
    args: List<Expr>,
    element: Rc<Type>,
    shape: List<i32>,
    ty: Type,
    takes: bool,
    tile: Rc<TileType>,
    expected: Option<Rc<TileType>>,
)
    requires
        lookups::global_static(f, *receiver) == Ok::<Option<(Rc<Type>, List<i32>)>, Stop>(
            Some((element, shape)),
        ),
        walk::global_result(method, Rc::new(types::tile_of(*element, shape))) == Some((ty, takes)),
        walk::global_args(
            f,
            limit,
            s,
            args,
            if takes {
                Some(Rc::new(types::tile_of(*element, shape)))
            } else {
                None
            },
        ) == Ok::<(StateView, ()), Stop>((mid, ())),
        forms::compiles_to(f, ty, tile),
    ensures
        forms::is_of(
            walk::expr_type(
                f,
                limit + 1,
                s,
                Expr {
                    id,
                    kind: ExprKind::MethodCall { receiver, method, turbofish, args },
                },
                expected,
            ),
            tile,
        ),
{
    let call = Expr { id, kind: ExprKind::MethodCall { receiver, method, turbofish, args } };
    let end = state::filed_as(f, mid, id, ty);
    assert(walk::global_call(f, limit, s, call) == compounds::read(end, Some(tile)));
    assert(walk::method_call_rule(f, limit, s, call, expected) == compounds::read(
        end,
        Some(tile),
    ));
    assert(walk::expr_rule(f, limit, s, call, expected) == compounds::read(end, Some(tile)));
    assert(walk::expr_type(f, limit + 1, s, call, expected) is Ok);
}

// Paths.

/// A path of one name that no local has is the constant that it resolves to, or else the static.
pub proof fn path_is_a_constant_or_a_static(
    f: Frame,
    limit: nat,
    s: StateView,
    id: Option<NodeId>,
    path: Path,
    name: Symbol,
    ty: Rc<Type>,
    tile: Rc<TileType>,
    expected: Option<Rc<TileType>>,
)
    requires
        exprs::single_name(path) == Some(name),
        name != names::NO_VALUE,
        !s.local_terms.contains_key(name),
        env::answer_to(f.env.book, Question::Resolve(path)) == Some(
            Answer::Resolved(Resolution::Const(ty)),
        ) || env::answer_to(f.env.book, Question::Resolve(path)) == Some(
            Answer::Resolved(Resolution::Static(ty)),
        ),
        forms::compiles_to(f, *ty, tile),
    ensures
        compounds::is_of_after(
            walk::expr_type(
                f,
                limit + 1,
                s,
                Expr { id, kind: ExprKind::Path { qself: None, path } },
                expected,
            ),
            id,
            s,
            Some(tile),
        ),
{
    let expr = Expr { id, kind: ExprKind::Path { qself: None, path } };
    assert(walk::path_rule(f, s, expr, None, path, expected) == compounds::read(s, Some(tile)));
    assert(walk::expr_rule(f, limit, s, expr, expected) == compounds::read(s, Some(tile)));
}

/// `None` with its type written is of that `Option`; else it is of the `Option` that is expected.
pub proof fn none_is_the_expected_option(
    f: Frame,
    limit: nat,
    s: StateView,
    id: Option<NodeId>,
    path: Path,
    option: Rc<TileType>,
    held: Type,
)
    requires
        exprs::single_name(path) == Some(names::NO_VALUE),
        types::explicit_none(true, path) is None,
        types::option_payload(*option.rust_ty) == Some(held),
    ensures
        compounds::is_of_after(
            walk::expr_type(
                f,
                limit + 1,
                s,
                Expr { id, kind: ExprKind::Path { qself: None, path } },
                Some(option),
            ),
            id,
            s,
            Some(option),
        ),
{
    let expr = Expr { id, kind: ExprKind::Path { qself: None, path } };
    assert(walk::path_rule(f, s, expr, None, path, Some(option)) == compounds::read(
        s,
        Some(option),
    ));
    assert(walk::expr_rule(f, limit, s, expr, Some(option)) == compounds::read(s, Some(option)));
}

// Types as written.

/// The type of an expression as it is written is that of its compiled type; a name without one has
/// the type that it was written with, and a reference to it a reference to that.
pub proof fn written_type_is_of_the_compiled_or_the_name(
    f: Frame,
    limit: nat,
    s: StateView,
    mid: StateView,
    expr: Expr,
    tile: Rc<TileType>,
    path: Path,
    name: Symbol,
    ty: Rc<Type>,
    expected: Option<Rc<TileType>>,
)
    ensures
        walk::expr_type(f, limit, s, expr, expected) == compounds::read(mid, Some(tile))
            ==> walk::written_type(f, limit, s, expr, expected) == Ok::<
            (StateView, Option<Rc<Type>>),
            Stop,
        >((mid, Some(tile.rust_ty))),
        walk::expr_type(f, limit, s, expr, expected) == compounds::read(mid, None)
            && results::surface_type(mid.results, expr.id) is None && (
        expr.kind matches ExprKind::Path { path: own, .. } && own == path) && exprs::single_name(
            path,
        ) == Some(name) && mid.syn_vars.contains_key(name) && mid.syn_vars[name] == ty
            ==> walk::written_type(f, limit, s, expr, expected) == Ok::<
            (StateView, Option<Rc<Type>>),
            Stop,
        >((mid, Some(ty))),
{
}

} // verus!

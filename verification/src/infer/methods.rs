//! Which method a call means, and what it gives.
use crate::env::{self, Answer, MethodItem, Question, Stop, TileType};
use crate::infer::lookups;
use crate::infer::selection;
use crate::infer::state::{Frame, Outcome, StateView};
use crate::infer::walk;
use crate::list::{self, List};
use crate::receiver;
use crate::results::{self, MethodSelection};
use crate::syntax::{Expr, ExprKind, GenericArg, Symbol, Type};
use std::rc::Rc;
use vstd::prelude::*;

verus! {

/// The types under which a receiver of a type is tried.
pub open spec fn candidates_for(
    f: Frame,
    s: StateView,
    receiver: Rc<Expr>,
    ty: Rc<Type>,
) -> List<Type> {
    receiver::candidates(*f.env.names, *ty, lookups::borrows_mutably(s, *receiver, *ty))
}

/// What a receiver of a type gives.
pub open spec fn probe(
    f: Frame,
    limit: nat,
    s: StateView,
    call: Expr,
    receiver: Type,
) -> Outcome<Option<Rc<MethodSelection>>> {
    match call.kind {
        ExprKind::MethodCall { receiver: _, method, turbofish, args } => walk::method_probe(
            f,
            limit,
            s,
            call,
            method,
            turbofish,
            args,
            Rc::new(receiver),
        ),
        _ => Ok((s, None)),
    }
}

/// Whether no method was found.
pub open spec fn gives_none(probed: Outcome<Option<Rc<MethodSelection>>>) -> bool {
    probed matches Ok((_, found)) && found is None
}

proof fn tried_in_turn(
    f: Frame,
    limit: nat,
    s: StateView,
    call: Expr,
    method: Symbol,
    turbofish: Option<List<GenericArg>>,
    args: List<Expr>,
    receivers: List<Type>,
    k: int,
)
    requires
        0 <= k <= receivers@.len(),
        forall|i: int|
            0 <= i < k ==> walk::method_probe(
                f,
                limit,
                s,
                call,
                method,
                turbofish,
                args,
                Rc::new(#[trigger] receivers@[i]),
            ) matches Ok((_, None)),
    ensures
        k == receivers@.len() ==> walk::first_method(
            f,
            limit,
            s,
            call,
            method,
            turbofish,
            args,
            receivers,
        ) == Ok::<(StateView, Option<Rc<MethodSelection>>), Stop>((s, None)),
        k < receivers@.len() ==> match walk::method_probe(
            f,
            limit,
            s,
            call,
            method,
            turbofish,
            args,
            Rc::new(receivers@[k]),
        ) {
            Ok((_, None)) => true,
            other => walk::first_method(
                f,
                limit,
                s,
                call,
                method,
                turbofish,
                args,
                receivers,
            ) == other,
        },
    decreases receivers,
{
    reveal_with_fuel(walk::first_method, 2);
    if let List::Cons(first, rest) = receivers {
        assert(receivers@ == seq![list::held(&first)] + rest@);
        assert(receivers@[0] == list::held(&first));
        if k > 0 {
            assert forall|i: int| 0 <= i < k - 1 implies walk::method_probe(
                f,
                limit,
                s,
                call,
                method,
                turbofish,
                args,
                Rc::new(#[trigger] rest@[i]),
            ) matches Ok((_, None)) by {
                assert(receivers@[i + 1] == rest@[i]);
            }
            tried_in_turn(
                f,
                limit,
                s,
                call,
                method,
                turbofish,
                args,
                list::held(&rest),
                k - 1,
            );
            if k < receivers@.len() {
                assert(receivers@[k] == rest@[k - 1]);
            }
        }
    }
}

/// A call means the method of the first candidate for its receiver that gives one: the candidates
/// before it give none, and those behind it are not asked.
pub proof fn call_means_the_first_method(
    f: Frame,
    limit: nat,
    s: StateView,
    mid: StateView,
    call: Expr,
    receiver: Rc<Expr>,
    ty: Rc<Type>,
    k: int,
    probed: StateView,
    selected: Rc<MethodSelection>,
)
    requires
        call.kind matches ExprKind::MethodCall { receiver: own, .. } && own == receiver,
        walk::written_type(f, limit, s, *receiver, None) == Ok::<
            (StateView, Option<Rc<Type>>),
            Stop,
        >((mid, Some(ty))),
        ({
            let tried = candidates_for(f, mid, receiver, ty)@;
            &&& 0 <= k < tried.len()
            &&& forall|i: int|
                0 <= i < k ==> gives_none(probe(f, limit, mid, call, #[trigger] tried[i]))
            &&& probe(f, limit, mid, call, tried[k]) == Ok::<
                (StateView, Option<Rc<MethodSelection>>),
                Stop,
            >((probed, Some(selected)))
        }),
    ensures
        walk::method_selection(f, limit, s, call) == Ok::<
            (StateView, Option<Rc<MethodSelection>>),
            Stop,
        >((probed, Some(selected))),
{
    if let ExprKind::MethodCall { receiver: _, method, turbofish, args } = call.kind {
        let tried = candidates_for(f, mid, receiver, ty);
        assert forall|i: int| 0 <= i < k implies walk::method_probe(
            f,
            limit,
            mid,
            call,
            method,
            turbofish,
            args,
            Rc::new(#[trigger] tried@[i]),
        ) matches Ok((_, None)) by {
            assert(probe(f, limit, mid, call, tried@[i]) matches Ok((_, None)));
        }
        tried_in_turn(f, limit, mid, call, method, turbofish, args, tried, k);
    }
    reveal_with_fuel(walk::method_selection, 2);
}

/// A call means no method only where no candidate for its receiver gives one.
pub proof fn call_without_a_method_has_no_candidate(
    f: Frame,
    limit: nat,
    s: StateView,
    mid: StateView,
    call: Expr,
    receiver: Rc<Expr>,
    ty: Rc<Type>,
    at: int,
)
    requires
        call.kind matches ExprKind::MethodCall { receiver: own, .. } && own == receiver,
        walk::written_type(f, limit, s, *receiver, None) == Ok::<
            (StateView, Option<Rc<Type>>),
            Stop,
        >((mid, Some(ty))),
        walk::method_selection(f, limit, s, call) matches Ok((_, None)),
        0 <= at < candidates_for(f, mid, receiver, ty)@.len(),
    ensures
        probe(
            f,
            limit,
            mid,
            call,
            candidates_for(f, mid, receiver, ty)@[at],
        ) matches Ok((_, None)),
{
    reveal_with_fuel(walk::method_selection, 2);
    if let ExprKind::MethodCall { receiver: _, method, turbofish, args } = call.kind {
        let tried = candidates_for(f, mid, receiver, ty);
        none_gives_one(f, limit, mid, call, method, turbofish, args, tried, at);
    }
}

proof fn none_gives_one(
    f: Frame,
    limit: nat,
    s: StateView,
    call: Expr,
    method: Symbol,
    turbofish: Option<List<GenericArg>>,
    args: List<Expr>,
    receivers: List<Type>,
    at: int,
)
    requires
        walk::first_method(f, limit, s, call, method, turbofish, args, receivers) matches Ok(
            (_, None),
        ),
        0 <= at < receivers@.len(),
    ensures
        walk::method_probe(
            f,
            limit,
            s,
            call,
            method,
            turbofish,
            args,
            Rc::new(receivers@[at]),
        ) matches Ok((_, None)),
    decreases receivers,
{
    if let List::Cons(first, rest) = receivers {
        assert(receivers@ == seq![list::held(&first)] + rest@);
        assert(receivers@[0] == list::held(&first));
        if at > 0 {
            assert(receivers@[at] == rest@[at - 1]);
            none_gives_one(
                f,
                limit,
                s,
                call,
                method,
                turbofish,
                args,
                list::held(&rest),
                at - 1,
            );
        }
    }
}

/// A call that is not one of a static in global memory gives what its method returns, and the method
/// is filed for the call.
pub proof fn call_gives_what_its_method_returns(
    f: Frame,
    limit: nat,
    s: StateView,
    mid: StateView,
    after: StateView,
    call: Expr,
    selected: Rc<MethodSelection>,
    expected: Option<Rc<TileType>>,
)
    requires
        call.kind is MethodCall,
        walk::global_call(f, limit, s, call) == Ok::<(StateView, Option<Rc<TileType>>), Stop>(
            (mid, None),
        ),
        walk::method_selection(f, limit, mid, call) == Ok::<
            (StateView, Option<Rc<MethodSelection>>),
            Stop,
        >((after, Some(selected))),
    ensures
        walk::expr_type(f, limit + 1, s, call, expected) matches Ok((filed, found)) && {
            &&& selected.return_type is Some ==> found == selected.return_type
            &&& selected.return_type is None ==> found == expected
            &&& call.id is Some ==> results::filed(filed.results.selections, call.id) == Some(
                selected,
            )
        },
{
    reveal_with_fuel(walk::expr_type, 2);
    reveal_with_fuel(walk::expr_rule, 2);
    reveal_with_fuel(walk::method_call_rule, 2);
}

/// The method that is selected is the one that the compiler names for the receiver's type and the
/// types of all arguments, and it comes with the module and the `impl` block that it stands in.
pub proof fn selected_method_is_the_one_named(
    f: Frame,
    limit: nat,
    s: StateView,
    call: Expr,
    turbofish: Option<List<GenericArg>>,
    args: List<Type>,
    after: StateView,
    selected: Rc<MethodSelection>,
)
    requires
        selection::selected_method(f, limit, s, call, turbofish, args) == Ok::<
            (StateView, Option<Rc<MethodSelection>>),
            Stop,
        >((after, Some(selected))),
    ensures
        args@.len() > 0,
        env::answer_to(
            f.env.book,
            Question::Method {
                receiver: Rc::new(args@[0]),
                call: Rc::new(call),
                args,
            },
        ) == Some(
            Answer::Method(
                Some(
                    Rc::new(
                        MethodItem {
                            module: selected.module_name,
                            impl_item: selected.impl_item,
                            method: selected.impl_method,
                        },
                    ),
                ),
            ),
        ),
{
    if let List::Cons(first, rest) = args {
        assert(args@ == seq![list::held(&first)] + rest@);
        assert(args@[0] == list::held(&first));
    }
}

} // verus!

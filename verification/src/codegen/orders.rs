//! What holds of the constants that a body sees, of the order they come in, and of the types that
//! inference finds for a body.
use crate::codegen::consts;
use crate::codegen::dialogue;
use crate::codegen::kernel;
use crate::codegen::tape::{
    ArrayConst, CompileError, Halt, IntConst, Reply, Request,
};
use crate::codegen::typing;
use crate::codegen::value::{self, Context, Value};
use crate::env::{Answer, Entry, Env, GenericVars, Question, Stop, TileType};
use crate::exprs;
use crate::generics;
use crate::infer::finish;
use crate::infer::readings;
use crate::infer::state::Frame;
use crate::list::{self, List};
use crate::names::{self, Names};
use crate::results::ResultsView;
use crate::scalar;
use crate::syntax::{ExprKind, Generics, Symbol, Type};
use crate::type_rules;
use crate::types;
use std::rc::Rc;
use vstd::prelude::*;

verus! {

// The order of constants.

/// Of two texts one comes before the other, or they are the same: never two of these.
pub proof fn texts_are_ordered(a: Seq<char>, b: Seq<char>)
    ensures
        consts::text_before(a, b) ==> !consts::text_before(b, a) && a != b,
        a != b ==> consts::text_before(a, b) || consts::text_before(b, a),
    decreases a.len(),
{
    if a.len() > 0 && b.len() > 0 && a[0] == b[0] {
        texts_are_ordered(a.skip(1), b.skip(1));
        if a.skip(1) == b.skip(1) {
            assert(a =~= seq![a[0]] + a.skip(1));
            assert(b =~= seq![b[0]] + b.skip(1));
        }
    }
    if a.len() == 0 && b.len() == 0 {
        assert(a =~= b);
    }
}

/// A text comes before those that go on behind it, and before those with a greater character at the
/// first place where they differ.
pub proof fn first_difference_decides(
    front: Seq<char>,
    a: Seq<char>,
    b: Seq<char>,
)
    requires
        b.len() > 0,
        a.len() > 0 ==> a[0] < b[0],
    ensures
        consts::text_before(front + a, front + b),
    decreases front.len(),
{
    if front.len() == 0 {
        assert(front + a =~= a);
        assert(front + b =~= b);
    } else {
        first_difference_decides(front.skip(1), a, b);
        assert((front + a).skip(1) =~= front.skip(1) + a);
        assert((front + b).skip(1) =~= front.skip(1) + b);
    }
}

/// Whether names come in the order of their texts.
pub open spec fn in_order(names: Names, listed: Seq<Symbol>) -> bool {
    forall|i: int|
        0 <= i < listed.len() - 1 ==> !consts::text_before(
            names.text_of(#[trigger] listed[i + 1]),
            names.text_of(listed[i]),
        )
}

/// The names of integer constants.
pub open spec fn int_names(ints: List<IntConst>) -> Seq<Symbol> {
    Seq::new(ints@.len(), |i: int| ints@[i].name)
}

/// A constant that is added is among the constants, in the order of their names, and those that there
/// were stay.
pub proof fn added_constant_is_in_its_place(names: Names, ints: List<IntConst>, new: IntConst)
    requires
        in_order(names, int_names(ints)),
    ensures
        ({
            let all = consts::int_inserted(names, ints, new);
            &&& all@.len() == ints@.len() + 1
            &&& in_order(names, int_names(all))
            &&& exists|at: int| #![trigger all@[at]]
                0 <= at <= ints@.len() && all@[at] == new && all@.remove(at) == ints@
        }),
    decreases ints,
{
    let all = consts::int_inserted(names, ints, new);
    match ints {
        List::Nil => {
            assert(ints@.len() == 0);
            let end = List::<IntConst>::Nil;
            assert(end@.len() == 0);
            assert(all@ == seq![new] + end@);
            assert(all@[0] == new);
            assert(all@.remove(0) =~= ints@);
        },
        List::Cons(item, rest) => {
            let first = list::held(&item);
            assert(ints@ == seq![first] + rest@);
            assert(ints@[0] == first);
            assert(int_names(ints)[0] == first.name);
            let listed = int_names(ints);
            if consts::text_before(names.text_of(new.name), names.text_of(first.name)) {
                assert(all@ == seq![new] + ints@);
                assert(all@[0] == new);
                assert(all@.remove(0) =~= ints@);
                let more = int_names(all);
                assert forall|i: int| 0 <= i < more.len() - 1 implies !consts::text_before(
                    names.text_of(#[trigger] more[i + 1]),
                    names.text_of(more[i]),
                ) by {
                    if i == 0 {
                        assert(more[1] == first.name);
                        texts_are_ordered(names.text_of(new.name), names.text_of(first.name));
                    } else {
                        assert(more[i + 1] == listed[i - 1 + 1]);
                        assert(more[i] == listed[i - 1]);
                    }
                }
            } else {
                let tail = int_names(list::held(&rest));
                assert forall|i: int| 0 <= i < tail.len() - 1 implies !consts::text_before(
                    names.text_of(#[trigger] tail[i + 1]),
                    names.text_of(tail[i]),
                ) by {
                    assert(rest@[i + 1] == ints@[i + 1 + 1]);
                    assert(rest@[i] == ints@[i + 1]);
                    assert(tail[i + 1] == listed[i + 1 + 1]);
                    assert(tail[i] == listed[i + 1]);
                }
                added_constant_is_in_its_place(names, list::held(&rest), new);
                let later = consts::int_inserted(names, list::held(&rest), new);
                let k = choose|at: int| #![trigger later@[at]]
                    0 <= at <= rest@.len() && later@[at] == new && later@.remove(at) == rest@;
                assert(all@ == seq![first] + later@);
                assert(all@[k + 1] == new);
                assert(all@.remove(k + 1) =~= seq![first] + later@.remove(k));
                assert(all@.remove(k + 1) =~= ints@);
                let more = int_names(all);
                let behind = int_names(later);
                assert forall|i: int| 0 <= i < more.len() - 1 implies !consts::text_before(
                    names.text_of(#[trigger] more[i + 1]),
                    names.text_of(more[i]),
                ) by {
                    if i > 0 {
                        assert(all@[i + 1] == later@[i - 1 + 1]);
                        assert(all@[i] == later@[i - 1]);
                        assert(more[i + 1] == behind[i - 1 + 1]);
                        assert(more[i] == behind[i - 1]);
                    } else {
                        assert(more[0] == first.name);
                        assert(all@[1] == later@[0]);
                        if k == 0 {
                            assert(more[1] == new.name);
                        } else {
                            assert(later@.remove(k)[0] == later@[0]);
                            assert(rest@[0] == later@[0]);
                            assert(ints@[1] == rest@[0]);
                            assert(more[1] == listed[0int + 1]);
                            assert(more[0] == listed[0]);
                        }
                    }
                }
            }
        },
    }
}

// Arrays of constants.

/// An array of constants is compiled as an array of so many `i32`: the backend is asked for that
/// type, then for the literal of its numbers; and the name stands for what it gives.
pub proof fn array_constant_stands_for_its_numbers(
    generics: Rc<GenericVars>,
    scope: Context,
    item: ArrayConst,
    tile: Option<Rc<TileType>>,
    val: Rc<Value>,
    after: Rc<Context>,
    rest: List<Reply>,
)
    requires
        item.dims@.len() <= usize::MAX,
    ensures
        ({
            let arrays = List::Cons(Rc::new(item), Rc::new(List::Nil));
            &&& consts::with_arrays(dialogue::end(), generics, scope, arrays) matches Err(
                Halt::Perform(
                    Request::CompileType { ty, generics: under, params },
                ),
            ) && under == generics && params is Nil && (*ty matches Type::Array { elem, len }
                && *elem == scalar::named_type(names::I32) && exprs::fixed_index(*len) == Some(
                item.dims@.len() as usize,
            ))
        }),
        ({
            let arrays = List::Cons(Rc::new(item), Rc::new(List::Nil));
            consts::with_arrays(
                dialogue::replied(Reply::CompiledType(tile), dialogue::end()),
                generics,
                scope,
                arrays,
            ) matches Err(
                Halt::Perform(
                    Request::CompileExpr { expr, generics: under, scope: within, expected },
                ),
            ) && under == generics && *within == scope && expected == tile && expr.kind
                == ExprKind::Array(exprs::dim_exprs(item.dims))
        }),
        ({
            let arrays = List::Cons(Rc::new(item), Rc::new(List::Nil));
            consts::with_arrays(
                dialogue::replied(
                    Reply::CompiledType(tile),
                    dialogue::replied(Reply::Compiled { value: Some(val), scope: after }, rest),
                ),
                generics,
                scope,
                arrays,
            ) matches Ok((left, bound)) && left == rest && value::value_of(bound.vars, item.name)
                == Some(val) && bound.modules == after.modules
        }),
{
    reveal_with_fuel(consts::with_arrays, 2);
    value::bound_value_is_found(list::held(&after).vars, item.name, val, item.name);
}

/// The strides of a parameter are an array of as many dimensions.
pub proof fn strides_are_as_many_dimensions(vars: GenericVars, strides: List<i32>)
    requires
        strides@.len() <= usize::MAX,
    ensures
        types::type_rank(vars, kernel::strides_type(strides)) == Some(strides@.len() as usize),
{
    readings::dimension_is_its_number(strides, 0);
    type_rules::rank_is_the_number_of_dimensions(
        vars,
        names::ARRAY,
        exprs::dim_exprs(strides),
    );
}

// What inference finds.

/// A body is typed under the bounds of its own generic names and, for a method, of those of its
/// `impl` block.
pub proof fn body_is_typed_under_all_bounds(
    env: Env,
    body: typing::Body,
    initial: Map<Symbol, Rc<TileType>>,
    bounds: Map<Symbol, List<Symbol>>,
)
    requires
        match body.impl_item {
            None => bounds == generics::all_declared(body.item.generics),
            Some(impl_item) => bounds == generics::merged_bounds(
                generics::all_declared(impl_item.generics),
                generics::all_declared(body.item.generics),
            ),
        },
    ensures
        typing::found_with(env, body, initial) == finish::inferred(
            Frame { env, bounds },
            u64::MAX as nat,
            *body.item,
            initial,
        ),
{
}

/// A declared bound is in force: a trait is among the bounds of a name where the declaration states
/// it.
pub proof fn declared_bounds_are_in_force(
    own: Generics,
    name: Symbol,
    which: Symbol,
)
    ensures
        generics::bounds_of(generics::all_declared(own), name)@.contains(which)
            <==> generics::declared_bounds(own, name)@.contains(which),
{
    let declared = generics::declared_bounds(own, name);
    assert(declared is Nil ==> declared@.len() == 0);
}

/// A question that inference has no answer to is put to the backend, and its answer is in the book
/// when inference starts anew.
pub proof fn questions_are_put_to_the_backend(
    env: Env,
    body: typing::Body,
    initial: Map<Symbol, Rc<TileType>>,
    question: Question,
    answer: Rc<Answer>,
    rest: List<Reply>,
    error: u64,
)
    requires
        typing::found_with(env, body, initial) == Err::<ResultsView, Stop>(
            Stop::Unanswered(question),
        ),
    ensures
        dialogue::asks(
            typing::types_found(dialogue::end(), env, body, initial),
            Request::Answer { question, generics: env.generic_vars },
        ),
        dialogue::fails(
            typing::types_found(
                dialogue::replied(Reply::Failed(error), rest),
                env,
                body,
                initial,
            ),
            CompileError::Reported(error),
        ),
        ({
            let entry = Entry { question, answer: *answer };
            let book = List::Cons(Rc::new(entry), Rc::new(env.book));
            &&& book@ == seq![entry] + env.book@
            &&& typing::types_found(
                dialogue::replied(Reply::Answer(answer), rest),
                env,
                body,
                initial,
            ) == typing::types_found(rest, Env { book, ..env }, body, initial)
        }),
{
}

/// What inference finds without a question is what it gives, and nothing is asked.
pub proof fn found_types_are_given(
    tape: List<Reply>,
    env: Env,
    body: typing::Body,
    initial: Map<Symbol, Rc<TileType>>,
    found: ResultsView,
)
    requires
        typing::found_with(env, body, initial) == Ok::<ResultsView, Stop>(found),
    ensures
        dialogue::ends(typing::types_found(tape, env, body, initial), tape, found),
{
}

} // verus!

//! The types in a body that is compiled: inference, with its questions put to the backend.
use crate::codegen::tape::{
    self, CompileError, Halt, Reply, Request, Run, Tape, TypedName,
};
use crate::env::{Entry, Env, GenericVars, JitError, Stop, TileType};
use crate::generics;
use crate::infer::finish::{self, infer_function, infer_method};
use crate::infer::state::Frame;
use crate::list::{self, share, List};
use crate::results::{ResultsView, TypeckResults};
use crate::syntax::{FnItem, ImplItem, Symbol};
use std::collections::HashMap;
use std::rc::Rc;
use vstd::prelude::*;

verus! {

broadcast use vstd::std_specs::hash::group_hash_axioms;

/// What inference knows of the program.
pub struct Typing {
    /// The items of the program; its generic names and its book are those of each body.
    pub program: Env,
}

/// The program around a body in which generic names are bound so.
pub open spec fn env_for(typing: Typing, generics: Rc<GenericVars>) -> Env {
    Env { generic_vars: generics, book: List::Nil, ..typing.program }
}

fn make_env(typing: &Typing, generics: &Rc<GenericVars>) -> (r: Env)
    ensures
        r == env_for(*typing, *generics),
{
    let program = &typing.program;
    Env {
        names: share(&program.names),
        generic_vars: share(generics),
        structs: program.structs.dup(),
        functions: program.functions.dup(),
        traits: program.traits.dup(),
        trait_impls: program.trait_impls.dup(),
        primitives: program.primitives.dup(),
        struct_impls: program.struct_impls.dup(),
        book: List::Nil,
    }
}

/// The types of names as a table; an entry hides those of the same name behind it.
pub open spec fn type_table(names: List<TypedName>) -> Map<Symbol, Rc<TileType>>
    decreases names,
{
    match names {
        List::Nil => Map::empty(),
        List::Cons(item, rest) => type_table(*rest).insert(item.name, item.ty),
    }
}

pub fn make_type_table(names: &List<TypedName>) -> (r: HashMap<Symbol, Rc<TileType>>)
    ensures
        r@ == type_table(*names),
    decreases names,
{
    match names {
        List::Nil => HashMap::new(),
        List::Cons(item, rest) => {
            let mut table = make_type_table(rest);
            table.insert(item.name, share(&item.ty));
            table
        },
    }
}

/// A body whose types are looked for: that of a function, or that of a method of an `impl` block.
pub struct Body {
    pub impl_item: Option<Rc<ImplItem>>,
    pub item: Rc<FnItem>,
}

/// What inference finds in a body under a book of answers.
pub open spec fn found_with(
    env: Env,
    body: Body,
    initial: Map<Symbol, Rc<TileType>>,
) -> Result<ResultsView, Stop> {
    let own = generics::all_declared(body.item.generics);
    let bounds = match body.impl_item {
        Some(impl_item) => generics::merged_bounds(
            generics::all_declared(impl_item.generics),
            own,
        ),
        None => own,
    };
    finish::inferred(Frame { env, bounds }, u64::MAX as nat, *body.item, initial)
}

/// The error of a compilation whose inference fails.
pub open spec fn typing_error(error: JitError) -> CompileError {
    match error {
        JitError::Reported(reported) => CompileError::Reported(reported),
        _ => CompileError::Untyped(error),
    }
}

/// The types in a body: what inference finds, with each question that it asks put to the backend and
/// added to its book with the answer.
pub open spec fn types_found(
    tape: List<Reply>,
    env: Env,
    body: Body,
    initial: Map<Symbol, Rc<TileType>>,
) -> Run<ResultsView>
    decreases tape,
{
    match found_with(env, body, initial) {
        Ok(found) => Ok((tape, found)),
        Err(Stop::Failed(error)) => Err(Halt::Failed(typing_error(error))),
        Err(Stop::LimitReached) => Err(Halt::Failed(CompileError::TooDeep)),
        Err(Stop::Unanswered(question)) => match tape {
            List::Nil => Err(
                Halt::Perform(Request::Answer { question, generics: env.generic_vars }),
            ),
            List::Cons(reply, rest) => match *reply {
                Reply::Failed(error) => Err(Halt::Failed(CompileError::Reported(error))),
                Reply::Answer(answer) => types_found(
                    *rest,
                    Env {
                        book: List::Cons(
                            Rc::new(Entry { question, answer: *answer }),
                            Rc::new(env.book),
                        ),
                        ..env
                    },
                    body,
                    initial,
                ),
                _ => Err(Halt::OutOfStep),
            },
        },
    }
}

/// Whether the types that a function returned, and what it left of the tape, are what they should
/// be.
pub open spec fn gives(
    r: Result<Rc<TypeckResults>, Halt>,
    left: List<Reply>,
    expected: Run<ResultsView>,
) -> bool {
    match expected {
        Ok((rest, found)) => (r matches Ok(results) && results@ == found) && left == rest,
        Err(halt) => r matches Err(stopped) && tape::halted(stopped) == halt,
    }
}

fn look_for_types(
    tape: &mut Tape,
    env: Env,
    body: &Body,
    initial: &HashMap<Symbol, Rc<TileType>>,
) -> (r: Result<Rc<TypeckResults>, Halt>)
    ensures
        gives(r, final(tape).left, types_found(old(tape).left, env, *body, initial@)),
    decreases old(tape).left,
{
    let found = match &body.impl_item {
        Some(impl_item) => infer_method(&env, impl_item, &body.item, initial),
        None => infer_function(&env, &body.item, initial),
    };
    let question = match found {
        Ok(results) => return Ok(Rc::new(results)),
        Err(Stop::Failed(JitError::Reported(reported))) => {
            return Err(Halt::Failed(CompileError::Reported(reported)));
        },
        Err(Stop::Failed(error)) => return Err(Halt::Failed(CompileError::Untyped(error))),
        Err(Stop::LimitReached) => return Err(Halt::Failed(CompileError::TooDeep)),
        Err(Stop::Unanswered(question)) => question,
    };
    let (answer, rest) = match &tape.left {
        List::Nil => {
            let generics = share(&env.generic_vars);
            return Err(Halt::Perform(Request::Answer { question, generics }));
        },
        List::Cons(reply, rest) => match &**reply {
            Reply::Failed(error) => {
                return Err(Halt::Failed(CompileError::Reported(*error)));
            },
            Reply::Answer(answer) => (answer.dup(), rest.dup()),
            _ => return Err(Halt::OutOfStep),
        },
    };
    tape.left = rest;
    let book = List::prepend(Rc::new(Entry { question, answer }), env.book.dup());
    look_for_types(tape, Env { book, ..env }, body, initial)
}

/// The types in a body that is compiled where generic names are bound so.
pub open spec fn body_types(
    tape: List<Reply>,
    typing: Typing,
    generics: Rc<GenericVars>,
    body: Body,
    initial: List<TypedName>,
) -> Run<ResultsView> {
    types_found(tape, env_for(typing, generics), body, type_table(initial))
}

/// Finds the types in a body.
pub fn find_types(
    tape: &mut Tape,
    typing: &Typing,
    generics: &Rc<GenericVars>,
    body: &Body,
    initial: &List<TypedName>,
) -> (r: Result<Rc<TypeckResults>, Halt>)
    ensures
        gives(
            r,
            final(tape).left,
            body_types(old(tape).left, *typing, *generics, *body, *initial),
        ),
{
    let env = make_env(typing, generics);
    let initial = make_type_table(initial);
    look_for_types(tape, env, body, &initial)
}

/// Until the types are found, the backend is asked for nothing but answers.
pub proof fn only_answers_are_asked(
    tape: List<Reply>,
    env: Env,
    body: Body,
    initial: Map<Symbol, Rc<TileType>>,
)
    ensures
        types_found(tape, env, body, initial) matches Err(Halt::Perform(request))
            ==> request is Answer,
    decreases tape,
{
    if let Err(Stop::Unanswered(question)) = found_with(env, body, initial) {
        if let List::Cons(reply, rest) = tape {
            if let Reply::Answer(answer) = list::held(&reply) {
                let book = List::Cons(
                    Rc::new(Entry { question, answer: list::held(&answer) }),
                    Rc::new(env.book),
                );
                only_answers_are_asked(
                    list::held(&rest),
                    Env { book, ..env },
                    body,
                    initial,
                );
            }
        }
    }
}

/// Whether types are what inference finds in a body, under some book of answers.
pub open spec fn is_inferred(
    env: Env,
    body: Body,
    initial: Map<Symbol, Rc<TileType>>,
    types: ResultsView,
) -> bool {
    exists|book: List<Entry>| #[trigger]
        found_with(Env { book, ..env }, body, initial) == Ok::<ResultsView, Stop>(types)
}

/// The types that a body is compiled with are those that inference finds in it, under some book of
/// answers.
pub proof fn compiled_types_are_inferred(
    tape: List<Reply>,
    env: Env,
    body: Body,
    initial: Map<Symbol, Rc<TileType>>,
)
    requires
        types_found(tape, env, body, initial) is Ok,
    ensures
        is_inferred(
            env,
            body,
            initial,
            types_found(tape, env, body, initial)->Ok_0.1,
        ),
    decreases tape,
{
    match found_with(env, body, initial) {
        Ok(_) => {
            assert(Env { book: env.book, ..env } == env);
            assert(found_with(Env { book: env.book, ..env }, body, initial) is Ok);
        },
        Err(Stop::Unanswered(question)) => {
            if let List::Cons(reply, rest) = tape {
                if let Reply::Answer(answer) = list::held(&reply) {
                    let book = List::Cons(
                        Rc::new(Entry { question, answer: list::held(&answer) }),
                        Rc::new(env.book),
                    );
                    let next = Env { book, ..env };
                    compiled_types_are_inferred(
                        list::held(&rest),
                        next,
                        body,
                        initial,
                    );
                    let last = choose|book: List<Entry>| #[trigger]
                        found_with(Env { book, ..next }, body, initial) == Ok::<
                            ResultsView,
                            Stop,
                        >(types_found(tape, env, body, initial)->Ok_0.1);
                    assert(Env { book: last, ..next } == Env { book: last, ..env });
                }
            }
        },
        _ => {},
    }
}

} // verus!

//! What inference has found out stays when it is run again with more room and with more answers.
//!
//! Inference that stops at a question is started again once the question is answered, and inference
//! that reaches its limit is started again with a larger one. Each rule is followed both ways: what
//! did not stop for one of these reasons comes out the same.
use crate::env::{self, Entry, Env, Stop};
use crate::infer::state::Frame;
use crate::list::List;
use std::rc::Rc;
use vstd::prelude::*;

pub mod of_calls;
pub mod of_lookups;
pub mod of_patterns;
pub mod of_rules;
pub mod of_the_end;
pub mod of_types;

verus! {

/// Whether one program is another of which the same questions have been answered, and perhaps more.
pub open spec fn env_learns(before: Env, after: Env) -> bool {
    &&& after == (Env { book: after.book, ..before })
    &&& forall|question: env::Question| #[trigger]
        env::answer_to(before.book, question) is Some ==> env::answer_to(after.book, question)
            == env::answer_to(before.book, question)
}

/// Whether a function is read again in a program of which more questions have been answered.
pub open spec fn learns(before: Frame, after: Frame) -> bool {
    before.bounds == after.bounds && env_learns(before.env, after.env)
}

/// Whether what came out comes out again: it does unless the limit was reached or a question had no
/// answer.
pub open spec fn stays<T>(before: Result<T, Stop>, after: Result<T, Stop>) -> bool {
    match before {
        Err(Stop::LimitReached) => true,
        Err(Stop::Unanswered(_)) => true,
        _ => after == before,
    }
}

/// A program whose book has the answer to one more question.
pub open spec fn answered(env: Env, entry: Entry) -> Env {
    Env { book: List::Cons(Rc::new(entry), Rc::new(env.book)), ..env }
}

/// A question that had no answer has one when it is added, and all others keep theirs.
pub proof fn answering_learns(env: Env, entry: Entry)
    requires
        env::answer_to(env.book, entry.question) is None,
    ensures
        env_learns(env, answered(env, entry)),
        env::answer_to(answered(env, entry).book, entry.question) == Some(entry.answer),
{
    assert forall|question: env::Question| #[trigger]
        env::answer_to(env.book, question) is Some implies env::answer_to(
        answered(env, entry).book,
        question,
    ) == env::answer_to(env.book, question) by {
        reveal_with_fuel(env::answer_to, 2);
    }
}

} // verus!

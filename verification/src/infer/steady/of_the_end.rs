//! What inference ends with stays.
use crate::ask;
use crate::env::TileType;
use crate::infer::finish::{self, Due};
use crate::infer::state::{Frame, StateView};
use crate::infer::steady;
use crate::infer::steady::of_rules;
use crate::infer::walk;
use crate::list::{self, List};
use crate::scalar;
use crate::syntax::{Expr, FnItem, Symbol};
use std::rc::Rc;
use vstd::prelude::*;

verus! {

proof fn origins_read_stays(
    f: Frame,
    g: Frame,
    limit: nat,
    more: nat,
    s: StateView,
    origins: List<Expr>,
    value: Rc<TileType>,
)
    requires
        steady::learns(f, g),
        limit <= more,
    ensures
        steady::stays(
            finish::origins_read(f, limit, s, origins, value),
            finish::origins_read(g, more, s, origins, value),
        ),
    decreases origins,
{
    if let List::Cons(origin, rest) = origins {
        of_rules::expr_type_stays(f, g, limit, more, s, list::held(&origin), Some(value));
        if let Ok((s, _)) = walk::expr_type(f, limit, s, list::held(&origin), Some(value)) {
            origins_read_stays(f, g, limit, more, s, list::held(&rest), value);
        }
    }
}

proof fn due_read_stays(f: Frame, g: Frame, limit: nat, more: nat, s: StateView, work: List<Due>)
    requires
        steady::learns(f, g),
        limit <= more,
    ensures
        steady::stays(finish::due_read(f, limit, s, work), finish::due_read(g, more, s, work)),
    decreases work,
{
    if let List::Cons(due, rest) = work {
        origins_read_stays(
            f,
            g,
            limit,
            more,
            finish::served(s, due.id),
            list::held(&due).origins,
            list::held(&due).value,
        );
        if let Ok((s, _)) = finish::origins_read(
            f,
            limit,
            finish::served(s, due.id),
            list::held(&due).origins,
            list::held(&due).value,
        ) {
            due_read_stays(f, g, limit, more, s, list::held(&rest));
        }
    }
}

proof fn propagated_stays(
    f: Frame,
    g: Frame,
    limit: nat,
    more: nat,
    rounds: nat,
    more_rounds: nat,
    s: StateView,
)
    requires
        steady::learns(f, g),
        limit <= more,
        rounds <= more_rounds,
    ensures
        steady::stays(
            finish::propagated(f, limit, rounds, s),
            finish::propagated(g, more, more_rounds, s),
        ),
    decreases rounds,
{
    let work = finish::due_from(s.inference.vars, 0);
    if !(work is Nil) {
        if rounds > 0 {
            due_read_stays(f, g, limit, more, s, work);
            if let Ok((s, _)) = finish::due_read(f, limit, s, work) {
                propagated_stays(
                    f,
                    g,
                    limit,
                    more,
                    (rounds - 1) as nat,
                    (more_rounds - 1) as nat,
                    s,
                );
            }
        }
    }
}

proof fn defaulted_stays(f: Frame, g: Frame, s: StateView, at: nat)
    requires
        steady::learns(f, g),
    ensures
        steady::stays(finish::defaulted(f, s, at), finish::defaulted(g, s, at)),
    decreases s.inference.vars.len() - at,
{
    if !(at >= s.inference.vars.len()) {
        match finish::default_name(s.inference.vars [at as int]) {
            None => {
                defaulted_stays(f, g, s, at + 1);
            },
            Some(name) => {
                match ask::compiled(f.env, scalar::named_type(name)) {
                    Err(_) => {},
                    Ok(None) => {
                        defaulted_stays(f, g, s, at + 1);
                    },
                    Ok(Some(ty)) => {
                        defaulted_stays(f, g, finish::with_value(s, at, ty), at + 1);
                    },
                }
            },
        }
    }
}

/// What inference ends with comes out the same with a larger limit and with more questions
/// answered.
pub proof fn finished_stays(f: Frame, g: Frame, limit: nat, more: nat, s: StateView)
    requires
        steady::learns(f, g),
        limit <= more,
    ensures
        steady::stays(finish::finished(f, limit, s), finish::finished(g, more, s)),
{
    propagated_stays(f, g, limit, more, limit, more, s);
    if let Ok((s, _)) = finish::propagated(f, limit, limit, s) {
        defaulted_stays(f, g, s, 0);
        if let Ok((s, _)) = finish::defaulted(f, s, 0) {
            propagated_stays(f, g, limit, more, limit, more, s);
        }
    }
}

/// What is found out about a function comes out the same with a larger limit and with more
/// questions answered.
pub proof fn inferred_stays(
    f: Frame,
    g: Frame,
    limit: nat,
    more: nat,
    item: FnItem,
    initial: Map<Symbol, Rc<TileType>>,
)
    requires
        steady::learns(f, g),
        limit <= more,
    ensures
        steady::stays(
            finish::inferred(f, limit, item, initial),
            finish::inferred(g, more, item, initial),
        ),
{
    if let Ok(expected) = ask::compiled_if_any(f.env, list::held(&item.return_type)) {
        of_rules::block_type_stays(
            f,
            g,
            limit,
            more,
            finish::entered(initial),
            item.body,
            expected,
        );
        if let Ok((s, _)) = walk::block_type(
            f,
            limit,
            finish::entered(initial),
            item.body,
            expected,
        ) {
            finished_stays(f, g, limit, more, s);
        }
    }
}

} // verus!

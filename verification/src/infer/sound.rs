//! What holds of the state of inference whatever is read: it stays well formed, and nothing that is
//! known of types is lost.
use crate::forest;
use crate::infer::state::{self, StateView};
use crate::list::List;
use crate::syntax::Symbol;
use crate::unify::{BranchTerm, InferredTy};
use vstd::prelude::*;

verus! {

/// Whether a state is well formed: its forest is, and every name stands for a term of the forest.
pub open spec fn sound(s: StateView) -> bool {
    &&& forest::state_wf(s.inference)
    &&& forall|name: Symbol| #[trigger]
        s.local_terms.contains_key(name) ==> forest::is_term(
            s.inference.vars,
            s.local_terms[name],
        )
}

/// Whether a well-formed state follows on another and nothing that was known is lost.
#[verifier::opaque]
pub open spec fn advances(a: StateView, b: StateView) -> bool {
    sound(b) && forest::grows(a.inference.vars, b.inference.vars)
}

/// Whether a term is one of the forest.
pub open spec fn owns(s: StateView, term: InferredTy) -> bool {
    forest::is_term(s.inference.vars, term)
}

/// Whether all terms of a list are terms of the forest.
pub open spec fn owns_all(s: StateView, terms: List<InferredTy>) -> bool
    decreases terms,
{
    match terms {
        List::Nil => true,
        List::Cons(term, rest) => owns(s, *term) && owns_all(s, *rest),
    }
}

/// Whether what a branch gives is a term of the forest.
pub open spec fn owns_branch(s: StateView, branch: BranchTerm) -> bool {
    match branch {
        BranchTerm::Value(term) => owns(s, term),
        _ => true,
    }
}

/// A well-formed state follows on itself.
pub broadcast proof fn state_stays(s: StateView)
    requires
        sound(s),
    ensures
        #[trigger] advances(s, s),
{
    reveal(advances);
    forest::growth_is_reflexive(s.inference.vars);
}

/// A state that follows on one that follows on a third follows on the third.
pub broadcast proof fn state_goes_on(a: StateView, b: StateView, c: StateView)
    requires
        #[trigger] advances(a, b),
        #[trigger] advances(b, c),
    ensures
        advances(a, c),
{
    reveal(advances);
    forest::growth_is_transitive(a.inference.vars, b.inference.vars, c.inference.vars);
}

/// A state that follows is well formed.
pub broadcast proof fn state_is_sound(a: StateView, b: StateView)
    requires
        #[trigger] advances(a, b),
    ensures
        sound(b),
{
    reveal(advances);
}

/// A term stays a term of the forest.
pub broadcast proof fn term_stays(a: StateView, b: StateView, term: InferredTy)
    requires
        #[trigger] owns(a, term),
        #[trigger] advances(a, b),
    ensures
        owns(b, term),
{
    reveal(advances);
}

/// Terms stay terms of the forest.
pub broadcast proof fn terms_stay(a: StateView, b: StateView, terms: List<InferredTy>)
    requires
        #[trigger] owns_all(a, terms),
        #[trigger] advances(a, b),
    ensures
        owns_all(b, terms),
    decreases terms,
{
    match terms {
        List::Nil => {},
        List::Cons(term, rest) => {
            term_stays(a, b, crate::list::held(&term));
            terms_stay(a, b, crate::list::held(&rest));
        },
    }
}

pub broadcast group group_sound {
    state_stays,
    state_goes_on,
    state_is_sound,
    term_stays,
    terms_stay,
}

/// What is found and the types of names as written do not matter to the forest.
pub proof fn same_terms_advance(a: StateView, b: StateView)
    requires
        sound(a),
        b.inference == a.inference,
        b.local_terms == a.local_terms,
    ensures
        advances(a, b),
{
    reveal(advances);
    forest::growth_is_reflexive(a.inference.vars);
}

/// A name may stand for any term of the forest.
pub proof fn binding_advances(a: StateView, b: StateView, name: Symbol, term: InferredTy)
    requires
        sound(a),
        owns(a, term),
        b.inference == a.inference,
        b.local_terms == a.local_terms.insert(name, term),
    ensures
        advances(a, b),
{
    reveal(advances);
    forest::growth_is_reflexive(a.inference.vars);
    assert forall|other: Symbol| #[trigger] b.local_terms.contains_key(other) implies forest::is_term(
        b.inference.vars,
        b.local_terms[other],
    ) by {
        if other != name {
            assert(a.local_terms.contains_key(other));
        }
    }
}

/// A forest that has grown does for the names that there were.
pub proof fn growth_advances(a: StateView, b: StateView)
    requires
        sound(a),
        forest::state_wf(b.inference),
        forest::grows(a.inference.vars, b.inference.vars),
        b.local_terms == a.local_terms,
    ensures
        advances(a, b),
{
    reveal(advances);
    assert forall|name: Symbol| #[trigger] b.local_terms.contains_key(name) implies forest::is_term(
        b.inference.vars,
        b.local_terms[name],
    ) by {
        assert(a.local_terms.contains_key(name));
    }
}

/// The state after a block of its own follows on the one before it.
pub proof fn leaving_advances(outer: StateView, inner: StateView)
    requires
        sound(outer),
        advances(outer, inner),
    ensures
        advances(outer, state::leaving(outer, inner)),
{
    reveal(advances);
    growth_advances(outer, state::leaving(outer, inner));
}

} // verus!

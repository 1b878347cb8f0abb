//! The types under which a method's receiver is tried: each step of taking references off, as it
//! is, borrowed and, where that is allowed, borrowed mutably.
use crate::list::{self, share, List};
use crate::names::{text_eq, Names};
use crate::render::{self, to_token_string};
use crate::syntax::{Symbol, Type};
use crate::types::{self, autoderef_type_chain, make_reference};
use std::rc::Rc;
use vstd::prelude::*;

verus! {

/// The texts of a list of strings.
pub open spec fn texts(strings: Seq<String>) -> Seq<Seq<char>> {
    Seq::new(strings.len(), |i: int| strings[i]@)
}

/// The types kept so far, and the texts seen so far.
pub struct Kept {
    pub types: List<Type>,
    pub seen: Vec<String>,
}

/// The types kept when one more is met under its text: a type whose text was seen is left out.
pub open spec fn keeping(types: List<Type>, seen: Seq<Seq<char>>, ty: Type, text: Seq<char>) -> (
    List<Type>,
    Seq<Seq<char>>,
) {
    if seen.contains(text) {
        (types, seen)
    } else {
        (types.pushed(ty), seen.push(text))
    }
}

/// Keeps a type, unless its text was seen.
pub fn push_unique_type(kept: &mut Kept, ty: &Rc<Type>, text: String)
    ensures
        (final(kept).types, texts(final(kept).seen@)) == keeping(
            old(kept).types,
            texts(old(kept).seen@),
            **ty,
            text@,
        ),
{
    let mut i: usize = 0;
    while i < kept.seen.len()
        invariant
            i <= kept.seen@.len(),
            *kept == *old(kept),
            forall|j: int| 0 <= j < i ==> (#[trigger] kept.seen@[j])@ != text@,
        decreases kept.seen@.len() - i,
    {
        if text_eq(kept.seen[i].as_str(), text.as_str()) {
            assert(texts(kept.seen@)[i as int] == text@);
            return ;
        }
        i += 1;
    }
    proof {
        if texts(kept.seen@).contains(text@) {
            let j = choose|j: int| 0 <= j < texts(kept.seen@).len() && texts(kept.seen@)[j] == text@;
            assert(kept.seen@[j]@ != text@);
        }
    }
    kept.types = kept.types.push(share(ty));
    kept.seen.push(text);
    assert(texts(kept.seen@) =~= texts(old(kept).seen@).push(text@));
}

/// The adjustments of the types of a chain, in the order in which they are tried.
pub open spec fn adjustments(chain: List<Type>, allow_mut: bool) -> List<Type>
    decreases chain,
{
    match chain {
        List::Nil => List::Nil,
        List::Cons(base, rest) => {
            let later = adjustments(*rest, allow_mut);
            if *base is Reference {
                List::Cons(base, Rc::new(later))
            } else {
                let later = if allow_mut {
                    List::Cons(Rc::new(types::reference_to(true, *base)), Rc::new(later))
                } else {
                    later
                };
                List::Cons(
                    base,
                    Rc::new(List::Cons(Rc::new(types::reference_to(false, *base)), Rc::new(later))),
                )
            }
        },
    }
}

fn adjust(chain: &List<Type>, allow_mut: bool) -> (r: List<Type>)
    ensures
        r == adjustments(*chain, allow_mut),
    decreases chain,
{
    match chain {
        List::Nil => List::Nil,
        List::Cons(base, rest) => {
            let later = adjust(rest, allow_mut);
            if matches!(&**base, Type::Reference { lifetime: _, mutable: _, elem: _ }) {
                List::prepend(share(base), later)
            } else {
                let later = if allow_mut {
                    List::prepend(make_reference(true, share(base)), later)
                } else {
                    later
                };
                List::prepend(
                    share(base),
                    List::prepend(make_reference(false, share(base)), later),
                )
            }
        },
    }
}

/// The types of a list, each text once, after those that are kept already.
pub open spec fn distinct(
    names: Names,
    list: List<Type>,
    kept: List<Type>,
    seen: Seq<Seq<char>>,
) -> List<Type>
    decreases list,
{
    match list {
        List::Nil => kept,
        List::Cons(ty, rest) => {
            let (kept, seen) = keeping(kept, seen, *ty, render::token_text(names, *ty));
            distinct(names, *rest, kept, seen)
        },
    }
}

fn keep_distinct(names: &Names, list: &List<Type>, kept: &mut Kept)
    ensures
        final(kept).types == distinct(*names, *list, old(kept).types, texts(old(kept).seen@)),
    decreases list,
{
    match list {
        List::Nil => {},
        List::Cons(ty, rest) => {
            let text = to_token_string(names, ty);
            push_unique_type(kept, ty, text);
            keep_distinct(names, rest, kept);
        },
    }
}

/// The types under which a receiver is tried.
pub open spec fn candidates(names: Names, receiver: Type, allow_mut: bool) -> List<Type> {
    distinct(
        names,
        adjustments(types::deref_chain(receiver), allow_mut),
        List::Nil,
        Seq::empty(),
    )
}

pub fn receiver_adjustment_candidates(
    names: &Names,
    receiver: &Rc<Type>,
    allow_mut: bool,
) -> (r: List<Type>)
    ensures
        r == candidates(*names, **receiver, allow_mut),
{
    let all = adjust(&autoderef_type_chain(receiver), allow_mut);
    let mut kept = Kept { types: List::Nil, seen: Vec::new() };
    assert(texts(kept.seen@) =~= Seq::<Seq<char>>::empty());
    keep_distinct(names, &all, &mut kept);
    kept.types
}

/// Whether a type is in a list.
pub open spec fn listed(list: List<Type>, ty: Type) -> bool
    decreases list,
{
    match list {
        List::Nil => false,
        List::Cons(head, rest) => *head == ty || listed(*rest, ty),
    }
}

proof fn pushed_is_listed(list: List<Type>, item: Type, ty: Type)
    ensures
        listed(list.pushed(item), ty) <==> listed(list, ty) || ty == item,
    decreases list,
{
    match list {
        List::Nil => {
            reveal_with_fuel(listed, 2);
        },
        List::Cons(_, rest) => pushed_is_listed(list::held(&rest), item, ty),
    }
}

proof fn distinct_keeps_and_adds(
    names: Names,
    list: List<Type>,
    kept: List<Type>,
    seen: Seq<Seq<char>>,
    ty: Type,
)
    ensures
        listed(kept, ty) ==> listed(distinct(names, list, kept, seen), ty),
        listed(distinct(names, list, kept, seen), ty) ==> listed(kept, ty) || listed(list, ty),
    decreases list,
{
    if let List::Cons(head, rest) = list {
        let head = list::held(&head);
        let (kept2, seen2) = keeping(kept, seen, head, render::token_text(names, head));
        pushed_is_listed(kept, head, ty);
        distinct_keeps_and_adds(names, list::held(&rest), kept2, seen2, ty);
    }
}

proof fn adjustments_are_of_the_chain(chain: List<Type>, allow_mut: bool, ty: Type)
    requires
        listed(adjustments(chain, allow_mut), ty),
    ensures
        listed(chain, ty) || (ty matches Type::Reference { lifetime, mutable, elem } && lifetime is None
            && (mutable ==> allow_mut) && listed(chain, *elem) && !(*elem is Reference)),
    decreases chain,
{
    if let List::Cons(base, rest) = chain {
        let base = list::held(&base);
        reveal_with_fuel(listed, 5);
        let borrowed = ty == types::reference_to(false, base) || (allow_mut && ty
            == types::reference_to(true, base));
        if ty != base && (base is Reference || !borrowed) {
            adjustments_are_of_the_chain(list::held(&rest), allow_mut, ty);
        }
    }
}

/// Every candidate is a step of taking references off the receiver, or a borrow of a step that is
/// no reference, and a mutable borrow only where that is allowed.
pub proof fn candidates_are_adjustments(names: Names, receiver: Type, allow_mut: bool, ty: Type)
    requires
        listed(candidates(names, receiver, allow_mut), ty),
    ensures
        listed(types::deref_chain(receiver), ty) || (ty matches Type::Reference {
            lifetime,
            mutable,
            elem,
        } && lifetime is None && (mutable ==> allow_mut) && listed(
            types::deref_chain(receiver),
            *elem,
        ) && !(*elem is Reference)),
{
    let all = adjustments(types::deref_chain(receiver), allow_mut);
    distinct_keeps_and_adds(names, all, List::Nil, Seq::empty(), ty);
    adjustments_are_of_the_chain(types::deref_chain(receiver), allow_mut, ty);
}

/// The receiver as it is is the first candidate.
pub proof fn receiver_is_tried_first(names: Names, receiver: Type, allow_mut: bool)
    ensures
        listed(candidates(names, receiver, allow_mut), receiver),
        candidates(names, receiver, allow_mut) matches List::Cons(first, _) && *first == receiver,
{
    let chain = types::deref_chain(receiver);
    let all = adjustments(chain, allow_mut);
    let first = List::<Type>::Nil.pushed(receiver);
    let text = render::token_text(names, receiver);
    let seen = Seq::<Seq<char>>::empty().push(text);
    assert(all matches List::Cons(head, _) && *head == receiver);
    let rest = list::held(&all->Cons_1);
    assert(distinct(names, all, List::Nil, Seq::empty()) == distinct(names, rest, first, seen));
    pushed_is_listed(List::Nil, receiver, receiver);
    distinct_keeps_and_adds(names, rest, first, seen, receiver);
    distinct_keeps_the_first(names, rest, first, seen);
}

proof fn distinct_keeps_the_first(
    names: Names,
    list: List<Type>,
    kept: List<Type>,
    seen: Seq<Seq<char>>,
)
    requires
        kept is Cons,
    ensures
        distinct(names, list, kept, seen) is Cons,
        distinct(names, list, kept, seen)->Cons_0 == kept->Cons_0,
    decreases list,
{
    if let List::Cons(head, rest) = list {
        let head = list::held(&head);
        let (kept2, seen2) = keeping(kept, seen, head, render::token_text(names, head));
        distinct_keeps_the_first(names, list::held(&rest), kept2, seen2);
    }
}

/// Whether a list holds a type with a text.
pub open spec fn has_text(names: Names, list: List<Type>, text: Seq<char>) -> bool {
    exists|ty: Type| #[trigger] listed(list, ty) && render::token_text(names, ty) == text
}

proof fn distinct_keeps_every_text(
    names: Names,
    list: List<Type>,
    kept: List<Type>,
    seen: Seq<Seq<char>>,
    ty: Type,
)
    requires
        listed(list, ty) || seen.contains(render::token_text(names, ty)),
        forall|text: Seq<char>| #[trigger] seen.contains(text) ==> has_text(names, kept, text),
    ensures
        has_text(names, distinct(names, list, kept, seen), render::token_text(names, ty)),
    decreases list,
{
    if let List::Cons(head, rest) = list {
        let head = list::held(&head);
        let (kept2, seen2) = keeping(kept, seen, head, render::token_text(names, head));
        assert forall|text: Seq<char>| #[trigger] seen2.contains(text) implies has_text(
            names,
            kept2,
            text,
        ) by {
            if kept2 != kept || seen2 != seen {
                pushed_is_listed(kept, head, head);
                assert(listed(kept2, head));
                if text != render::token_text(names, head) {
                    let k = seen2.index_of(text);
                    assert(seen[k] == text);
                    assert(seen.contains(text));
                    let other = choose|other: Type| #[trigger]
                        listed(kept, other) && render::token_text(names, other) == text;
                    pushed_is_listed(kept, head, other);
                    assert(listed(kept2, other));
                }
            }
        }
        if head == ty && !seen.contains(render::token_text(names, ty)) {
            assert(seen2[seen.len() as int] == render::token_text(names, ty));
        }
        if seen.contains(render::token_text(names, ty)) {
            let k = seen.index_of(render::token_text(names, ty));
            assert(seen2[k] == render::token_text(names, ty));
        }
        distinct_keeps_every_text(names, list::held(&rest), kept2, seen2, ty);
    }
}

proof fn steps_are_adjusted(chain: List<Type>, allow_mut: bool, step: Type)
    requires
        listed(chain, step),
    ensures
        listed(adjustments(chain, allow_mut), step),
        !(step is Reference) ==> listed(
            adjustments(chain, allow_mut),
            types::reference_to(false, step),
        ),
        !(step is Reference) && allow_mut ==> listed(
            adjustments(chain, allow_mut),
            types::reference_to(true, step),
        ),
    decreases chain,
{
    if let List::Cons(base, rest) = chain {
        reveal_with_fuel(listed, 5);
        if list::held(&base) != step {
            steps_are_adjusted(list::held(&rest), allow_mut, step);
        }
    }
}

/// Every step of taking references off the receiver is tried: as it is and, where it is no
/// reference, borrowed and, where that is allowed, borrowed mutably. Of the types with one text, one
/// is tried.
pub proof fn every_step_is_tried(names: Names, receiver: Type, allow_mut: bool, step: Type)
    requires
        listed(types::deref_chain(receiver), step),
    ensures
        has_text(
            names,
            candidates(names, receiver, allow_mut),
            render::token_text(names, step),
        ),
        !(step is Reference) ==> has_text(
            names,
            candidates(names, receiver, allow_mut),
            render::token_text(names, types::reference_to(false, step)),
        ),
        !(step is Reference) && allow_mut ==> has_text(
            names,
            candidates(names, receiver, allow_mut),
            render::token_text(names, types::reference_to(true, step)),
        ),
{
    let chain = types::deref_chain(receiver);
    let all = adjustments(chain, allow_mut);
    steps_are_adjusted(chain, allow_mut, step);
    distinct_keeps_every_text(names, all, List::Nil, Seq::empty(), step);
    if !(step is Reference) {
        distinct_keeps_every_text(
            names,
            all,
            List::Nil,
            Seq::empty(),
            types::reference_to(false, step),
        );
        if allow_mut {
            distinct_keeps_every_text(
                names,
                all,
                List::Nil,
                Seq::empty(),
                types::reference_to(true, step),
            );
        }
    }
}

/// Taking references off leads from a type, through what it refers to, to the value: the type itself
/// is the first step, and what it refers to has the steps after it.
pub proof fn references_are_taken_off(ty: Type, lifetime: Option<Symbol>, mutable: bool, elem: Rc<Type>)
    ensures
        listed(types::deref_chain(ty), ty),
        ty == (Type::Reference { lifetime, mutable, elem }) || ty == Type::Paren(elem) || ty
            == Type::Group(elem) ==> types::deref_chain(ty)@ == seq![ty] + types::deref_chain(
            *elem,
        )@,
        !(ty is Reference) && !(ty is Paren) && !(ty is Group) ==> types::deref_chain(ty)@ == seq![
            ty,
        ],
{
    reveal_with_fuel(listed, 2);
    reveal_with_fuel(types::deref_chain, 2);
    reveal_with_fuel(List::items, 2);
}

/// A value is tried as it is, then borrowed, then, where that is allowed, borrowed mutably.
pub proof fn value_is_tried_before_its_borrows(names: Names, receiver: Type, allow_mut: bool)
    requires
        !(receiver is Reference),
        !(receiver is Paren),
        !(receiver is Group),
        render::token_text(names, receiver) != render::token_text(
            names,
            types::reference_to(false, receiver),
        ),
        render::token_text(names, receiver) != render::token_text(
            names,
            types::reference_to(true, receiver),
        ),
        render::token_text(names, types::reference_to(false, receiver)) != render::token_text(
            names,
            types::reference_to(true, receiver),
        ),
    ensures
        candidates(names, receiver, allow_mut)@ == if allow_mut {
            seq![
                receiver,
                types::reference_to(false, receiver),
                types::reference_to(true, receiver),
            ]
        } else {
            seq![receiver, types::reference_to(false, receiver)]
        },
        types::reference_to(allow_mut, receiver) == (Type::Reference {
            lifetime: None,
            mutable: allow_mut,
            elem: Rc::new(receiver),
        }),
{
    let a = render::token_text(names, receiver);
    let b = render::token_text(names, types::reference_to(false, receiver));
    let c = render::token_text(names, types::reference_to(true, receiver));
    let none = Seq::<Seq<char>>::empty();
    let end = List::<Type>::Nil;
    let third = List::Cons(Rc::new(types::reference_to(true, receiver)), Rc::new(end));
    let later = if allow_mut {
        third
    } else {
        end
    };
    let second = List::Cons(Rc::new(types::reference_to(false, receiver)), Rc::new(later));
    let all = List::Cons(Rc::new(receiver), Rc::new(second));
    assert(types::deref_chain(receiver) == List::Cons(Rc::new(receiver), Rc::new(end)));
    assert(adjustments(end, allow_mut) == end);
    assert(adjustments(types::deref_chain(receiver), allow_mut) == all);
    let one = end.pushed(receiver);
    let two = one.pushed(types::reference_to(false, receiver));
    let three = two.pushed(types::reference_to(true, receiver));
    let seen = none.push(a);
    let seen_two = seen.push(b);
    assert(!none.contains(a));
    assert(!seen.contains(b));
    assert(!seen_two.contains(c));
    assert(distinct(names, all, end, none) == distinct(names, second, one, seen));
    assert(distinct(names, second, one, seen) == distinct(names, later, two, seen_two));
    list::pushed_item_is_last(end, receiver);
    list::pushed_item_is_last(one, types::reference_to(false, receiver));
    list::pushed_item_is_last(two, types::reference_to(true, receiver));
    if allow_mut {
        assert(distinct(names, third, two, seen_two) == distinct(
            names,
            end,
            three,
            seen_two.push(c),
        ));
        assert(three@ == seq![
            receiver,
            types::reference_to(false, receiver),
            types::reference_to(true, receiver),
        ]);
    } else {
        assert(two@ == seq![receiver, types::reference_to(false, receiver)]);
    }
}

proof fn distinct_keeps_what_is_kept(
    names: Names,
    list: List<Type>,
    kept: List<Type>,
    seen: Seq<Seq<char>>,
    i: int,
)
    requires
        0 <= i < kept@.len(),
    ensures
        i < distinct(names, list, kept, seen)@.len(),
        distinct(names, list, kept, seen)@[i] == kept@[i],
    decreases list,
{
    if let List::Cons(head, rest) = list {
        let head = list::held(&head);
        let (kept2, seen2) = keeping(kept, seen, head, render::token_text(names, head));
        list::pushed_item_is_last(kept, head);
        assert(kept2@[i] == kept@[i]);
        distinct_keeps_what_is_kept(names, list::held(&rest), kept2, seen2, i);
    }
}

/// A reference is tried as it is, and what it refers to is tried next.
pub proof fn reference_is_tried_before_its_referent(
    names: Names,
    lifetime: Option<Symbol>,
    mutable: bool,
    elem: Rc<Type>,
    allow_mut: bool,
)
    requires
        render::token_text(names, Type::Reference { lifetime, mutable, elem })
            != render::token_text(names, *elem),
    ensures
        ({
            let tried = candidates(names, Type::Reference { lifetime, mutable, elem }, allow_mut)@;
            &&& tried.len() >= 2
            &&& tried[0] == (Type::Reference { lifetime, mutable, elem })
            &&& tried[1] == *elem
        }),
{
    let receiver = Type::Reference { lifetime, mutable, elem };
    let value = list::held(&elem);
    let a = render::token_text(names, receiver);
    let b = render::token_text(names, value);
    let end = List::<Type>::Nil;
    let none = Seq::<Seq<char>>::empty();
    let inner = adjustments(types::deref_chain(value), allow_mut);
    let chain = types::deref_chain(receiver);
    assert(chain == List::Cons(Rc::new(receiver), Rc::new(types::deref_chain(value))));
    let all = adjustments(chain, allow_mut);
    assert(all == List::Cons(Rc::new(receiver), Rc::new(inner)));
    assert(types::deref_chain(value) matches List::Cons(head, _) && *head == value);
    assert(inner matches List::Cons(head, _) && *head == value);
    let later = list::held(&inner->Cons_1);
    let one = end.pushed(receiver);
    let two = one.pushed(value);
    let seen = none.push(a);
    assert(!none.contains(a));
    assert(!seen.contains(b));
    assert(distinct(names, all, end, none) == distinct(names, inner, one, seen));
    assert(distinct(names, inner, one, seen) == distinct(names, later, two, seen.push(b)));
    list::pushed_item_is_last(end, receiver);
    list::pushed_item_is_last(one, value);
    assert(two@ == seq![receiver, value]);
    distinct_keeps_what_is_kept(names, later, two, seen.push(b), 0);
    distinct_keeps_what_is_kept(names, later, two, seen.push(b), 1);
}

} // verus!

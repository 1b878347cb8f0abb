//! A persistent singly linked list: the one sequence type of the syntax tree.
//!
//! Cells are reference counted, so a list, or the tail of one, is shared by copying a pointer.
use std::rc::Rc;
use vstd::prelude::*;

verus! {

/// Calls `Rc::clone`, which makes another pointer to the same allocation; so the new pointer leads
/// to the value that the old one leads to.
#[verifier::external_body]
pub(crate) fn share<T>(value: &Rc<T>) -> (shared: Rc<T>)
    ensures
        shared == *value,
{
    Rc::clone(value)
}

/// The value that a shared pointer leads to.
#[verifier::inline]
pub open spec fn held<T>(pointer: &Rc<T>) -> T {
    **pointer
}

/// Another pointer to the value, where there is one.
pub(crate) fn share_opt<T>(value: &Option<Rc<T>>) -> (shared: Option<Rc<T>>)
    ensures
        shared == *value,
{
    match value {
        Some(value) => Some(share(value)),
        None => None,
    }
}

/// The first of two optional values that is present.
pub open spec fn or_else<T>(first: Option<T>, second: Option<T>) -> Option<T> {
    if first is Some {
        first
    } else {
        second
    }
}

pub(crate) fn first_of<T>(first: Option<T>, second: Option<T>) -> (r: Option<T>)
    ensures
        r == or_else(first, second),
{
    match first {
        Some(value) => Some(value),
        None => second,
    }
}

/// A list of shared values.
#[derive(PartialEq, Eq, Debug)]
pub enum List<T> {
    Nil,
    Cons(Rc<T>, Rc<List<T>>),
}

impl<T> View for List<T> {
    type V = Seq<T>;

    open spec fn view(&self) -> Seq<T> {
        self.items()
    }
}

impl<T> List<T> {
    /// The items in order.
    pub open spec fn items(self) -> Seq<T>
        decreases self,
    {
        match self {
            List::Nil => Seq::empty(),
            List::Cons(head, tail) => seq![*head] + tail.items(),
        }
    }

    /// The item at a position, where there is one.
    pub open spec fn at(self, index: int) -> Option<T> {
        if 0 <= index < self@.len() {
            Some(self@[index])
        } else {
            None
        }
    }

    /// The last item, where there is one.
    pub open spec fn end(self) -> Option<T> {
        self.at(self@.len() - 1)
    }

    /// The list with one more item at its end.
    pub open spec fn pushed(self, item: T) -> List<T>
        decreases self,
    {
        match self {
            List::Nil => List::Cons(Rc::new(item), Rc::new(List::Nil)),
            List::Cons(head, tail) => List::Cons(head, Rc::new(tail.pushed(item))),
        }
    }

    /// The items of one list followed by those of another.
    pub open spec fn joined(self, other: List<T>) -> List<T>
        decreases self,
    {
        match self {
            List::Nil => other,
            List::Cons(head, tail) => List::Cons(head, Rc::new(tail.joined(other))),
        }
    }

    /// A list that shares every cell of this one.
    pub fn dup(&self) -> (r: List<T>)
        ensures
            r == *self,
    {
        match self {
            List::Nil => List::Nil,
            List::Cons(head, tail) => List::Cons(share(head), share(tail)),
        }
    }

    /// The list of one item.
    pub fn one(item: Rc<T>) -> (r: List<T>)
        ensures
            r == List::Cons(item, Rc::new(List::<T>::Nil)),
            r@ == seq![*item],
    {
        assert(List::<T>::Nil@ == Seq::<T>::empty());
        assert(seq![*item] + Seq::empty() =~= seq![*item]);
        List::Cons(item, Rc::new(List::Nil))
    }

    /// The list with an item put before it.
    pub fn prepend(item: Rc<T>, tail: List<T>) -> (r: List<T>)
        ensures
            r == List::Cons(item, Rc::new(tail)),
            r@ == seq![*item] + tail@,
    {
        List::Cons(item, Rc::new(tail))
    }

    pub fn is_empty(&self) -> (r: bool)
        ensures
            r == (*self is Nil),
            r == (self@.len() == 0),
    {
        match self {
            List::Nil => true,
            List::Cons(_, _) => false,
        }
    }

    /// The number of items; the largest `usize` stands for every larger number.
    pub fn count(&self) -> (r: usize)
        ensures
            r == (if self@.len() <= usize::MAX {
                self@.len() as int
            } else {
                usize::MAX as int
            }),
        decreases self,
    {
        match self {
            List::Nil => 0,
            List::Cons(_, tail) => {
                let rest: usize = tail.count();
                if rest == usize::MAX {
                    rest
                } else {
                    rest + 1
                }
            },
        }
    }

    pub fn nth(&self, index: usize) -> (r: Option<Rc<T>>)
        ensures
            r == (match self.at(index as int) {
                Some(item) => Some(Rc::new(item)),
                None => None::<Rc<T>>,
            }),
        decreases self,
    {
        match self {
            List::Nil => None,
            List::Cons(head, tail) => {
                if index == 0 {
                    Some(share(head))
                } else {
                    assert(self@ == seq![**head] + tail@);
                    tail.nth(index - 1)
                }
            },
        }
    }

    pub fn last(&self) -> (r: Option<Rc<T>>)
        ensures
            r == (match self.end() {
                Some(item) => Some(Rc::new(item)),
                None => None::<Rc<T>>,
            }),
        decreases self,
    {
        match self {
            List::Nil => None,
            List::Cons(head, tail) => {
                assert(self@ == seq![**head] + tail@);
                match &**tail {
                    List::Nil => Some(share(head)),
                    List::Cons(_, _) => tail.last(),
                }
            },
        }
    }

    pub fn push(&self, item: Rc<T>) -> (r: List<T>)
        ensures
            r == self.pushed(*item),
            r@ == self@.push(*item),
        decreases self,
    {
        match self {
            List::Nil => {
                assert(seq![*item] + Seq::empty() =~= Seq::empty().push(*item));
                List::Cons(item, Rc::new(List::Nil))
            },
            List::Cons(head, tail) => {
                let rest = tail.push(item);
                assert(seq![**head] + rest@ =~= (seq![**head] + tail@).push(*item));
                List::Cons(share(head), Rc::new(rest))
            },
        }
    }

    pub fn join(&self, other: &List<T>) -> (r: List<T>)
        ensures
            r == self.joined(*other),
            r@ == self@ + other@,
        decreases self,
    {
        match self {
            List::Nil => {
                assert(Seq::<T>::empty() + other@ =~= other@);
                other.dup()
            },
            List::Cons(head, tail) => {
                let rest = tail.join(other);
                assert(seq![**head] + rest@ =~= (seq![**head] + tail@) + other@);
                List::Cons(share(head), Rc::new(rest))
            },
        }
    }

    /// Whether two lists have as many items.
    pub fn same_length<U>(&self, other: &List<U>) -> (r: bool)
        ensures
            r == (self@.len() == other@.len()),
        decreases self,
    {
        match (self, other) {
            (List::Nil, List::Nil) => true,
            (List::Cons(_, a), List::Cons(_, b)) => a.same_length(b),
            _ => false,
        }
    }
}

/// Two lists with the same items are one list.
pub proof fn lists_are_their_items<T>(a: List<T>, b: List<T>)
    requires
        a@ == b@,
    ensures
        a == b,
    decreases a,
{
    match (a, b) {
        (List::Cons(x, rest), List::Cons(y, more)) => {
            assert(a@ == seq![held(&x)] + rest@);
            assert(b@ == seq![held(&y)] + more@);
            assert(a@[0] == held(&x));
            assert(b@[0] == held(&y));
            assert(rest@ =~= a@.skip(1));
            assert(more@ =~= b@.skip(1));
            lists_are_their_items(held(&rest), held(&more));
        },
        (List::Cons(x, rest), List::Nil) => {
            assert(a@ == seq![held(&x)] + rest@);
            assert(b@.len() == 0);
        },
        (List::Nil, List::Cons(y, more)) => {
            assert(b@ == seq![held(&y)] + more@);
            assert(a@.len() == 0);
        },
        (List::Nil, List::Nil) => {},
    }
}

/// An item that is put at the end of a list is its last, behind the items that it had.
pub proof fn pushed_item_is_last<T>(list: List<T>, item: T)
    ensures
        list.pushed(item)@ == list@.push(item),
    decreases list,
{
    match list {
        List::Nil => {
            reveal_with_fuel(List::items, 2);
            assert(seq![item] + Seq::empty() =~= Seq::empty().push(item));
        },
        List::Cons(head, tail) => {
            pushed_item_is_last(held(&tail), item);
            assert(seq![held(&head)] + tail.pushed(item)@ =~= list@.push(item));
        },
    }
}

/// Joined lists have the items of the first, and then those of the second.
pub proof fn joined_items_follow<T>(list: List<T>, other: List<T>)
    ensures
        list.joined(other)@ == list@ + other@,
    decreases list,
{
    match list {
        List::Nil => {
            assert(Seq::<T>::empty() + other@ =~= other@);
        },
        List::Cons(head, tail) => {
            joined_items_follow(held(&tail), other);
            assert(seq![held(&head)] + tail.joined(other)@ =~= list@ + other@);
        },
    }
}

} // verus!

//! Generic parameters: their bounds, what they are bound to, and where they are mentioned.
use crate::env::{self, contains_name};
use crate::list::{self, List};
use crate::syntax::{Bound, GenericParam, Generics, Predicate, Symbol, Type};
use crate::types::{self, trait_bound_name, type_path_ident};
use std::collections::HashMap;
use std::rc::Rc;
use vstd::prelude::*;

verus! {

// Bounds.

/// The traits that generic names are bound by, each trait once, in the order of their mention.
pub struct TypeBounds {
    map: HashMap<Symbol, List<Symbol>>,
}

impl View for TypeBounds {
    type V = Map<Symbol, List<Symbol>>;

    closed spec fn view(&self) -> Map<Symbol, List<Symbol>> {
        named_bounds(|name: Symbol| bounds_of(self.map@, name))
    }
}

/// The names that some trait bounds, with their traits.
pub open spec fn named_bounds(
    traits: spec_fn(Symbol) -> List<Symbol>,
) -> Map<Symbol, List<Symbol>> {
    Map::new(|name: Symbol| traits(name) !is Nil, traits)
}

/// The traits that a name is bound by.
pub open spec fn bounds_of(bounds: Map<Symbol, List<Symbol>>, name: Symbol) -> List<Symbol> {
    if bounds.contains_key(name) {
        bounds[name]
    } else {
        List::Nil
    }
}

/// The list with a trait that it did not have at its end.
pub open spec fn with_trait(traits: List<Symbol>, name: Symbol) -> List<Symbol> {
    if env::has_name(traits, name) {
        traits
    } else {
        traits.pushed(name)
    }
}

/// The list with all traits of another.
pub open spec fn with_traits(traits: List<Symbol>, more: List<Symbol>) -> List<Symbol>
    decreases more,
{
    match more {
        List::Nil => traits,
        List::Cons(name, rest) => with_traits(with_trait(traits, *name), *rest),
    }
}

/// The traits that bounds demand.
pub open spec fn trait_names(bounds: List<Bound>) -> List<Symbol>
    decreases bounds,
{
    match bounds {
        List::Nil => List::Nil,
        List::Cons(bound, rest) => match types::bound_name(*bound) {
            Some(name) => List::Cons(Rc::new(name), Rc::new(trait_names(*rest))),
            None => trait_names(*rest),
        },
    }
}

/// What the list of parameters says of one name, after what is said already.
pub open spec fn param_traits(
    traits: List<Symbol>,
    params: List<GenericParam>,
    name: Symbol,
) -> List<Symbol>
    decreases params,
{
    match params {
        List::Nil => traits,
        List::Cons(param, rest) => match *param {
            GenericParam::Type { name: declared, bounds } => if declared == name {
                param_traits(with_traits(traits, trait_names(bounds)), *rest, name)
            } else {
                param_traits(traits, *rest, name)
            },
            GenericParam::Other(_) => param_traits(traits, *rest, name),
        },
    }
}

/// What the `where` clause says of one name, after what is said already.
pub open spec fn where_traits(
    traits: List<Symbol>,
    predicates: List<Predicate>,
    name: Symbol,
) -> List<Symbol>
    decreases predicates,
{
    match predicates {
        List::Nil => traits,
        List::Cons(predicate, rest) => match *predicate {
            Predicate::Type { bounded, bounds } => if types::path_name_of(*bounded) == Some(name) {
                where_traits(with_traits(traits, trait_names(bounds)), *rest, name)
            } else {
                where_traits(traits, *rest, name)
            },
            Predicate::Other(_) => where_traits(traits, *rest, name),
        },
    }
}

/// The traits that a declaration binds a name by: those at the parameter, then those of the `where`
/// clause.
pub open spec fn declared_bounds(generics: Generics, name: Symbol) -> List<Symbol> {
    where_traits(param_traits(List::Nil, generics.params, name), generics.predicates, name)
}

/// All bounds that a declaration states.
pub open spec fn all_declared(generics: Generics) -> Map<Symbol, List<Symbol>> {
    named_bounds(|name: Symbol| declared_bounds(generics, name))
}

/// Bounds with others added, name by name.
pub open spec fn merged_bounds(
    bounds: Map<Symbol, List<Symbol>>,
    extra: Map<Symbol, List<Symbol>>,
) -> Map<Symbol, List<Symbol>> {
    named_bounds(|name: Symbol| with_traits(bounds_of(bounds, name), bounds_of(extra, name)))
}

impl TypeBounds {
    /// No bounds.
    pub fn new() -> (r: TypeBounds)
        ensures
            r@ == Map::<Symbol, List<Symbol>>::empty(),
    {
        let bounds = TypeBounds { map: HashMap::new() };
        assert(bounds@ =~= Map::empty());
        bounds
    }

    /// The traits that a name is bound by.
    pub fn get(&self, name: Symbol) -> (r: List<Symbol>)
        ensures
            r == bounds_of(self@, name),
    {
        match self.map.get(&name) {
            Some(traits) => traits.dup(),
            None => List::Nil,
        }
    }
}

/// Adds a trait to what a name is bound by, unless it is there.
pub fn insert_unique_bound(bounds: &mut TypeBounds, name: Symbol, trait_name: Symbol)
    ensures
        final(bounds)@ == old(bounds)@.insert(
            name,
            with_trait(bounds_of(old(bounds)@, name), trait_name),
        ),
{
    let traits = bounds.get(name);
    let traits = if contains_name(&traits, trait_name) {
        traits
    } else {
        traits.push(Rc::new(trait_name))
    };
    let ghost before = bounds@;
    bounds.map.insert(name, traits);
    proof {
        pushed_name_is_there(bounds_of(before, name), trait_name);
        assert(bounds@ =~= before.insert(name, traits));
    }
}

fn insert_bounds(bounds: &mut TypeBounds, name: Symbol, demanded: &List<Bound>)
    ensures
        bounds_of(final(bounds)@, name) == with_traits(
            bounds_of(old(bounds)@, name),
            trait_names(*demanded),
        ),
        forall|other: Symbol|
            other != name ==> #[trigger] bounds_of(final(bounds)@, other) == bounds_of(
                old(bounds)@,
                other,
            ),
    decreases demanded,
{
    match demanded {
        List::Nil => {},
        List::Cons(bound, rest) => {
            if let Some(trait_name) = trait_bound_name(bound) {
                insert_unique_bound(bounds, name, trait_name);
            }
            insert_bounds(bounds, name, rest);
        },
    }
}

fn insert_param_bounds(bounds: &mut TypeBounds, params: &List<GenericParam>)
    ensures
        forall|name: Symbol| #[trigger]
            bounds_of(final(bounds)@, name) == param_traits(
                bounds_of(old(bounds)@, name),
                *params,
                name,
            ),
    decreases params,
{
    match params {
        List::Nil => {},
        List::Cons(param, rest) => {
            match &**param {
                GenericParam::Type { name, bounds: demanded } => {
                    insert_bounds(bounds, *name, demanded);
                },
                GenericParam::Other(_) => {},
            }
            insert_param_bounds(bounds, rest);
        },
    }
}

fn insert_where_bounds(bounds: &mut TypeBounds, predicates: &List<Predicate>)
    ensures
        forall|name: Symbol| #[trigger]
            bounds_of(final(bounds)@, name) == where_traits(
                bounds_of(old(bounds)@, name),
                *predicates,
                name,
            ),
    decreases predicates,
{
    match predicates {
        List::Nil => {},
        List::Cons(predicate, rest) => {
            match &**predicate {
                Predicate::Type { bounded, bounds: demanded } => {
                    if let Some(name) = type_path_ident(bounded) {
                        insert_bounds(bounds, name, demanded);
                    }
                },
                Predicate::Other(_) => {},
            }
            insert_where_bounds(bounds, rest);
        },
    }
}

/// The bounds that a declaration states.
pub fn generic_type_bounds(generics: &Generics) -> (r: TypeBounds)
    ensures
        r@ == all_declared(*generics),
{
    let mut bounds = TypeBounds::new();
    insert_param_bounds(&mut bounds, &generics.params);
    insert_where_bounds(&mut bounds, &generics.predicates);
    proof {
        assert forall|name: Symbol| #[trigger] bounds_of(bounds@, name) == declared_bounds(
            *generics,
            name,
        ) by {}
        bounds_are_their_names(&bounds);
        assert(bounds@ =~= all_declared(*generics));
    }
    bounds
}

/// Bounds are what they say of each name.
proof fn bounds_are_their_names(bounds: &TypeBounds)
    ensures
        bounds@ == named_bounds(|name: Symbol| bounds_of(bounds@, name)),
{
    assert(bounds@ =~= named_bounds(|name: Symbol| bounds_of(bounds@, name)));
}

fn insert_traits(bounds: &mut TypeBounds, name: Symbol, traits: &List<Symbol>)
    ensures
        bounds_of(final(bounds)@, name) == with_traits(bounds_of(old(bounds)@, name), *traits),
        forall|other: Symbol|
            other != name ==> #[trigger] bounds_of(final(bounds)@, other) == bounds_of(
                old(bounds)@,
                other,
            ),
    decreases traits,
{
    match traits {
        List::Nil => {},
        List::Cons(trait_name, rest) => {
            insert_unique_bound(bounds, name, **trait_name);
            insert_traits(bounds, name, rest);
        },
    }
}

/// Adds bounds to others, name by name.
pub fn merge_generic_type_bounds(bounds: &mut TypeBounds, extra: &TypeBounds)
    ensures
        final(bounds)@ == merged_bounds(old(bounds)@, extra@),
{
    let ghost before = bounds@;
    for name in iter: extra.map.keys()
        invariant
            before == old(bounds)@,
            iter.seq().no_duplicates(),
            iter.seq().unref().to_set() == extra.map@.dom(),
            forall|n: Symbol| #[trigger] bounds_of(bounds@, n) == (if exists|k: int|
                0 <= k < iter.index() && *#[trigger] iter.seq()[k] == n {
                with_traits(bounds_of(before, n), bounds_of(extra@, n))
            } else {
                bounds_of(before, n)
            }),
    {
        let traits = extra.get(*name);
        insert_traits(bounds, *name, &traits);
    }
    proof {
        assert forall|n: Symbol| #[trigger] bounds_of(bounds@, n) == with_traits(
            bounds_of(before, n),
            bounds_of(extra@, n),
        ) by {
            if extra.map@.contains_key(n) {
                assert(extra.map@.dom().contains(n));
            }
        }
        bounds_are_their_names(bounds);
        assert(bounds@ =~= merged_bounds(before, extra@));
    }
}

/// A trait that is there already is not added again.
pub proof fn bounds_hold_a_trait_once(traits: List<Symbol>, name: Symbol)
    ensures
        with_trait(with_trait(traits, name), name) == with_trait(traits, name),
        env::has_name(with_trait(traits, name), name),
{
    pushed_name_is_there(traits, name);
}

proof fn pushed_name_is_there(traits: List<Symbol>, name: Symbol)
    ensures
        env::has_name(traits.pushed(name), name),
    decreases traits,
{
    match traits {
        List::Nil => {
            reveal_with_fuel(env::has_name, 2);
        },
        List::Cons(_, rest) => pushed_name_is_there(list::held(&rest), name),
    }
}

} // verus!

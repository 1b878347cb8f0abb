//! What holds of types and constants: what replaces a generic name, what a type names, what is bound
//! by which traits, and what diverges.
use crate::ask;
use crate::env::{self, Binding, Env, GenericVars, ParamBinding, Stop};
use crate::exprs;
use crate::generics;
use crate::list::{self, List};
use crate::names;
use crate::resolvable;
use crate::scalar;
use crate::substitute;
use crate::syntax::{
    Block, Bound, Expr, ExprKind, GenericArg, GenericParam, Generics, Lit, Path, PathArgs, Predicate,
    Segment, Stmt, Symbol, Type,
};
use crate::types;
use std::rc::Rc;
use vstd::prelude::*;

verus! {

// Replacing generic names.

/// What is known of a generic name is in the first entry for it.
pub proof fn first_binding_counts(bindings: List<ParamBinding>, at: int)
    requires
        0 <= at < bindings@.len(),
        forall|i: int| 0 <= i < at ==> (#[trigger] bindings@[i]).name != bindings@[at].name,
    ensures
        substitute::binding_of(bindings, bindings@[at].name) == Some(bindings@[at].binding),
    decreases bindings,
{
    if let List::Cons(first, rest) = bindings {
        assert(bindings@ == seq![list::held(&first)] + rest@);
        assert(bindings@[0] == list::held(&first));
        if at > 0 {
            assert(bindings@[at] == rest@[at - 1]);
            assert forall|i: int| 0 <= i < at - 1 implies (#[trigger] rest@[i]).name != rest@[at
                - 1].name by {
                assert(bindings@[i + 1] == rest@[i]);
            }
            first_binding_counts(list::held(&rest), at - 1);
        }
    }
}

/// A type that is a generic name is replaced by the type that the name is bound to; it is not known
/// where the name has no binding yet, or is bound to a constant. A name that is no generic name stays.
pub proof fn bound_name_is_replaced(
    bindings: List<ParamBinding>,
    name: Symbol,
    binding: Rc<Binding>,
    ty: Rc<Type>,
)
    ensures
        substitute::binding_of(bindings, name) == Some(Some(binding)) && binding.is_type
            && binding.as_type == Some(ty) ==> substitute::substituted(
            bindings,
            scalar::named_type(name),
        ) == Some(ty),
        substitute::binding_of(bindings, name) == Some(Some(binding)) && !binding.is_type
            ==> substitute::substituted(bindings, scalar::named_type(name)) is None,
        substitute::binding_of(bindings, name) == Some(None::<Rc<Binding>>)
            ==> substitute::substituted(bindings, scalar::named_type(name)) is None,
        substitute::binding_of(bindings, name) is None ==> substitute::substituted(
            bindings,
            scalar::named_type(name),
        ) == Some(Rc::new(scalar::named_type(name))),
{
    assert(types::bare_name(scalar::named_type(name)) == Some(name));
    let segment = Rc::new(Segment { ident: name, args: PathArgs::Bare });
    assert(substitute::substituted_segments(bindings, List::Nil) == Some(List::<Segment>::Nil));
    assert(substitute::substituted_segments(bindings, List::Cons(segment, Rc::new(List::Nil)))
        == Some(List::Cons(segment, Rc::new(List::<Segment>::Nil))));
    assert(scalar::named_type(name) == (Type::Path {
        qself: None,
        path: Path { global: false, segments: List::Cons(segment, Rc::new(List::Nil)) },
    }));
}

/// Replacing reaches into references, pointers, slices and arrays, and changes nothing else of them.
pub proof fn replacing_reaches_inside(
    bindings: List<ParamBinding>,
    lifetime: Option<Symbol>,
    mutable: bool,
    elem: Rc<Type>,
    own: Rc<Type>,
    len: Rc<Expr>,
    count: Rc<Expr>,
)
    requires
        substitute::substituted(bindings, *elem) == Some(own),
        substitute::substituted_const(bindings, *len) == Some(count),
    ensures
        substitute::substituted(bindings, Type::Reference { lifetime, mutable, elem }) == Some(
            Rc::new(Type::Reference { lifetime, mutable, elem: own }),
        ),
        substitute::substituted(bindings, Type::Ptr { mutable, elem }) == Some(
            Rc::new(Type::Ptr { mutable, elem: own }),
        ),
        substitute::substituted(bindings, Type::Slice(elem)) == Some(Rc::new(Type::Slice(own))),
        substitute::substituted(bindings, Type::Array { elem, len }) == Some(
            Rc::new(Type::Array { elem: own, len: count }),
        ),
{
    reveal_with_fuel(substitute::substituted, 2);
}

/// The items of a tuple are replaced one by one, each in its place.
pub proof fn tuple_is_replaced_item_by_item(
    bindings: List<ParamBinding>,
    items: List<Type>,
    i: int,
)
    requires
        0 <= i < items@.len(),
        substitute::all_substituted(bindings, items) is Some,
    ensures
        substitute::substituted(bindings, Type::Tuple(items)) == Some(
            Rc::new(Type::Tuple(substitute::all_substituted(bindings, items)->0)),
        ),
        substitute::all_substituted(bindings, items)->0@.len() == items@.len(),
        substitute::substituted(bindings, items@[i]) == Some(
            Rc::new(substitute::all_substituted(bindings, items)->0@[i]),
        ),
{
    reveal_with_fuel(substitute::substituted, 2);
    items_are_replaced_in_place(bindings, items, i);
}

proof fn items_are_replaced_in_place(bindings: List<ParamBinding>, items: List<Type>, i: int)
    requires
        substitute::all_substituted(bindings, items) is Some,
    ensures
        substitute::all_substituted(bindings, items)->0@.len() == items@.len(),
        0 <= i < items@.len() ==> substitute::substituted(bindings, items@[i]) == Some(
            Rc::new(substitute::all_substituted(bindings, items)->0@[i]),
        ),
    decreases items,
{
    reveal_with_fuel(substitute::all_substituted, 2);
    if let List::Cons(first, rest) = items {
        assert(items@ == seq![list::held(&first)] + rest@);
        items_are_replaced_in_place(bindings, list::held(&rest), i - 1);
        let own = substitute::substituted(bindings, list::held(&first))->0;
        let tail = substitute::all_substituted(bindings, list::held(&rest))->0;
        let all = substitute::all_substituted(bindings, items)->0;
        assert(all@ == seq![list::held(&own)] + tail@);
        if 0 < i < items@.len() {
            assert(items@[i] == rest@[i - 1]);
            assert(all@[i] == tail@[i - 1]);
        }
    }
}

/// The generic arguments of a path are replaced one by one, each in its place.
pub proof fn arguments_are_replaced_one_by_one(
    bindings: List<ParamBinding>,
    args: List<GenericArg>,
    i: int,
)
    requires
        substitute::substituted_args(bindings, args) is Some,
    ensures
        substitute::substituted_args(bindings, args)->0@.len() == args@.len(),
        0 <= i < args@.len() ==> substitute::substituted_arg(bindings, args@[i]) == Some(
            Rc::new(substitute::substituted_args(bindings, args)->0@[i]),
        ),
    decreases args,
{
    reveal_with_fuel(substitute::substituted_args, 2);
    if let List::Cons(first, rest) = args {
        assert(args@ == seq![list::held(&first)] + rest@);
        arguments_are_replaced_one_by_one(bindings, list::held(&rest), i - 1);
        let own = substitute::substituted_arg(bindings, list::held(&first))->0;
        let tail = substitute::substituted_args(bindings, list::held(&rest))->0;
        let all = substitute::substituted_args(bindings, args)->0;
        assert(all@ == seq![list::held(&own)] + tail@);
        if 0 < i < args@.len() {
            assert(args@[i] == rest@[i - 1]);
            assert(all@[i] == tail@[i - 1]);
        }
    }
}

/// A generic argument that is a generic name is replaced by what the name is bound to as an argument;
/// lifetimes stay.
pub proof fn bound_argument_is_replaced(
    bindings: List<ParamBinding>,
    name: Symbol,
    binding: Rc<Binding>,
    lifetime: Symbol,
)
    requires
        substitute::binding_of(bindings, name) == Some(Some(binding)),
    ensures
        substitute::substituted_arg(
            bindings,
            GenericArg::Type(Rc::new(scalar::named_type(name))),
        ) == binding.as_arg,
        substitute::substituted_arg(bindings, GenericArg::Lifetime(lifetime)) == Some(
            Rc::new(GenericArg::Lifetime(lifetime)),
        ),
{
    assert(types::bare_name(scalar::named_type(name)) == Some(name));
    reveal_with_fuel(substitute::substituted_arg, 2);
}

/// A name in a constant is replaced by the expression that it is bound to; a name that is no generic
/// name stays, and one without a binding is not known.
pub proof fn bound_constant_is_replaced(
    bindings: List<ParamBinding>,
    id: Option<u64>,
    path: Path,
    name: Symbol,
)
    requires
        exprs::single_name(path) == Some(name),
    ensures
        ({
            let expr = Expr { id, kind: ExprKind::Path { qself: None, path } };
            match substitute::binding_of(bindings, name) {
                None => substitute::substituted_const(bindings, expr) == Some(Rc::new(expr)),
                Some(None) => substitute::substituted_const(bindings, expr) is None,
                Some(Some(binding)) => substitute::substituted_const(bindings, expr)
                    == binding.as_expr,
            }
        }),
{
    reveal_with_fuel(substitute::substituted_const, 2);
}

/// A type mentions a name where one of its parts does.
pub proof fn mention_is_in_a_part(name: Symbol, items: List<Type>, i: int)
    requires
        0 <= i < items@.len(),
        substitute::mentions(items@[i], name),
    ensures
        substitute::mentions(Type::Tuple(items), name),
        substitute::mentions(Type::Slice(Rc::new(items@[i])), name),
        forall|lifetime: Option<Symbol>, mutable: bool|
            #[trigger] substitute::mentions(
                Type::Reference { lifetime, mutable, elem: Rc::new(items@[i]) },
                name,
            ),
        substitute::mentions(scalar::named_type(name), name),
{
    items_mention(name, items, i);
    reveal_with_fuel(substitute::mentions, 2);
    reveal_with_fuel(substitute::segments_mention, 2);
}

proof fn items_mention(name: Symbol, items: List<Type>, i: int)
    requires
        0 <= i < items@.len(),
        substitute::mentions(items@[i], name),
    ensures
        substitute::any_mentions(items, name),
    decreases items,
{
    reveal_with_fuel(substitute::any_mentions, 2);
    if let List::Cons(first, rest) = items {
        assert(items@ == seq![list::held(&first)] + rest@);
        assert(items@[0] == list::held(&first));
        if i > 0 {
            assert(items@[i] == rest@[i - 1]);
            items_mention(name, list::held(&rest), i - 1);
        }
    }
}

// Types that can be resolved.

/// A type without aliases can be resolved where its parts can: a reference and a pointer where their
/// referent can, a tuple where all of its items can.
pub proof fn parts_decide_over_a_type(
    env: Env,
    limit: nat,
    ty: Type,
    items: List<Type>,
    elem: Rc<Type>,
    lifetime: Option<Symbol>,
    mutable: bool,
)
    requires
        ask::normalized(env, ty) matches Ok(Ok(own)) && *own == ty,
    ensures
        ty == (Type::Reference { lifetime, mutable, elem }) ==> resolvable::resolvable(
            env,
            limit + 1,
            ty,
        ) == resolvable::resolvable(env, limit, *elem) && resolvable::fully_known(
            env,
            limit + 1,
            ty,
        ) == resolvable::fully_known(env, limit, *elem),
        ty == (Type::Ptr { mutable, elem }) ==> resolvable::resolvable(env, limit + 1, ty)
            == resolvable::resolvable(env, limit, *elem) && resolvable::fully_known(
            env,
            limit + 1,
            ty,
        ) == resolvable::fully_known(env, limit, *elem),
        ty == Type::Tuple(items) ==> (resolvable::resolvable(env, limit + 1, ty) == Ok::<
            bool,
            Stop,
        >(true) <==> forall|i: int|
            0 <= i < items@.len() ==> resolvable::resolvable(env, limit, #[trigger] items@[i])
                == Ok::<bool, Stop>(true)),
        ty == Type::Tuple(items) ==> (resolvable::fully_known(env, limit + 1, ty) == Ok::<
            bool,
            Stop,
        >(true) <==> forall|i: int|
            0 <= i < items@.len() ==> resolvable::fully_known(env, limit, #[trigger] items@[i])
                == Ok::<bool, Stop>(true)),
        ty is Infer || ty is ImplTrait ==> resolvable::fully_known(env, limit + 1, ty) == Ok::<
            bool,
            Stop,
        >(false),
{
    items_are_resolved(env, limit, items);
    reveal_with_fuel(resolvable::resolvable, 2);
    reveal_with_fuel(resolvable::fully_known, 2);
}

proof fn items_are_resolved(env: Env, limit: nat, items: List<Type>)
    ensures
        resolvable::all_resolvable(env, limit, items) == Ok::<bool, Stop>(true) <==> forall|i: int|
            0 <= i < items@.len() ==> resolvable::resolvable(env, limit, #[trigger] items@[i])
                == Ok::<bool, Stop>(true),
        resolvable::all_fully_known(env, limit, items) == Ok::<bool, Stop>(true) <==> forall|i: int|
            0 <= i < items@.len() ==> resolvable::fully_known(env, limit, #[trigger] items@[i])
                == Ok::<bool, Stop>(true),
    decreases items,
{
    reveal_with_fuel(resolvable::all_resolvable, 2);
    reveal_with_fuel(resolvable::all_fully_known, 2);
    if let List::Cons(first, rest) = items {
        assert(items@ == seq![list::held(&first)] + rest@);
        assert(items@[0] == list::held(&first));
        items_are_resolved(env, limit, list::held(&rest));
        assert forall|i: int| 0 <= i < rest@.len() implies #[trigger] rest@[i] == items@[i + 1] by {}
        if forall|i: int|
            0 <= i < items@.len() ==> resolvable::resolvable(env, limit, #[trigger] items@[i])
                == Ok::<bool, Stop>(true) {
            assert forall|i: int| 0 <= i < rest@.len() implies resolvable::resolvable(
                env,
                limit,
                #[trigger] rest@[i],
            ) == Ok::<bool, Stop>(true) by {
                assert(rest@[i] == items@[i + 1]);
            }
        }
        if forall|i: int|
            0 <= i < items@.len() ==> resolvable::fully_known(env, limit, #[trigger] items@[i])
                == Ok::<bool, Stop>(true) {
            assert forall|i: int| 0 <= i < rest@.len() implies resolvable::fully_known(
                env,
                limit,
                #[trigger] rest@[i],
            ) == Ok::<bool, Stop>(true) by {
                assert(rest@[i] == items@[i + 1]);
            }
        }
        if resolvable::all_resolvable(env, limit, items) == Ok::<bool, Stop>(true) {
            assert forall|i: int| 0 <= i < items@.len() implies resolvable::resolvable(
                env,
                limit,
                #[trigger] items@[i],
            ) == Ok::<bool, Stop>(true) by {
                if i > 0 {
                    assert(items@[i] == rest@[i - 1]);
                }
            }
        }
        if resolvable::all_fully_known(env, limit, items) == Ok::<bool, Stop>(true) {
            assert forall|i: int| 0 <= i < items@.len() implies resolvable::fully_known(
                env,
                limit,
                #[trigger] items@[i],
            ) == Ok::<bool, Stop>(true) by {
                if i > 0 {
                    assert(items@[i] == rest@[i - 1]);
                }
            }
        }
    }
}

/// A bare name can be resolved where it is a generic name or that of a type that stands on its own; it
/// is known in full where, being generic, it is bound, or where it is that of such a type and does not
/// look like a parameter.
pub proof fn bare_name_decides(env: Env, limit: nat, name: Symbol)
    requires
        name != names::OPTION,
        ask::normalized(env, scalar::named_type(name)) matches Ok(Ok(own)) && *own
            == scalar::named_type(name),
    ensures
        resolvable::resolvable(env, limit + 1, scalar::named_type(name)) == Ok::<bool, Stop>(
            env.generic_vars.declared@.contains(name) || resolvable::names_a_type(env, name),
        ),
        env.generic_vars.declared@.contains(name) ==> resolvable::fully_known(
            env,
            limit + 1,
            scalar::named_type(name),
        ) == Ok::<bool, Stop>(
            env.generic_vars.inst_types@.contains(name) || exprs::const_bound(
                *env.generic_vars,
                name,
            ),
        ),
        !env.generic_vars.declared@.contains(name) && !env.generic_vars.inst_types@.contains(name)
            && !resolvable::names_a_type(env, name) ==> resolvable::fully_known(
            env,
            limit + 1,
            scalar::named_type(name),
        ) == Ok::<bool, Stop>(false),
{
    listed_names(list::held(&env.generic_vars).declared, name);
    listed_names(list::held(&env.generic_vars).inst_types, name);
    reveal_with_fuel(List::items, 3);
    let ty = scalar::named_type(name);
    reveal_with_fuel(resolvable::resolvable, 2);
    reveal_with_fuel(resolvable::fully_known, 2);
}

proof fn listed_names(list: List<Symbol>, name: Symbol)
    ensures
        env::has_name(list, name) == list@.contains(name),
    decreases list,
{
    if let List::Cons(first, rest) = list {
        assert(list@ == seq![list::held(&first)] + rest@);
        assert(list@[0] == list::held(&first));
        listed_names(list::held(&rest), name);
        if rest@.contains(name) {
            let k = rest@.index_of(name);
            assert(list@[k + 1] == name);
        }
        if list@.contains(name) {
            let k = list@.index_of(name);
            if k > 0 {
                assert(rest@[k - 1] == name);
            }
        }
    }
}

// Bounds.

/// Traits that are added are there, and those that there were stay.
pub proof fn added_traits_are_there(traits: List<Symbol>, more: List<Symbol>, name: Symbol)
    ensures
        generics::with_traits(traits, more)@.contains(name) == (traits@.contains(name)
            || more@.contains(name)),
    decreases more,
{
    if let List::Cons(first, rest) = more {
        assert(more@ == seq![list::held(&first)] + rest@);
        assert(more@[0] == list::held(&first));
        let next = generics::with_trait(traits, list::held(&first));
        added_traits_are_there(next, list::held(&rest), name);
        listed_names(traits, list::held(&first));
        list::pushed_item_is_last(traits, list::held(&first));
        if !traits@.contains(list::held(&first)) {
            assert(next@ == traits@.push(list::held(&first)));
            assert(next@[traits@.len() as int] == list::held(&first));
            if traits@.contains(name) {
                let k = traits@.index_of(name);
                assert(next@[k] == name);
            }
            if next@.contains(name) {
                let k = next@.index_of(name);
                if k < traits@.len() {
                    assert(traits@[k] == name);
                }
            }
        }
        if rest@.contains(name) {
            let k = rest@.index_of(name);
            assert(more@[k + 1] == name);
        }
        if more@.contains(name) {
            let k = more@.index_of(name);
            if k > 0 {
                assert(rest@[k - 1] == name);
            }
        }
    }
}

/// A trait that is named at a parameter or in the `where` clause for it is among the parameter's
/// bounds.
pub proof fn declared_traits_are_bounds(
    generics: Generics,
    at: int,
    name: Symbol,
    bounds: List<Bound>,
    which: Symbol,
)
    requires
        0 <= at < generics.params@.len(),
        generics.params@[at] == (GenericParam::Type { name, bounds }),
        generics::trait_names(bounds)@.contains(which),
    ensures
        generics::declared_bounds(generics, name)@.contains(which),
{
    parameter_keeps_its_traits(List::Nil, generics.params, name, at, bounds, which);
    clause_keeps_traits(
        generics::param_traits(List::Nil, generics.params, name),
        generics.predicates,
        name,
        which,
    );
}

proof fn parameter_keeps_its_traits(
    traits: List<Symbol>,
    params: List<GenericParam>,
    name: Symbol,
    at: int,
    bounds: List<Bound>,
    which: Symbol,
)
    requires
        traits@.contains(which) || (0 <= at < params@.len() && params@[at] == (GenericParam::Type {
            name,
            bounds,
        }) && generics::trait_names(bounds)@.contains(which)),
    ensures
        generics::param_traits(traits, params, name)@.contains(which),
    decreases params,
{
    if let List::Cons(param, rest) = params {
        assert(params@ == seq![list::held(&param)] + rest@);
        assert(params@[0] == list::held(&param));
        if 0 < at < params@.len() {
            assert(params@[at] == rest@[at - 1]);
        }
        match list::held(&param) {
            GenericParam::Type { name: declared, bounds: own } => {
                if declared == name {
                    added_traits_are_there(traits, generics::trait_names(own), which);
                    parameter_keeps_its_traits(
                        generics::with_traits(traits, generics::trait_names(own)),
                        list::held(&rest),
                        name,
                        at - 1,
                        bounds,
                        which,
                    );
                } else {
                    parameter_keeps_its_traits(
                        traits,
                        list::held(&rest),
                        name,
                        at - 1,
                        bounds,
                        which,
                    );
                }
            },
            GenericParam::Other(_) => {
                parameter_keeps_its_traits(traits, list::held(&rest), name, at - 1, bounds, which);
            },
        }
    }
}

proof fn clause_keeps_traits(
    traits: List<Symbol>,
    predicates: List<Predicate>,
    name: Symbol,
    which: Symbol,
)
    requires
        traits@.contains(which),
    ensures
        generics::where_traits(traits, predicates, name)@.contains(which),
    decreases predicates,
{
    if let List::Cons(predicate, rest) = predicates {
        match list::held(&predicate) {
            Predicate::Type { bounded, bounds } => {
                if types::path_name_of(list::held(&bounded)) == Some(name) {
                    added_traits_are_there(traits, generics::trait_names(bounds), which);
                    clause_keeps_traits(
                        generics::with_traits(traits, generics::trait_names(bounds)),
                        list::held(&rest),
                        name,
                        which,
                    );
                } else {
                    clause_keeps_traits(traits, list::held(&rest), name, which);
                }
            },
            Predicate::Other(_) => {
                clause_keeps_traits(traits, list::held(&rest), name, which);
            },
        }
    }
}

/// A trait that the `where` clause names for a parameter is among the parameter's bounds.
pub proof fn clause_traits_are_bounds(
    traits: List<Symbol>,
    predicates: List<Predicate>,
    name: Symbol,
    at: int,
    bounded: Rc<Type>,
    bounds: List<Bound>,
    which: Symbol,
)
    requires
        0 <= at < predicates@.len(),
        predicates@[at] == (Predicate::Type { bounded, bounds }),
        types::path_name_of(*bounded) == Some(name),
        generics::trait_names(bounds)@.contains(which),
    ensures
        generics::where_traits(traits, predicates, name)@.contains(which),
    decreases predicates,
{
    if let List::Cons(predicate, rest) = predicates {
        assert(predicates@ == seq![list::held(&predicate)] + rest@);
        assert(predicates@[0] == list::held(&predicate));
        let next = match list::held(&predicate) {
            Predicate::Type { bounded: own, bounds: named } => if types::path_name_of(
                list::held(&own),
            ) == Some(name) {
                generics::with_traits(traits, generics::trait_names(named))
            } else {
                traits
            },
            Predicate::Other(_) => traits,
        };
        if at == 0 {
            added_traits_are_there(traits, generics::trait_names(bounds), which);
            clause_keeps_traits(next, list::held(&rest), name, which);
        } else {
            assert(predicates@[at] == rest@[at - 1]);
            clause_traits_are_bounds(
                next,
                list::held(&rest),
                name,
                at - 1,
                bounded,
                bounds,
                which,
            );
        }
    }
}

/// Merged bounds hold a trait for a name where one of the two does.
pub proof fn merged_bounds_hold_both(
    a: Map<Symbol, List<Symbol>>,
    b: Map<Symbol, List<Symbol>>,
    name: Symbol,
    which: Symbol,
)
    ensures
        generics::bounds_of(generics::merged_bounds(a, b), name)@.contains(which) == (
        generics::bounds_of(a, name)@.contains(which) || generics::bounds_of(
            b,
            name,
        )@.contains(which)),
{
    let own = generics::with_traits(generics::bounds_of(a, name), generics::bounds_of(b, name));
    added_traits_are_there(generics::bounds_of(a, name), generics::bounds_of(b, name), which);
    assert(own is Nil ==> own@.len() == 0);
}

// Ranks.

/// The rank of a type with a shape is the number of its dimensions.
pub proof fn rank_is_the_number_of_dimensions(
    vars: GenericVars,
    name: Symbol,
    dims: List<Expr>,
)
    requires
        dims@.len() <= usize::MAX,
    ensures
        types::type_rank(vars, types::shaped_type(name, dims)) == Some(dims@.len() as usize),
{
    reveal_with_fuel(List::items, 3);
    reveal_with_fuel(exprs::shape_rank, 3);
    reveal_with_fuel(types::args_rank, 2);
}

/// The rank of a type whose argument is a bound array of constants is the length of the array.
pub proof fn rank_is_the_length_of_the_array(
    vars: GenericVars,
    args: List<GenericArg>,
    name: Symbol,
    dims: List<i32>,
    rest: List<GenericArg>,
)
    requires
        env::array_of(vars.inst_array, name) == Some(dims),
        dims@.len() <= usize::MAX,
        args == List::Cons(
            Rc::new(GenericArg::Type(Rc::new(scalar::named_type(name)))),
            Rc::new(rest),
        ),
    ensures
        types::args_rank(vars, args) == Some(dims@.len() as usize),
{
    reveal_with_fuel(List::items, 3);
    assert(scalar::named_type(name) matches Type::Path { qself, path } && qself is None
        && exprs::last_name(path) == Some(name));
    reveal_with_fuel(types::args_rank, 2);
}

/// Only the length of an array that is a path is replaced by the rank, through references and tuples.
pub proof fn rank_replaces_named_lengths(
    item: Rc<Type>,
    id: Option<u64>,
    path: Path,
    number: Lit,
    own: Option<Rc<Type>>,
    rank: usize,
    lifetime: Option<Symbol>,
    mutable: bool,
)
    ensures
        types::with_rank(
            Type::Array {
                elem: item,
                len: Rc::new(Expr { id, kind: ExprKind::Path { qself: None, path } }),
            },
            rank,
        ) == (Type::Array { elem: item, len: Rc::new(exprs::count_expr(rank)) }),
        types::with_rank(
            Type::Array {
                elem: item,
                len: Rc::new(Expr { id, kind: ExprKind::Lit { lit: number, ty: own } }),
            },
            rank,
        ) == (Type::Array {
            elem: item,
            len: Rc::new(Expr { id, kind: ExprKind::Lit { lit: number, ty: own } }),
        }),
        types::with_rank(Type::Reference { lifetime, mutable, elem: item }, rank) == (
        Type::Reference { lifetime, mutable, elem: Rc::new(types::with_rank(*item, rank)) }),
{
    reveal_with_fuel(types::with_rank, 2);
}

// Divergence.

/// A `return` diverges; a block does where one of its statements does; a conditional does only where
/// both of its branches do.
pub proof fn only_returns_diverge(
    id: Option<u64>,
    value: Option<Rc<Expr>>,
    cond: Rc<Expr>,
    then_branch: Block,
    other: Rc<Expr>,
    block: Block,
    lit: Lit,
    ty: Option<Rc<Type>>,
)
    ensures
        exprs::diverges(Expr { id, kind: ExprKind::Return(value) }),
        !exprs::diverges(Expr { id, kind: ExprKind::Lit { lit, ty } }),
        exprs::diverges(
            Expr { id, kind: ExprKind::If { cond, then_branch, else_branch: Some(other) } },
        ) == (exprs::stmts_diverge(then_branch.stmts) && exprs::diverges(*other)),
        !exprs::diverges(
            Expr { id, kind: ExprKind::If { cond, then_branch, else_branch: None } },
        ),
        exprs::diverges(Expr { id, kind: ExprKind::Block(block) }) == exists|i: int|
            0 <= i < block.stmts@.len() && (#[trigger] block.stmts@[i] matches Stmt::Expr {
                expr,
                ..
            } && exprs::diverges(*expr)),
{
    statements_diverge(block.stmts);
    reveal_with_fuel(exprs::diverges, 2);
}

proof fn statements_diverge(stmts: List<Stmt>)
    ensures
        exprs::stmts_diverge(stmts) == exists|i: int|
            0 <= i < stmts@.len() && (#[trigger] stmts@[i] matches Stmt::Expr { expr, .. }
                && exprs::diverges(*expr)),
    decreases stmts,
{
    reveal_with_fuel(exprs::stmts_diverge, 2);
    if let List::Cons(stmt, rest) = stmts {
        assert(stmts@ == seq![list::held(&stmt)] + rest@);
        assert(stmts@[0] == list::held(&stmt));
        statements_diverge(list::held(&rest));
        if exprs::stmts_diverge(list::held(&rest)) {
            let k = choose|i: int|
                0 <= i < rest@.len() && (#[trigger] rest@[i] matches Stmt::Expr { expr, .. }
                    && exprs::diverges(*expr));
            assert(stmts@[k + 1] == rest@[k]);
        }
        if exists|i: int|
            0 <= i < stmts@.len() && (#[trigger] stmts@[i] matches Stmt::Expr { expr, .. }
                && exprs::diverges(*expr)) {
            let k = choose|i: int|
                0 <= i < stmts@.len() && (#[trigger] stmts@[i] matches Stmt::Expr { expr, .. }
                    && exprs::diverges(*expr));
            if k > 0 {
                assert(rest@[k - 1] == stmts@[k]);
            }
        }
    }
}

} // verus!

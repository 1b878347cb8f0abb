//! What holds of declarations: which closures a parameter takes, which arguments a parameter lets
//! constrain it, what a static holds, and what is filed of it all.
use crate::env::{self, GenericVars, JitError, TileType};
use crate::exprs;
use crate::generics;
use crate::infer::walk;
use crate::list::{self, List};
use crate::names::{self, Names};
use crate::resolved::{self, ResolvedType};
use crate::results::{self, MethodSelection, ResultsView};
use crate::scalar;
use crate::substitute::{self, ClosureSignature};
use crate::syntax::{
    Bound, Expr, ExprKind, FnItem, GenericArg, GenericParam, Generics, Lit, NodeId, Pat, Path,
    PathArgs, Predicate, Symbol, Type, UnOp,
};
use crate::types;
use std::rc::Rc;
use vstd::prelude::*;

verus! {

// Closures.

/// Whether a bound is one by a trait that is written without the types of a call, or by no trait.
pub open spec fn is_no_call(bound: Bound) -> bool {
    match bound {
        Bound::Trait(path) => path.segments.end() matches Some(segment) && !(segment.args is Call),
        Bound::Other(_) => true,
    }
}

/// The first bound by `Fn`, `FnMut` or `FnOnce` gives the types of the closures.
pub proof fn closure_bound_gives_the_signature(
    bounds: List<Bound>,
    at: int,
    path: Path,
    inputs: List<Type>,
    output: Option<Rc<Type>>,
)
    requires
        0 <= at < bounds@.len(),
        forall|k: int| 0 <= k < at ==> is_no_call(#[trigger] bounds@[k]),
        bounds@[at] == Bound::Trait(path),
        path.segments.end() matches Some(segment) && segment.args == (PathArgs::Call {
            inputs,
            output,
        }) && (segment.ident == names::FN || segment.ident == names::FN_MUT || segment.ident
            == names::FN_ONCE),
    ensures
        substitute::bounds_signature(bounds) == Some(ClosureSignature { inputs, output }),
    decreases bounds,
{
    if let List::Cons(bound, rest) = bounds {
        assert(bounds@ == seq![list::held(&bound)] + rest@);
        assert(bounds@[0] == list::held(&bound));
        if at > 0 {
            assert(is_no_call(bounds@[0]));
            assert(bounds@[at] == rest@[at - 1]);
            assert forall|k: int| 0 <= k < at - 1 implies is_no_call(#[trigger] rest@[k]) by {
                assert(rest@[k] == bounds@[k + 1]);
            }
            closure_bound_gives_the_signature(list::held(&rest), at - 1, path, inputs, output);
        }
    }
}

/// Bounds that are written without the types of a call give none.
pub proof fn other_bounds_give_no_signature(bounds: List<Bound>)
    requires
        forall|k: int| 0 <= k < bounds@.len() ==> is_no_call(#[trigger] bounds@[k]),
    ensures
        substitute::bounds_signature(bounds) is None,
    decreases bounds,
{
    if let List::Cons(bound, rest) = bounds {
        assert(bounds@ == seq![list::held(&bound)] + rest@);
        assert(is_no_call(bounds@[0]));
        assert forall|k: int| 0 <= k < rest@.len() implies is_no_call(#[trigger] rest@[k]) by {
            assert(rest@[k] == bounds@[k + 1]);
        }
        other_bounds_give_no_signature(list::held(&rest));
    }
}

/// Whether a parameter of generics declares a name.
pub open spec fn declares(param: GenericParam, name: Symbol) -> bool {
    param matches GenericParam::Type { name: declared, .. } && declared == name
}

/// A parameter whose type is a generic name takes the closures that the name is bound by where it is
/// declared.
pub proof fn parameter_takes_the_closures_of_its_bound(
    generics: Generics,
    name: Symbol,
    at: int,
    bounds: List<Bound>,
    signature: ClosureSignature,
)
    requires
        0 <= at < generics.params@.len(),
        generics.params@[at] == (GenericParam::Type { name, bounds }),
        forall|k: int| 0 <= k < at ==> !declares(#[trigger] generics.params@[k], name),
        substitute::bounds_signature(bounds) == Some(signature),
    ensures
        substitute::param_signature(generics, scalar::named_type(name)) == Some(signature),
{
    assert(types::bare_name(scalar::named_type(name)) == Some(name));
    declared_closures_are_found(generics.params, name, at, bounds, signature);
}

proof fn declared_closures_are_found(
    params: List<GenericParam>,
    name: Symbol,
    at: int,
    bounds: List<Bound>,
    signature: ClosureSignature,
)
    requires
        0 <= at < params@.len(),
        params@[at] == (GenericParam::Type { name, bounds }),
        forall|k: int| 0 <= k < at ==> !declares(#[trigger] params@[k], name),
        substitute::bounds_signature(bounds) == Some(signature),
    ensures
        substitute::params_signature(params, name) == Some(signature),
    decreases params,
{
    if let List::Cons(param, rest) = params {
        assert(params@ == seq![list::held(&param)] + rest@);
        assert(params@[0] == list::held(&param));
        if at > 0 {
            assert(!declares(params@[0], name));
            assert(params@[at] == rest@[at - 1]);
            assert forall|k: int| 0 <= k < at - 1 implies !declares(#[trigger] rest@[k], name) by {
                assert(rest@[k] == params@[k + 1]);
            }
            declared_closures_are_found(list::held(&rest), name, at - 1, bounds, signature);
        }
    }
}

/// Whether a predicate of a `where` clause is about a name.
pub open spec fn is_about(predicate: Predicate, name: Symbol) -> bool {
    predicate matches Predicate::Type { bounded, .. } && types::bare_name(*bounded) == Some(name)
}

/// A parameter whose type is a generic name that is declared without closures takes those of the
/// `where` clause.
pub proof fn parameter_takes_the_closures_of_the_clause(
    generics: Generics,
    name: Symbol,
    at: int,
    bounded: Rc<Type>,
    bounds: List<Bound>,
    signature: ClosureSignature,
)
    requires
        substitute::params_signature(generics.params, name) is None,
        0 <= at < generics.predicates@.len(),
        generics.predicates@[at] == (Predicate::Type { bounded, bounds }),
        types::bare_name(*bounded) == Some(name),
        forall|k: int| 0 <= k < at ==> !is_about(#[trigger] generics.predicates@[k], name),
        substitute::bounds_signature(bounds) == Some(signature),
    ensures
        substitute::param_signature(generics, scalar::named_type(name)) == Some(signature),
{
    assert(types::bare_name(scalar::named_type(name)) == Some(name));
    closures_of_the_clause_are_found(generics.predicates, name, at, bounded, bounds, signature);
}

proof fn closures_of_the_clause_are_found(
    predicates: List<Predicate>,
    name: Symbol,
    at: int,
    bounded: Rc<Type>,
    bounds: List<Bound>,
    signature: ClosureSignature,
)
    requires
        0 <= at < predicates@.len(),
        predicates@[at] == (Predicate::Type { bounded, bounds }),
        types::bare_name(*bounded) == Some(name),
        forall|k: int| 0 <= k < at ==> !is_about(#[trigger] predicates@[k], name),
        substitute::bounds_signature(bounds) == Some(signature),
    ensures
        substitute::where_signature(predicates, name) == Some(signature),
    decreases predicates,
{
    if let List::Cons(predicate, rest) = predicates {
        assert(predicates@ == seq![list::held(&predicate)] + rest@);
        assert(predicates@[0] == list::held(&predicate));
        if at > 0 {
            assert(!is_about(predicates@[0], name));
            assert(predicates@[at] == rest@[at - 1]);
            assert forall|k: int| 0 <= k < at - 1 implies !is_about(#[trigger] rest@[k], name) by {
                assert(rest@[k] == predicates@[k + 1]);
            }
            closures_of_the_clause_are_found(
                list::held(&rest),
                name,
                at - 1,
                bounded,
                bounds,
                signature,
            );
        }
    }
}

/// The closures among the arguments of a call have the signatures of the parameters in their places;
/// other arguments have none.
pub proof fn closures_have_the_signatures_of_their_parameters(
    item: FnItem,
    args: List<Expr>,
    params: List<Type>,
    i: int,
)
    requires
        0 <= i < args@.len(),
        args@.len() == params@.len(),
    ensures
        ({
            let all = walk::closure_signatures(item, args, params)@;
            &&& all.len() == args@.len()
            &&& args@[i].kind is Closure ==> all[i] == substitute::param_signature(
                item.generics,
                params@[i],
            )
            &&& !(args@[i].kind is Closure) ==> all[i] is None
        }),
{
    signatures_are_in_place(item, args, params, i);
}

proof fn signatures_are_in_place(item: FnItem, args: List<Expr>, params: List<Type>, i: int)
    requires
        args@.len() == params@.len(),
    ensures
        walk::closure_signatures(item, args, params)@.len() == args@.len(),
        0 <= i < args@.len() ==> walk::closure_signatures(item, args, params)@[i] == (
        if args@[i].kind is Closure {
            substitute::param_signature(item.generics, params@[i])
        } else {
            None
        }),
    decreases args,
{
    if let (List::Cons(arg, more), List::Cons(param, rest)) = (args, params) {
        assert(args@ == seq![list::held(&arg)] + more@);
        assert(params@ == seq![list::held(&param)] + rest@);
        assert(args@[0] == list::held(&arg));
        assert(params@[0] == list::held(&param));
        signatures_are_in_place(item, list::held(&more), list::held(&rest), i - 1);
        let all = walk::closure_signatures(item, args, params);
        let later = walk::closure_signatures(item, list::held(&more), list::held(&rest));
        assert(all@ == seq![list::held(&all->Cons_0)] + later@);
        if 0 < i < args@.len() {
            assert(args@[i] == more@[i - 1]);
            assert(params@[i] == rest@[i - 1]);
            assert(all@[i] == later@[i - 1]);
        }
    } else {
        match args {
            List::Nil => {},
            List::Cons(x, y) => {
                assert(args@ == seq![list::held(&x)] + y@);
            },
        }
    }
}

// Constraints.

/// An `impl Trait`, also inside a tuple or a reference, lets nothing constrain it; references, slices
/// and arrays constrain where what they hold does.
pub proof fn parts_decide_what_constrains(
    lifetime: Option<Symbol>,
    other: Option<Symbol>,
    mutable: bool,
    also: bool,
    param: Rc<Type>,
    arg: Rc<Type>,
    len: Rc<Expr>,
    count: Rc<Expr>,
    any: Type,
)
    ensures
        types::mentions_impl(*param) ==> !types::constrains(*param, any),
        *param is ImplTrait ==> types::mentions_impl(*param),
        types::mentions_impl(Type::Reference { lifetime, mutable, elem: param })
            == types::mentions_impl(*param),
        types::constrains(
            Type::Reference { lifetime, mutable, elem: param },
            Type::Reference { lifetime: other, mutable: also, elem: arg },
        ) == types::constrains(*param, *arg),
        types::constrains(
            Type::Array { elem: param, len },
            Type::Array { elem: arg, len: count },
        ) == types::constrains(*param, *arg),
        types::constrains(Type::Slice(param), Type::Slice(arg)) == types::constrains(*param, *arg),
{
    reveal_with_fuel(types::constrains, 2);
    reveal_with_fuel(types::mentions_impl, 2);
}

/// A tuple constrains another where there are as many items, and each constrains the one in its
/// place.
pub proof fn tuples_constrain_item_by_item(params: List<Type>, args: List<Type>)
    ensures
        types::constrains(Type::Tuple(params), Type::Tuple(args)) <==> params@.len() == args@.len()
            && forall|i: int|
            0 <= i < params@.len() ==> types::constrains(#[trigger] params@[i], args@[i]),
{
    items_constrain(params, args);
    reveal_with_fuel(types::constrains, 2);
    reveal_with_fuel(types::mentions_impl, 2);
}

proof fn items_constrain(params: List<Type>, args: List<Type>)
    ensures
        types::all_constrain(params, args) <==> params@.len() == args@.len() && forall|i: int|
            0 <= i < params@.len() ==> types::constrains(#[trigger] params@[i], args@[i]),
        types::all_constrain(params, args) ==> !types::any_mentions_impl(params),
    decreases params,
{
    match (params, args) {
        (List::Nil, List::Nil) => {},
        (List::Nil, List::Cons(x, y)) => {
            assert(args@ == seq![list::held(&x)] + y@);
        },
        (List::Cons(x, y), List::Nil) => {
            assert(params@ == seq![list::held(&x)] + y@);
        },
        (List::Cons(param, rest), List::Cons(arg, more)) => {
            assert(params@ == seq![list::held(&param)] + rest@);
            assert(args@ == seq![list::held(&arg)] + more@);
            assert(params@[0] == list::held(&param));
            assert(args@[0] == list::held(&arg));
            items_constrain(list::held(&rest), list::held(&more));
            if types::all_constrain(params, args) {
                assert forall|i: int| 0 <= i < params@.len() implies types::constrains(
                    #[trigger] params@[i],
                    args@[i],
                ) by {
                    if i > 0 {
                        assert(params@[i] == rest@[i - 1]);
                        assert(args@[i] == more@[i - 1]);
                    }
                }
            }
            if params@.len() == args@.len() && forall|i: int|
                0 <= i < params@.len() ==> types::constrains(#[trigger] params@[i], args@[i]) {
                assert(types::constrains(params@[0], args@[0]));
                assert forall|i: int| 0 <= i < rest@.len() implies types::constrains(
                    #[trigger] rest@[i],
                    more@[i],
                ) by {
                    assert(rest@[i] == params@[i + 1]);
                    assert(more@[i] == args@[i + 1]);
                }
            }
        },
    }
}

// Statics, literals and indices.

/// A static in global memory holds elements of the type that its type's path gives first, in the
/// shape of the constant behind it.
pub proof fn static_is_of_its_arguments(name: Symbol, elem: Rc<Type>, shape: Rc<Expr>, dims: List<i32>)
    requires
        exprs::static_shape(*shape) == Ok::<Option<List<i32>>, JitError>(Some(dims)),
    ensures
        ({
            let ty = types::applied_type(
                name,
                List::Cons(
                    Rc::new(GenericArg::Type(elem)),
                    Rc::new(
                        List::Cons(Rc::new(GenericArg::Const(shape)), Rc::new(List::Nil)),
                    ),
                ),
            );
            &&& types::static_element(ty) == Some(*elem)
            &&& types::static_type_shape(ty) == Ok::<Option<List<i32>>, JitError>(Some(dims))
        }),
{
    reveal_with_fuel(List::items, 3);
    reveal_with_fuel(types::type_args, 3);
    reveal_with_fuel(types::first_shape, 3);
}

/// A value that is repeated stands at each of so many places.
pub proof fn repeated_value_is_everywhere(value: i32, times: nat, i: int)
    ensures
        exprs::repeated(value, times)@.len() == times,
        0 <= i < times ==> exprs::repeated(value, times)@[i] == value,
    decreases times,
{
    if times > 0 {
        let less = (times - 1) as nat;
        repeated_value_is_everywhere(value, less, i - 1);
        let all = exprs::repeated(value, times);
        let later = exprs::repeated(value, less);
        assert(all@ == seq![value] + later@);
        if 0 < i < times {
            assert(all@[i] == later@[i - 1]);
        }
    }
}

/// A literal is its number where that fits, also as an index in parentheses; a negative index is
/// none.
pub proof fn literal_is_its_number(
    id: Option<NodeId>,
    value: u128,
    spelling: Option<Symbol>,
    suffix: Option<Symbol>,
    ty: Option<Rc<Type>>,
    inner: Rc<Expr>,
)
    ensures
        ({
            let lit = Lit::Int { value: Some(value), spelling, suffix };
            &&& value <= i32::MAX ==> (exprs::lit_i32(lit) matches Some(n) && n == value)
            &&& value > i32::MAX ==> exprs::lit_i32(lit) is None
            &&& value <= usize::MAX ==> (exprs::fixed_index(
                Expr { id, kind: ExprKind::Lit { lit, ty } },
            ) matches Some(n) && n == value)
            &&& value > usize::MAX ==> exprs::fixed_index(
                Expr { id, kind: ExprKind::Lit { lit, ty } },
            ) is None
            &&& exprs::fixed_index(Expr { id, kind: ExprKind::Paren(inner) })
                == exprs::fixed_index(*inner)
            &&& exprs::fixed_index(
                Expr { id, kind: ExprKind::Unary { op: UnOp::Neg, expr: inner } },
            ) is None
        }),
{
}

/// An index names an item of a bound array where it is less than the number of items.
pub proof fn index_is_inside_a_bound_array(
    vars: GenericVars,
    id: Option<NodeId>,
    path: Path,
    name: Symbol,
    dims: List<i32>,
    index: Expr,
    position: usize,
)
    requires
        exprs::last_name(path) == Some(name),
        env::array_of(vars.inst_array, name) == Some(dims),
        dims@.len() <= usize::MAX,
        exprs::fixed_index(index) == Some(position),
    ensures
        exprs::index_in_array(
            vars,
            Expr { id, kind: ExprKind::Path { qself: None, path } },
            index,
        ) <==> position < dims@.len(),
{
}

/// A pattern binds the name that it is, below its annotation.
pub proof fn pattern_binds_its_name(
    name: Symbol,
    mutable: bool,
    subpat: Option<Rc<Pat>>,
    inner: Rc<Pat>,
    ty: Rc<Type>,
)
    ensures
        exprs::binding_name(Pat::Ident { name, mutable, subpat }) == Some(name),
        exprs::binding_name(Pat::Type { pat: inner, ty }) == exprs::binding_name(*inner),
        exprs::annotation(Pat::Type { pat: inner, ty }) == Some(*ty),
{
}

/// The items of arrays and slices, also behind references, are of the type that is written for them;
/// a tuple's items are those that it lists.
pub proof fn items_are_as_written(
    elem: Rc<Type>,
    len: Rc<Expr>,
    lifetime: Option<Symbol>,
    mutable: bool,
    items: List<Type>,
)
    ensures
        types::item_type(Type::Array { elem, len }) == Some(*elem),
        types::item_type(Type::Slice(elem)) == Some(*elem),
        types::item_type(Type::Reference { lifetime, mutable, elem }) == types::item_type(*elem),
        types::tuple_items(Type::Tuple(items)) == Some(items),
        types::tuple_items(Type::Paren(elem)) == types::tuple_items(*elem),
{
}

/// The trait that a bound names is among the traits of the bounds.
pub proof fn named_trait_is_demanded(bounds: List<Bound>, at: int, path: Path, name: Symbol)
    requires
        0 <= at < bounds@.len(),
        bounds@[at] == Bound::Trait(path),
        exprs::last_name(path) == Some(name),
    ensures
        generics::trait_names(bounds)@.contains(name),
    decreases bounds,
{
    if let List::Cons(bound, rest) = bounds {
        assert(bounds@ == seq![list::held(&bound)] + rest@);
        assert(bounds@[0] == list::held(&bound));
        let all = generics::trait_names(bounds);
        let later = generics::trait_names(list::held(&rest));
        if at > 0 {
            assert(bounds@[at] == rest@[at - 1]);
            named_trait_is_demanded(list::held(&rest), at - 1, path, name);
            let k = later@.index_of(name);
            if types::bound_name(list::held(&bound)) is Some {
                assert(all@ == seq![types::bound_name(list::held(&bound))->0] + later@);
                assert(all@[k + 1] == name);
            }
        } else {
            assert(all@ == seq![name] + later@);
            assert(all@[0] == name);
        }
    }
}

/// A reference to a value is written as one to the value's type.
pub proof fn reference_is_to_the_written_type(ty: TileType, mutable: bool)
    ensures
        *walk::referenced(ty, mutable).rust_ty == (Type::Reference {
            lifetime: None,
            mutable,
            elem: ty.rust_ty,
        }),
        walk::referenced(ty, mutable).params == ty.params,
        walk::referenced(ty, mutable).handle == ty.handle,
{
}

// What is filed.

/// What is filed for an expression is found for it, in the table that it is filed in, and nothing
/// else is touched.
pub proof fn each_table_is_its_own(
    r: ResultsView,
    id: NodeId,
    ty: ResolvedType,
    selection: Rc<MethodSelection>,
    call: Rc<Expr>,
    other: Option<NodeId>,
)
    ensures
        ({
            let a = results::with_resolved(r, Some(id), ty);
            let b = results::with_selection(r, Some(id), selection);
            let c = results::with_lowered(r, Some(id), call);
            &&& results::filed(a.resolved, Some(id)) == Some(Rc::new(ty))
            &&& results::surface_type(a, Some(id)) == Some(resolved::surface(ty))
            &&& results::filed(b.selections, Some(id)) == Some(selection)
            &&& results::filed(c.lowered, Some(id)) == Some(call)
            &&& other != Some(id) ==> results::filed(a.resolved, other) == results::filed(
                r.resolved,
                other,
            )
            &&& other != Some(id) ==> results::filed(b.selections, other) == results::filed(
                r.selections,
                other,
            )
            &&& other != Some(id) ==> results::filed(c.lowered, other) == results::filed(
                r.lowered,
                other,
            )
            &&& a.tiles == r.tiles && a.selections == r.selections && a.lowered == r.lowered
            &&& b.tiles == r.tiles && b.resolved == r.resolved && b.lowered == r.lowered
            &&& c.tiles == r.tiles && c.resolved == r.resolved && c.selections == r.selections
        }),
{
}

/// The lines of a dump come in the order of the numbers: those of the first numbers are the start of
/// the text.
pub proof fn dump_goes_on_in_order(names: Names, r: ResultsView, ids: Seq<NodeId>, more: Seq<NodeId>)
    ensures
        results::dump_text(names, r, ids) matches Some(text) ==> (results::dump_text(
            names,
            r,
            ids + more,
        ) matches Some(all) && text.is_prefix_of(all)),
    decreases more.len(),
{
    if more.len() == 0 {
        assert(ids + more =~= ids);
        if let Some(text) = results::dump_text(names, r, ids) {
            assert(text.is_prefix_of(text));
        }
    } else {
        assert((ids + more).drop_last() =~= ids + more.drop_last());
        dump_goes_on_in_order(names, r, ids, more.drop_last());
        if let Some(text) = results::dump_text(names, r, ids) {
            let before = results::dump_text(names, r, ids + more.drop_last())->0;
            let all = results::dump_text(names, r, ids + more)->0;
            let id = (ids + more).last();
            assert(before.is_prefix_of(all)) by {
                let with_type = match results::filed(r.resolved, Some(id)) {
                    Some(ty) => before + "\n"@ + results::type_line(names, id, *ty),
                    None => before,
                };
                assert(before.is_prefix_of(with_type));
                assert(all == match results::filed(r.selections, Some(id)) {
                    Some(selection) => with_type + "\n"@ + results::method_line(
                        names,
                        id,
                        *selection,
                    ),
                    None => with_type,
                });
                assert(with_type.is_prefix_of(all));
            }
        }
    }
}

} // verus!

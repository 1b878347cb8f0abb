//! What holds of what is read off expressions and declarations, and of what waits to be read again.
use crate::ask;
use crate::env::{self, ParamBinding, Stop, TileType};
use crate::exprs;
use crate::generics;
use crate::infer::finish;
use crate::infer::lookups;
use crate::infer::macros;
use crate::infer::state::{self, Frame, StateView};
use crate::infer::walk;
use crate::list::{self, List};
use crate::names;
use crate::results;
use crate::scalar;
use crate::substitute;
use crate::syntax::{
    Block, Expr, ExprKind, FnItem, GenericArg, ImplItem, Lit, NodeId, Path, Stmt, Symbol, Token,
    Type,
};
use crate::types;
use crate::unify::{self, InferVar, InferVarId, InferVarKind, InferredTy};
use std::rc::Rc;
use vstd::prelude::*;

verus! {

// Arrays, tuples and literals.

/// Whether a term stands for an expression: it is a variable whose root was made for it first.
pub open spec fn was_made_for(vars: Seq<InferVar>, term: InferredTy, origin: Expr) -> bool {
    match unify::normalized(vars, term) {
        InferredTy::Var(id) => id.index < vars.len() && vars[id.index as int].origins@.len() > 0
            && vars[id.index as int].origins@[0] == origin,
        _ => false,
    }
}

proof fn first_origin_counts(vars: Seq<InferVar>, term: InferredTy, origin: Expr)
    requires
        was_made_for(vars, term, origin),
    ensures
        unify::origin_of(vars, term) == Some(origin),
{
    let id = unify::normalized(vars, term)->Var_0;
    let origins = vars[id.index as int].origins;
    if let List::Cons(first, rest) = origins {
        assert(origins@ == seq![list::held(&first)] + rest@);
    }
}

/// An array has the length of its list of items, in parentheses too; a name has the length of the
/// array that it stands for.
pub proof fn array_has_the_length_of_its_list(
    f: Frame,
    s: StateView,
    id: Option<NodeId>,
    items: List<Expr>,
    inner: Rc<Expr>,
    local: Expr,
    name: Symbol,
    term: InferredTy,
)
    requires
        items@.len() <= usize::MAX,
        exprs::expr_name(local) == Some(name),
        local.id is None || !s.inference.terms.contains_key(local.id->0),
        s.local_terms.contains_key(name),
        s.local_terms[name] == term,
        was_made_for(s.inference.vars, term, Expr { id, kind: ExprKind::Array(items) }),
    ensures
        lookups::array_length(f, s, Expr { id, kind: ExprKind::Array(items) }) == Some(
            items@.len() as usize,
        ),
        lookups::array_length(f, s, Expr { id, kind: ExprKind::Paren(inner) })
            == lookups::array_length(f, s, *inner),
        lookups::array_length(f, s, local) == Some(items@.len() as usize),
{
    let origin = Expr { id, kind: ExprKind::Array(items) };
    first_origin_counts(s.inference.vars, term, origin);
    assert(lookups::expr_origin(s, local) == Some(origin));
}

/// The items of a tuple are those it lists, in parentheses too; a name has the items of the tuple
/// that it stands for.
pub proof fn tuple_has_the_items_of_its_list(
    s: StateView,
    id: Option<NodeId>,
    items: List<Expr>,
    inner: Rc<Expr>,
    local: Expr,
    name: Symbol,
    term: InferredTy,
)
    requires
        exprs::expr_name(local) == Some(name),
        local.id is None || !s.inference.terms.contains_key(local.id->0),
        s.local_terms.contains_key(name),
        s.local_terms[name] == term,
        was_made_for(s.inference.vars, term, Expr { id, kind: ExprKind::Tuple(items) }),
    ensures
        lookups::tuple_exprs(s, Expr { id, kind: ExprKind::Tuple(items) }) == Some(items),
        lookups::tuple_exprs(s, Expr { id, kind: ExprKind::Paren(inner) }) == lookups::tuple_exprs(
            s,
            *inner,
        ),
        lookups::tuple_exprs(s, local) == Some(items),
{
    let origin = Expr { id, kind: ExprKind::Tuple(items) };
    first_origin_counts(s.inference.vars, term, origin);
    assert(lookups::expr_origin(s, local) == Some(origin));
}

/// A number without a suffix is of some type of integers or of some type of floats, as it is written;
/// what has a suffix, and what is no number, is left open by nothing.
pub proof fn plain_numbers_are_left_open(
    value: Option<u128>,
    spelling: Option<Symbol>,
    digits: Symbol,
    suffix: Symbol,
    truth: bool,
    text: Symbol,
)
    ensures
        lookups::literal_kind(Lit::Int { value, spelling, suffix: None }) == Some(
            InferVarKind::Int,
        ),
        lookups::literal_kind(Lit::Float { digits, suffix: None }) == Some(InferVarKind::Float),
        lookups::literal_kind(Lit::Int { value, spelling, suffix: Some(suffix) }) is None,
        lookups::literal_kind(Lit::Float { digits, suffix: Some(suffix) }) is None,
        lookups::literal_kind(Lit::Bool(truth)) is None,
        lookups::literal_kind(Lit::Str(text)) is None,
{
}

/// The items of an array or a slice are of the type that is written for them.
pub proof fn items_are_of_the_written_type(
    f: Frame,
    ty: TileType,
    elem: Rc<Type>,
    len: Rc<Expr>,
)
    requires
        *ty.rust_ty == (Type::Array { elem, len }) || *ty.rust_ty == Type::Slice(elem),
    ensures
        lookups::item_tile(f, ty) == ask::compiled(f.env, *elem),
{
}

/// The value of a block is of the type filed for its last expression, and for the value that it
/// returns; a block that ends with a semicolon has none.
pub proof fn value_of_a_block_is_its_end(
    s: StateView,
    stmts: List<Stmt>,
    last: Rc<Expr>,
    semi: bool,
    value: Rc<Expr>,
)
    requires
        stmts@.len() > 0,
        stmts@.last() == (Stmt::Expr { expr: last, semi }),
    ensures
        !(last.kind is Return) && !semi ==> lookups::tail_type(s, Block { stmts })
            == results::surface_type(s.results, last.id),
        !(last.kind is Return) && semi ==> lookups::tail_type(s, Block { stmts }) is None,
        last.kind == ExprKind::Return(Some(value)) ==> lookups::tail_type(s, Block { stmts })
            == results::surface_type(s.results, value.id),
{
}

/// A receiver can be borrowed mutably where it is a mutable reference or a mutable name.
pub proof fn mutable_names_are_borrowed_mutably(
    s: StateView,
    receiver: Expr,
    ty: Type,
    name: Symbol,
    lifetime: Option<Symbol>,
    elem: Rc<Type>,
)
    ensures
        exprs::expr_name(receiver) == Some(name) && !types::mut_reference(ty)
            ==> lookups::borrows_mutably(s, receiver, ty) == s.mutable_vars.contains(name),
        ty == (Type::Reference { lifetime, mutable: true, elem }) ==> lookups::borrows_mutably(
            s,
            receiver,
            ty,
        ),
        ty == (Type::Reference { lifetime, mutable: false, elem }) ==> !types::mut_reference(ty),
{
}

// Declarations.

/// An associated constant is of the type that its trait declares, with the implementing type for
/// `Self`, where one trait bounds the name before it and declares the constant.
pub proof fn constant_of_a_bound_is_as_declared(
    f: Frame,
    path: Path,
    bound: Symbol,
    consts: List<env::FieldDef>,
    ty: Type,
)
    requires
        path.segments@.len() == 2,
        generics::bounds_of(f.bounds, path.segments@[0].ident)@ == seq![bound],
        f.env.trait_impls is Nil,
        f.env.primitives is Nil,
        env::consts_of(f.env.traits, bound) == Some(consts),
        env::field_type(consts, path.segments@[1].ident) == Some(ty),
    ensures
        lookups::assoc_const_type(f, None, path) == ask::compiled(
            f.env,
            types::with_self(ty, types::segment_type(path.segments@[0])),
        ),
{
    let traits = generics::bounds_of(f.bounds, path.segments@[0].ident);
    let name = path.segments@[1].ident;
    let self_ty = types::segment_type(path.segments@[0]);
    let end = List::<Type>::Nil;
    match traits {
        List::Nil => {
            assert(traits@.len() == 0);
        },
        List::Cons(first, rest) => {
            assert(traits@ == seq![list::held(&first)] + rest@);
            assert(traits@[0] == list::held(&first));
            assert(rest@.len() == 0);
            match list::held(&rest) {
                List::Nil => {},
                List::Cons(x, y) => {
                    assert(rest@ == seq![list::held(&x)] + y@);
                },
            }
            assert(lookups::consts_of_traits(f, List::Nil, name, self_ty) == end);
            let own = List::Cons(Rc::new(types::with_self(ty, self_ty)), Rc::new(end));
            assert(lookups::consts_of_traits(f, traits, name, self_ty) == own);
            assert(lookups::consts_of_impls(
                f,
                List::Nil,
                path.segments@[0].ident,
                name,
                self_ty,
            ) == end);
            assert(end.joined(end) == end);
            assert(own.joined(end)@ == own@) by {
                list::joined_items_follow(own, end);
            }
            list::lists_are_their_items(own.joined(end), own);
        },
    }
}

/// Among the types that an associated constant may have are those that the traits that the type
/// implements declare, and no type is counted where no trait declares the constant.
pub proof fn constants_of_impls_are_as_declared(
    f: Frame,
    impls: List<env::TraitImpl>,
    self_name: Symbol,
    name: Symbol,
    self_ty: Type,
    at: int,
    ty: Type,
)
    requires
        0 <= at < impls@.len(),
        impls@[at].self_name == self_name,
        lookups::trait_const(f, impls@[at].trait_name, name, self_ty) == Some(ty),
    ensures
        lookups::consts_of_impls(f, impls, self_name, name, self_ty)@.contains(ty),
    decreases impls,
{
    if let List::Cons(item, rest) = impls {
        assert(impls@ == seq![list::held(&item)] + rest@);
        assert(impls@[0] == list::held(&item));
        let more = lookups::consts_of_impls(f, list::held(&rest), self_name, name, self_ty);
        let all = lookups::consts_of_impls(f, impls, self_name, name, self_ty);
        if at > 0 {
            assert(impls@[at] == rest@[at - 1]);
            constants_of_impls_are_as_declared(
                f,
                list::held(&rest),
                self_name,
                name,
                self_ty,
                at - 1,
                ty,
            );
            let k = more@.index_of(ty);
            if all != more {
                assert(all@[k + 1] == more@[k]);
            }
        } else {
            assert(all@ == seq![ty] + more@);
            assert(all@[0] == ty);
        }
    }
}

/// `Self` is replaced by the implementing type, inside references, arrays, slices and tuples too.
pub proof fn self_is_the_implementing_type(
    self_ty: Type,
    lifetime: Option<Symbol>,
    mutable: bool,
    elem: Rc<Type>,
    len: Rc<Expr>,
    items: List<Type>,
    i: int,
)
    requires
        0 <= i < items@.len(),
    ensures
        types::with_self(scalar::named_type(names::SELF_TYPE), self_ty) == self_ty,
        types::with_self(Type::Reference { lifetime, mutable, elem }, self_ty) == (
        Type::Reference { lifetime, mutable, elem: Rc::new(types::with_self(*elem, self_ty)) }),
        types::with_self(Type::Slice(elem), self_ty) == Type::Slice(
            Rc::new(types::with_self(*elem, self_ty)),
        ),
        types::with_self(Type::Array { elem, len }, self_ty) == (Type::Array {
            elem: Rc::new(types::with_self(*elem, self_ty)),
            len,
        }),
        types::with_self(Type::Tuple(items), self_ty) matches Type::Tuple(own) && own@.len()
            == items@.len() && own@[i] == types::with_self(items@[i], self_ty),
{
    every_self_is_replaced(items, self_ty, i);
}

proof fn every_self_is_replaced(items: List<Type>, self_ty: Type, i: int)
    ensures
        types::all_with_self(items, self_ty)@.len() == items@.len(),
        0 <= i < items@.len() ==> types::all_with_self(items, self_ty)@[i] == types::with_self(
            items@[i],
            self_ty,
        ),
    decreases items,
{
    if let List::Cons(first, rest) = items {
        assert(items@ == seq![list::held(&first)] + rest@);
        every_self_is_replaced(list::held(&rest), self_ty, i - 1);
        let more = types::all_with_self(list::held(&rest), self_ty);
        let all = types::all_with_self(items, self_ty);
        assert(all@ == seq![types::with_self(list::held(&first), self_ty)] + more@);
        if 0 < i < items@.len() {
            assert(items@[i] == rest@[i - 1]);
            assert(all@[i] == more@[i - 1]);
        }
    }
}

/// What a method expects of its arguments is what its parameters are declared as, each in its place,
/// with the generic names that are bound replaced.
pub proof fn parameters_are_adjusted_in_place(
    bindings: List<ParamBinding>,
    params: List<Type>,
    i: int,
    own: Rc<Type>,
)
    requires
        0 <= i < params@.len(),
        substitute::substituted(bindings, params@[i]) == Some(own),
    ensures
        lookups::adjusted_params(bindings, None, params)@.len() == params@.len(),
        lookups::adjusted_params(bindings, None, params)@[i] == *own,
{
    every_parameter_is_adjusted(bindings, None, params, i);
}

proof fn every_parameter_is_adjusted(
    bindings: List<ParamBinding>,
    rank: Option<usize>,
    params: List<Type>,
    i: int,
)
    ensures
        lookups::adjusted_params(bindings, rank, params)@.len() == params@.len(),
        0 <= i < params@.len() ==> lookups::adjusted_params(bindings, rank, params)@[i] == ({
            let ty = match substitute::substituted(bindings, params@[i]) {
                Some(ty) => *ty,
                None => params@[i],
            };
            match rank {
                Some(rank) => types::with_rank(ty, rank),
                None => ty,
            }
        }),
    decreases params,
{
    if let List::Cons(first, rest) = params {
        assert(params@ == seq![list::held(&first)] + rest@);
        every_parameter_is_adjusted(bindings, rank, list::held(&rest), i - 1);
        let more = lookups::adjusted_params(bindings, rank, list::held(&rest));
        let all = lookups::adjusted_params(bindings, rank, params);
        assert(all is Cons);
        assert(all@ == seq![list::held(&all->Cons_0)] + more@);
        if 0 < i < params@.len() {
            assert(params@[i] == rest@[i - 1]);
            assert(all@[i] == more@[i - 1]);
        }
    }
}

/// The only inherent method of a name expects of its first argument what its second parameter is
/// declared as, and so on: the first parameter is the receiver.
pub proof fn method_expects_what_stands_behind_its_receiver(
    f: Frame,
    receiver: Type,
    name: Symbol,
    ident: Symbol,
    args: Option<List<GenericArg>>,
    impls: List<ImplItem>,
    found: lookups::FoundMethod,
    bindings: List<ParamBinding>,
    i: int,
    own: Rc<Type>,
)
    requires
        ask::head(f.env, receiver) == Ok::<_, Stop>((Some(ident), args)),
        env::impls_of(f.env.struct_impls, ident) == Some(impls),
        lookups::methods_named(impls, name)@ == seq![found],
        ask::bindings(
            f.env,
            ask::method_solver(found.impl_item.id, found.method.id).after(
                env::Step::Constraint { param: found.impl_item.self_ty, arg: Rc::new(receiver) },
            ),
        ) == Ok::<List<ParamBinding>, Stop>(bindings),
        types::type_rank(*f.env.generic_vars, receiver) is None,
        0 <= i,
        i + 1 < found.method.param_types@.len(),
        substitute::substituted(bindings, found.method.param_types@[i + 1]) == Some(own),
    ensures
        lookups::method_expected_args(f, receiver, name) matches Ok(Some(expected))
            && expected@.len() == found.method.param_types@.len() - 1 && expected@[i] == *own,
{
    let all = lookups::methods_named(impls, name);
    match all {
        List::Nil => {
            assert(all@.len() == 0);
        },
        List::Cons(first, rest) => {
            assert(all@ == seq![list::held(&first)] + rest@);
            assert(all@[0] == list::held(&first));
            assert(rest@.len() == 0);
            match list::held(&rest) {
                List::Nil => {},
                List::Cons(x, y) => {
                    assert(rest@ == seq![list::held(&x)] + y@);
                },
            }
        },
    }
    assert(types::sole(all) == Some(found));
    let params = list::held(&found.method).param_types;
    match params {
        List::Nil => {},
        List::Cons(first, rest) => {
            assert(params@ == seq![list::held(&first)] + rest@);
            assert(params@[i + 1] == rest@[i]);
            parameters_are_adjusted_in_place(bindings, list::held(&rest), i, own);
        },
    }
}

/// The parameters of a closure are typed in their order.
pub proof fn closure_inputs_are_in_order(
    f: Frame,
    limit: nat,
    bindings: List<ParamBinding>,
    inputs: List<Type>,
    i: int,
)
    requires
        lookups::closure_inputs(f, limit, bindings, inputs) matches Ok(Some(_)),
    ensures
        ({
            let tiles = lookups::closure_inputs(f, limit, bindings, inputs)->Ok_0->0;
            &&& tiles@.len() == inputs@.len()
            &&& 0 <= i < inputs@.len() ==> (substitute::substituted(bindings, inputs@[i]) matches Some(
                ty,
            ) && lookups::closure_value(f, limit, *ty) == Ok::<Option<Rc<TileType>>, Stop>(
                Some(Rc::new(tiles@[i])),
            ))
        }),
    decreases inputs,
{
    if let List::Cons(first, rest) = inputs {
        assert(inputs@ == seq![list::held(&first)] + rest@);
        closure_inputs_are_in_order(f, limit, bindings, list::held(&rest), i - 1);
        let all = lookups::closure_inputs(f, limit, bindings, inputs)->Ok_0->0;
        let more = lookups::closure_inputs(f, limit, bindings, list::held(&rest))->Ok_0->0;
        assert(all@ == seq![list::held(&all->Cons_0)] + more@);
        if 0 < i < inputs@.len() {
            assert(inputs@[i] == rest@[i - 1]);
            assert(all@[i] == more@[i - 1]);
        }
    }
}

// Macros of shapes.

/// `const_shape!` makes a shape and `const_array!` an array, of the dimensions that it lists, where
/// the text of that type is not refused.
pub proof fn shape_macros_make_their_types(f: Frame, path: Path, tokens: List<Token>)
    requires
        macros::macro_texts(f, tokens) is Some,
        macros::type_refusal(
            macros::shape_text(macros::macro_shape_name(path)->0, macros::macro_texts(f, tokens)->0),
        ) is None,
    ensures
        exprs::last_name(path) == Some(names::CONST_SHAPE) ==> macros::macro_type(f, path, tokens)
            == ask::compiled(
            f.env,
            types::shaped_type(names::SHAPE, macros::macro_dims(f, tokens)),
        ),
        exprs::last_name(path) == Some(names::CONST_ARRAY) ==> macros::macro_type(f, path, tokens)
            == ask::compiled(
            f.env,
            types::shaped_type(names::ARRAY, macros::macro_dims(f, tokens)),
        ),
{
}

/// The dimensions of a macro of shapes come in the order in which they are listed: those of the
/// tokens up to a place, then those of the tokens after it.
pub proof fn dimensions_are_in_order(f: Frame, tokens: List<Token>, more: List<Token>)
    ensures
        macros::macro_dims(f, tokens.joined(more))@ == macros::macro_dims(f, tokens)@
            + macros::macro_dims(f, more)@,
    decreases tokens,
{
    match tokens {
        List::Nil => {},
        List::Cons(token, rest) => {
            dimensions_are_in_order(f, list::held(&rest), more);
            let later = macros::macro_dims(f, list::held(&rest).joined(more));
            let own = macros::macro_dims(f, list::held(&rest));
            assert(tokens.joined(more) == List::Cons(
                token,
                Rc::new(list::held(&rest).joined(more)),
            ));
            if let Token::Ident { name, expr } = list::held(&token) {
                if let Some(dims) = env::array_of(list::held(&f.env.generic_vars).inst_array, name) {
                    list::joined_items_follow(exprs::dim_exprs(dims), later);
                    list::joined_items_follow(exprs::dim_exprs(dims), own);
                }
            }
        },
    }
}

/// A literal is one dimension, a name that is no array of constants is one too, an array of
/// constants stands for its numbers in their order, and a comma is none.
pub proof fn token_is_its_dimensions(
    f: Frame,
    text: Symbol,
    expr: Rc<Expr>,
    name: Symbol,
    dims: List<i32>,
    i: int,
)
    ensures
        macros::macro_dims(
            f,
            List::Cons(Rc::new(Token::Literal { text, expr }), Rc::new(List::Nil)),
        )@ == seq![*expr],
        macros::macro_dims(f, List::Cons(Rc::new(Token::Comma), Rc::new(List::Nil)))@.len() == 0,
        env::array_of(f.env.generic_vars.inst_array, name) is None ==> macros::macro_dims(
            f,
            List::Cons(Rc::new(Token::Ident { name, expr }), Rc::new(List::Nil)),
        )@ == seq![*expr],
        env::array_of(f.env.generic_vars.inst_array, name) == Some(dims) ==> ({
            let listed = macros::macro_dims(
                f,
                List::Cons(Rc::new(Token::Ident { name, expr }), Rc::new(List::Nil)),
            )@;
            &&& listed.len() == dims@.len()
            &&& 0 <= i < dims@.len() ==> listed[i] == exprs::dim_expr(dims@[i])
        }),
{
    let end = List::<Expr>::Nil;
    assert(macros::macro_dims(f, List::Nil) == end);
    assert(end@.len() == 0);
    dimension_is_its_number(dims, i);
    list::joined_items_follow(exprs::dim_exprs(dims), end);
    let one = List::Cons(expr, Rc::new(end));
    assert(one@ == seq![list::held(&expr)] + end@);
}

/// A dimension as an expression stands in the place of its number.
pub proof fn dimension_is_its_number(dims: List<i32>, i: int)
    ensures
        exprs::dim_exprs(dims)@.len() == dims@.len(),
        0 <= i < dims@.len() ==> exprs::dim_exprs(dims)@[i] == exprs::dim_expr(dims@[i]),
    decreases dims,
{
    if let List::Cons(first, rest) = dims {
        assert(dims@ == seq![list::held(&first)] + rest@);
        dimension_is_its_number(list::held(&rest), i - 1);
        let more = exprs::dim_exprs(list::held(&rest));
        let all = exprs::dim_exprs(dims);
        assert(all@ == seq![exprs::dim_expr(list::held(&first))] + more@);
        if 0 < i < dims@.len() {
            assert(dims@[i] == rest@[i - 1]);
            assert(all@[i] == more@[i - 1]);
        }
    }
}

// What waits to be read again.

/// What waits for a root is due where the root's type has become known, and not before.
pub proof fn known_roots_are_due(vars: Seq<InferVar>, at: nat, i: int, ty: Rc<TileType>)
    requires
        at <= i < vars.len(),
        vars.len() <= usize::MAX,
        vars[i].parent is None,
        vars[i].origins !is Nil,
        !vars[i].origin_propagated,
    ensures
        vars[i].value == Some(ty) ==> finish::due_from(vars, at)@.contains(
            finish::Due {
                id: InferVarId { index: i as usize },
                origins: vars[i].origins,
                value: ty,
            },
        ),
    decreases vars.len() - at,
{
    let all = finish::due_from(vars, at);
    let later = finish::due_from(vars, at + 1);
    let due = finish::Due {
        id: InferVarId { index: i as usize },
        origins: vars[i].origins,
        value: ty,
    };
    if at < i {
        known_roots_are_due(vars, at + 1, i, ty);
        if vars[i].value == Some(ty) {
            let k = later@.index_of(due);
            if finish::is_due(vars[at as int]) {
                assert(all@[k + 1] == later@[k]);
            }
        }
    } else if vars[i].value == Some(ty) {
        assert(all@[0] == due);
    }
}

/// What is due is a root with a known type that was not handed on yet.
pub proof fn only_known_roots_are_due(vars: Seq<InferVar>, at: nat, k: int)
    requires
        0 <= k < finish::due_from(vars, at)@.len(),
        vars.len() <= usize::MAX,
    ensures
        ({
            let due = finish::due_from(vars, at)@[k];
            &&& at <= due.id.index < vars.len()
            &&& vars[due.id.index as int].parent is None
            &&& !vars[due.id.index as int].origin_propagated
            &&& vars[due.id.index as int].value == Some(due.value)
            &&& vars[due.id.index as int].origins == due.origins
        }),
    decreases vars.len() - at,
{
    if at < vars.len() {
        let all = finish::due_from(vars, at);
        let later = finish::due_from(vars, at + 1);
        if finish::is_due(vars[at as int]) {
            assert(all@ == seq![list::held(&all->Cons_0)] + later@);
            if k > 0 {
                assert(all@[k] == later@[k - 1]);
                only_known_roots_are_due(vars, at + 1, k - 1);
            }
        } else {
            only_known_roots_are_due(vars, at + 1, k);
        }
    }
}

/// The expressions that wait are read in their order, each with the type that has become known.
pub proof fn waiting_expressions_are_read_in_order(
    f: Frame,
    limit: nat,
    s: StateView,
    origins: List<Expr>,
    last: Expr,
    value: Rc<TileType>,
    mid: StateView,
)
    requires
        finish::origins_read(f, limit, s, origins, value) == Ok::<(StateView, ()), Stop>((mid, ())),
    ensures
        finish::origins_read(f, limit, s, origins.pushed(last), value) == (match walk::expr_type(
            f,
            limit,
            mid,
            last,
            Some(value),
        ) {
            Ok((end, _)) => Ok::<(StateView, ()), Stop>((end, ())),
            Err(stop) => Err(stop),
        }),
    decreases origins,
{
    match origins {
        List::Nil => {
            let one = List::Cons(Rc::new(last), Rc::new(List::<Expr>::Nil));
            assert(origins.pushed(last) == one);
            match walk::expr_type(f, limit, mid, last, Some(value)) {
                Ok((end, _)) => {
                    assert(finish::origins_read(f, limit, end, List::Nil, value) == Ok::<
                        (StateView, ()),
                        Stop,
                    >((end, ())));
                },
                Err(_) => {},
            }
        },
        List::Cons(first, rest) => {
            assert(origins.pushed(last) == List::Cons(
                first,
                Rc::new(list::held(&rest).pushed(last)),
            ));
            let next = walk::expr_type(f, limit, s, list::held(&first), Some(value))->Ok_0.0;
            waiting_expressions_are_read_in_order(
                f,
                limit,
                next,
                list::held(&rest),
                last,
                value,
                mid,
            );
        },
    }
}

/// Where nothing waits, nothing changes but for the default types: the known types of all
/// expressions are filed.
pub proof fn known_types_are_filed_at_the_end(f: Frame, limit: nat, s: StateView, id: NodeId)
    requires
        forall|i: int|
            0 <= i < s.inference.vars.len() ==> (#[trigger] s.inference.vars[i]).value is Some
                || s.inference.vars[i].kind is General,
        forall|i: int|
            0 <= i < s.inference.vars.len() ==> (#[trigger] s.inference.vars[i]).origin_propagated
                || s.inference.vars[i].value is None,
        s.inference.terms.contains_key(id),
        unify::known_type(s.inference.vars, s.inference.terms[id]) is Some,
    ensures
        finish::finished(f, limit, s) matches Ok((end, _)) && end.inference == s.inference
            && end.results.tiles.contains_key(id) && Some(end.results.tiles[id])
            == unify::known_type(s.inference.vars, s.inference.terms[id]),
{
    nothing_is_due(s.inference.vars, 0);
    assert(finish::propagated(f, limit, limit, s) == Ok::<(StateView, ()), Stop>((s, ())));
    nothing_is_defaulted(f, s, 0);
}

proof fn nothing_is_due(vars: Seq<InferVar>, at: nat)
    requires
        forall|i: int|
            0 <= i < vars.len() ==> (#[trigger] vars[i]).origin_propagated || vars[i].value is None,
    ensures
        finish::due_from(vars, at) is Nil,
    decreases vars.len() - at,
{
    if at < vars.len() {
        assert(vars[at as int].origin_propagated || vars[at as int].value is None);
        nothing_is_due(vars, at + 1);
    }
}

proof fn nothing_is_defaulted(f: Frame, s: StateView, at: nat)
    requires
        forall|i: int|
            0 <= i < s.inference.vars.len() ==> (#[trigger] s.inference.vars[i]).value is Some
                || s.inference.vars[i].kind is General,
    ensures
        finish::defaulted(f, s, at) == Ok::<(StateView, ()), Stop>((s, ())),
    decreases s.inference.vars.len() - at,
{
    if at < s.inference.vars.len() {
        assert(s.inference.vars[at as int].value is Some || s.inference.vars[at as int].kind is General);
        nothing_is_defaulted(f, s, at + 1);
    }
}

/// At the start of a body each parameter stands for the type that is given for it, and nothing else
/// is known.
pub proof fn parameters_have_their_given_types(
    initial: Map<Symbol, Rc<TileType>>,
    name: Symbol,
)
    ensures
        ({
            let s = finish::entered(initial);
            &&& initial.contains_key(name) ==> state::looked_up(s.vars, name) == Some(initial[name])
            &&& initial.contains_key(name) ==> state::looked_up(s.local_terms, name) == Some(
                InferredTy::Known(initial[name]),
            )
            &&& initial.contains_key(name) ==> state::looked_up(s.syn_vars, name) == Some(
                initial[name].rust_ty,
            )
            &&& !initial.contains_key(name) ==> state::looked_up(s.vars, name) is None
                && state::looked_up(s.local_terms, name) is None
            &&& !s.mutable_vars.contains(name)
            &&& s.inference.vars.len() == 0
        }),
{
}

/// The body of a function is read with the type that is declared for its result, from the state in
/// which its parameters have their types; what is found at the end is what inference gives.
pub proof fn body_is_read_with_the_declared_result(
    f: Frame,
    limit: nat,
    item: FnItem,
    initial: Map<Symbol, Rc<TileType>>,
    expected: Option<Rc<TileType>>,
    s: StateView,
    end: StateView,
)
    requires
        ask::compiled_if_any(f.env, *item.return_type) == Ok::<Option<Rc<TileType>>, Stop>(expected),
        walk::block_type(f, limit, finish::entered(initial), item.body, expected) matches Ok((mid, _))
            && mid == s,
        finish::finished(f, limit, s) == Ok::<(StateView, ()), Stop>((end, ())),
    ensures
        finish::inferred(f, limit, item, initial) == Ok::<results::ResultsView, Stop>(end.results),
{
}

} // verus!

//! Calls that are inlined: what their arguments are bound to, what their body is compiled under, and
//! what they give.
use crate::codegen::consts::{self, add_module_const_vars, bind_constants, Bound, ModuleConst};
use crate::codegen::tape::{
    self, CompileError, Halt, Place, Reply, Request, Run, Tape, TypedName,
};
use crate::codegen::typing::{self, find_types, Body, Typing};
use crate::codegen::value::{
    self, same_module_identity, update_type_meta, write_as, Context, Passed, Value, Var,
};
use crate::env::{GenericVars, MethodItem, NamedParam, Solver, Step, TileType, TypeParam};
use crate::exprs::{self, local_name, path_last_name};
use crate::infer::selection::{self, named_params};
use crate::list::{self, share, share_opt, List};
use crate::names::{self, Names};
use crate::render::{self, write_decimal};
use crate::results::{self, ResultsView, TypeckResults};
use crate::syntax::{
    Block, Expr, ExprKind, FnItem, GenericArg, Path, PathArgs, Segment, Symbol, Type,
};
use crate::types::{self, path_angle_args};
use std::rc::Rc;
use vstd::prelude::*;

verus! {

/// What surrounds a piece of code that is compiled: the program, the module that the kernel stands
/// in and its constants, the generic names, and the types found in the code.
pub struct Site {
    pub typing: Rc<Typing>,
    pub module: Symbol,
    pub consts: List<ModuleConst>,
    pub generics: Rc<GenericVars>,
    pub results: Option<Rc<TypeckResults>>,
}

// Types that were found.

/// The compiled type of an expression: the one that is filed, or else what the type that is filed
/// compiles to.
pub open spec fn tile_type_of(
    tape: List<Reply>,
    site: Site,
    expr: Expr,
    params: List<NamedParam>,
) -> Run<Option<Rc<TileType>>> {
    match site.results {
        None => Ok((tape, None)),
        Some(found) => match results::filed(found@.tiles, expr.id) {
            Some(ty) => Ok((tape, Some(ty))),
            None => match results::surface_type(found@, expr.id) {
                None => Ok((tape, None)),
                Some(ty) => tape::type_reply(
                    tape,
                    Request::CompileType { ty: Rc::new(ty), generics: site.generics, params },
                ),
            },
        },
    }
}

pub fn typeck_expr_tile_type(
    tape: &mut Tape,
    site: &Site,
    expr: &Expr,
    params: List<NamedParam>,
) -> (r: Result<Option<Rc<TileType>>, Halt>)
    ensures
        tape::follows(r, final(tape).left, tile_type_of(old(tape).left, *site, *expr, params)),
{
    let found = match &site.results {
        Some(found) => found,
        None => return Ok(None),
    };
    if let Some(ty) = found.expr_type(expr) {
        return Ok(Some(ty));
    }
    match found.syn_expr_type(expr) {
        Some(ty) => tape.ask_type(
            Request::CompileType { ty, generics: share(&site.generics), params },
        ),
        None => Ok(None),
    }
}

pub fn typeck_expr_syn_type(site: &Site, expr: &Expr) -> (r: Option<Rc<Type>>)
    ensures
        r == (match site.results {
            Some(found) => types::shared(results::surface_type(found@, expr.id)),
            None => None::<Rc<Type>>,
        }),
{
    match &site.results {
        Some(found) => found.syn_expr_type(expr),
        None => None,
    }
}

/// The type of what an expression gives, where the parameters of its value's type are known.
pub open spec fn derived_type(
    tape: List<Reply>,
    site: Site,
    expr: Expr,
    params: List<TypeParam>,
) -> Run<Option<Rc<TileType>>> {
    tile_type_of(tape, site, expr, selection::params_by_name(params, List::Nil))
}

pub fn derive_type(
    tape: &mut Tape,
    site: &Site,
    expr: &Expr,
    params: &List<TypeParam>,
) -> (r: Result<Option<Rc<TileType>>, Halt>)
    ensures
        tape::follows(r, final(tape).left, derived_type(old(tape).left, *site, *expr, *params)),
{
    typeck_expr_tile_type(tape, site, expr, named_params(params))
}

// Arguments.

/// Whether an argument is compiled with the type that was found for it: a literal, an operator
/// before its operand, or `None`.
pub open spec fn takes_found_type(arg: Expr) -> bool {
    match arg.kind {
        ExprKind::Lit { .. } => true,
        ExprKind::Unary { .. } => true,
        ExprKind::Path { path, .. } => exprs::last_name(path) == Some(names::NO_VALUE),
        _ => false,
    }
}

fn needs_found_type(arg: &Expr) -> (r: bool)
    ensures
        r == takes_found_type(*arg),
{
    match &arg.kind {
        ExprKind::Lit { lit: _, ty: _ } => true,
        ExprKind::Unary { op: _, expr: _ } => true,
        ExprKind::Path { qself: _, path } => match path_last_name(path) {
            Some(name) => name == names::NO_VALUE,
            None => false,
        },
        _ => false,
    }
}

/// A position that is counted; the largest stands for all that are larger.
pub open spec fn after(at: usize) -> usize {
    if at == usize::MAX {
        at
    } else {
        (at + 1) as usize
    }
}

fn next_position(at: usize) -> (r: usize)
    ensures
        r == after(at),
{
    if at == usize::MAX {
        at
    } else {
        at + 1
    }
}

/// The values of arguments from a position on, and the names in scope after them.
pub open spec fn arg_values(
    tape: List<Reply>,
    site: Site,
    scope: Context,
    args: List<Expr>,
    at: usize,
) -> Run<(List<Value>, Context)>
    decreases args,
{
    match args {
        List::Nil => Ok((tape, (List::Nil, scope))),
        List::Cons(arg, rest) => {
            let expected = if takes_found_type(*arg) {
                tile_type_of(tape, site, *arg, List::Nil)
            } else {
                Ok((tape, None))
            };
            match expected {
                Err(halt) => Err(halt),
                Ok((tape, expected)) => match tape::value_reply(
                    tape,
                    Request::CompileExpr {
                        expr: arg,
                        generics: site.generics,
                        scope: Rc::new(scope),
                        expected,
                    },
                ) {
                    Err(halt) => Err(halt),
                    Ok((_, (None, _))) => Err(
                        Halt::Failed(CompileError::UncompiledArgument(Place::Argument(at))),
                    ),
                    Ok((tape, (Some(val), scope))) => match arg_values(
                        tape,
                        site,
                        *scope,
                        *rest,
                        after(at),
                    ) {
                        Err(halt) => Err(halt),
                        Ok((tape, (more, scope))) => Ok(
                            (tape, (List::Cons(val, Rc::new(more)), scope)),
                        ),
                    },
                },
            }
        },
    }
}

pub fn compile_call_args(
    tape: &mut Tape,
    site: &Site,
    scope: Context,
    args: &List<Expr>,
    at: usize,
) -> (r: Result<(List<Value>, Context), Halt>)
    ensures
        tape::follows(r, final(tape).left, arg_values(old(tape).left, *site, scope, *args, at)),
    decreases args,
{
    match args {
        List::Nil => Ok((List::Nil, scope)),
        List::Cons(arg, rest) => {
            let expected = if needs_found_type(arg) {
                typeck_expr_tile_type(tape, site, arg, List::Nil)?
            } else {
                None
            };
            let request = Request::CompileExpr {
                expr: share(arg),
                generics: share(&site.generics),
                scope: Rc::new(scope),
                expected,
            };
            match tape.ask_value(request)? {
                (None, _) => Err(
                    Halt::Failed(CompileError::UncompiledArgument(Place::Argument(at))),
                ),
                (Some(val), scope) => {
                    let (more, scope) = compile_call_args(
                        tape,
                        site,
                        scope.dup(),
                        rest,
                        next_position(at),
                    )?;
                    Ok((List::prepend(val, more), scope))
                },
            }
        },
    }
}

/// The types of values, as written.
pub open spec fn written_types(values: List<Value>) -> List<Type>
    decreases values,
{
    match values {
        List::Nil => List::Nil,
        List::Cons(val, rest) => List::Cons(val.ty.rust_ty, Rc::new(written_types(*rest))),
    }
}

fn types_of(values: &List<Value>) -> (r: List<Type>)
    ensures
        r == written_types(*values),
    decreases values,
{
    match values {
        List::Nil => List::Nil,
        List::Cons(val, rest) => List::prepend(share(&val.ty.rust_ty), types_of(rest)),
    }
}

// Parameters.

/// The text of the name by which the body of an inlined function knows what a `Some` argument holds.
pub open spec fn payload_text(at: nat) -> Seq<char> {
    "__cutile_inline_option_payload_"@ + render::decimal(at)
}

pub fn payload_name(at: usize) -> (r: String)
    ensures
        r@ == payload_text(at as nat),
{
    let mut text = "__cutile_inline_option_payload_".to_owned();
    write_decimal(at as u128, &mut text);
    text
}

/// A name as an expression.
pub open spec fn name_expr(name: Symbol) -> Expr {
    Expr {
        id: None,
        kind: ExprKind::Path {
            qself: None,
            path: Path {
                global: false,
                segments: List::Cons(
                    Rc::new(Segment { ident: name, args: PathArgs::Bare }),
                    Rc::new(List::Nil),
                ),
            },
        },
    }
}

fn make_name_expr(name: Symbol) -> (r: Rc<Expr>)
    ensures
        *r == name_expr(name),
{
    let segment = Segment { ident: name, args: PathArgs::Bare };
    let path = Path { global: false, segments: List::one(Rc::new(segment)) };
    Rc::new(Expr { id: None, kind: ExprKind::Path { qself: None, path } })
}

/// An argument as the parameter that it is bound to: of the parameter's type and mutability.
pub open spec fn as_param(arg: Value, ty: Rc<Type>, mutable: bool) -> Value {
    Value { ty: Rc::new(value::written_as(*arg.ty, ty)), mutable, ..arg }
}

fn make_param(arg: &Value, ty: &Rc<Type>, mutable: bool) -> (r: Value)
    ensures
        r == as_param(*arg, *ty, mutable),
{
    let mut val = arg.dup();
    val.ty = write_as(&arg.ty, ty);
    val.mutable = mutable;
    val
}

/// The names that an inlined body starts with, and the caller's names after them.
pub struct Entered {
    /// The names inside.
    pub inner: Context,
    /// The names of the caller.
    pub outer: Context,
    /// Which names of the caller were passed as which parameters.
    pub passed: List<Passed>,
}

/// The pairs with one more, where the argument is a name.
pub open spec fn with_passed(passed: List<Passed>, arg: Expr, param: Symbol) -> List<Passed> {
    match exprs::expr_name(arg) {
        Some(outer) => List::Cons(Rc::new(Passed { outer, inner: param }), Rc::new(passed)),
        None => passed,
    }
}

fn note_passed(passed: List<Passed>, arg: &Expr, param: Symbol) -> (r: List<Passed>)
    ensures
        r == with_passed(passed, *arg, param),
{
    match local_name(arg) {
        Some(outer) => List::prepend(Rc::new(Passed { outer, inner: param }), passed),
        None => passed,
    }
}

/// What a `Some` argument holds is compiled where the call stands and bound inside to a name of its
/// own, which the argument holds from then on.
pub open spec fn payload_bound(
    tape: List<Reply>,
    site: Site,
    entered: Entered,
    arg: Value,
    payload_name: Symbol,
    at: usize,
) -> Run<(Entered, Value)> {
    if arg.variant != Some(names::WITH_VALUE) {
        Ok((tape, (entered, arg)))
    } else {
        match arg.payload {
            None => Err(Halt::Failed(CompileError::MissingPayload(Place::Argument(at)))),
            Some(payload) => match tape::value_reply(
                tape,
                Request::CompileExpr {
                    expr: payload,
                    generics: site.generics,
                    scope: Rc::new(entered.outer),
                    expected: None,
                },
            ) {
                Err(halt) => Err(halt),
                Ok((_, (None, _))) => Err(
                    Halt::Failed(CompileError::UncompiledPayload(Place::Argument(at))),
                ),
                Ok((tape, (Some(val), outer))) => Ok(
                    (
                        tape,
                        (
                            Entered {
                                inner: value::binding(entered.inner, payload_name, val),
                                outer: *outer,
                                passed: entered.passed,
                            },
                            Value { payload: Some(Rc::new(name_expr(payload_name))), ..arg },
                        ),
                    ),
                ),
            },
        }
    }
}

fn bind_payload(
    tape: &mut Tape,
    site: &Site,
    entered: Entered,
    arg: &Value,
    payload_name: Symbol,
    at: usize,
) -> (r: Result<(Entered, Value), Halt>)
    ensures
        tape::follows(
            r,
            final(tape).left,
            payload_bound(old(tape).left, *site, entered, *arg, payload_name, at),
        ),
{
    let mut arg = arg.dup();
    let holds = match arg.variant {
        Some(name) => name == names::WITH_VALUE,
        None => false,
    };
    if !holds {
        return Ok((entered, arg));
    }
    let payload = match &arg.payload {
        Some(payload) => share(payload),
        None => {
            return Err(Halt::Failed(CompileError::MissingPayload(Place::Argument(at))));
        },
    };
    let request = Request::CompileExpr {
        expr: payload,
        generics: share(&site.generics),
        scope: Rc::new(entered.outer),
        expected: None,
    };
    match tape.ask_value(request)? {
        (None, _) => Err(Halt::Failed(CompileError::UncompiledPayload(Place::Argument(at)))),
        (Some(val), outer) => {
            let mut inner = entered.inner;
            inner.insert(payload_name, val);
            arg.payload = Some(make_name_expr(payload_name));
            Ok((Entered { inner, outer: outer.dup(), passed: entered.passed }, arg))
        },
    }
}

/// What is known of the parameters of a callable, from one on.
pub struct Params {
    pub names: List<Symbol>,
    pub types: List<Type>,
    pub mutable: List<bool>,
    /// The names for what `Some` arguments hold; none where they are passed as they are.
    pub payload_names: Option<List<Symbol>>,
}

/// The list without its first item.
pub open spec fn behind<T>(items: List<T>) -> List<T> {
    match items {
        List::Nil => List::Nil,
        List::Cons(_, rest) => *rest,
    }
}

fn without_first<T>(items: &List<T>) -> (r: List<T>)
    ensures
        r == behind(*items),
{
    match items {
        List::Nil => List::Nil,
        List::Cons(_, rest) => rest.dup(),
    }
}

/// The first item, or the number zero where there is none.
pub open spec fn first_name(items: List<Symbol>) -> Symbol {
    match items {
        List::Nil => 0,
        List::Cons(name, _) => *name,
    }
}

fn get_first_name(items: &List<Symbol>) -> (r: Symbol)
    ensures
        r == first_name(*items),
{
    match items {
        List::Nil => 0,
        List::Cons(name, _) => **name,
    }
}

/// Arguments bound to parameters, one after the other. Arguments beyond the parameters are not
/// bound; a parameter without an argument is an error.
pub open spec fn params_bound(
    tape: List<Reply>,
    site: Site,
    entered: Entered,
    params: Params,
    args: List<Expr>,
    values: List<Value>,
    at: usize,
) -> Run<Entered>
    decreases params.names,
{
    match params.names {
        List::Nil => Ok((tape, entered)),
        List::Cons(name, more_names) => match (params.types, params.mutable, args, values) {
            (
                List::Cons(ty, more_types),
                List::Cons(mutable, more_mutable),
                List::Cons(arg, more_args),
                List::Cons(val, more_values),
            ) => {
                let step = match params.payload_names {
                    Some(payloads) => payload_bound(
                        tape,
                        site,
                        entered,
                        *val,
                        first_name(payloads),
                        at,
                    ),
                    None => Ok((tape, (entered, *val))),
                };
                match step {
                    Err(halt) => Err(halt),
                    Ok((tape, (entered, val))) => params_bound(
                        tape,
                        site,
                        Entered {
                            inner: value::binding(
                                entered.inner,
                                *name,
                                Rc::new(as_param(val, ty, *mutable)),
                            ),
                            outer: entered.outer,
                            passed: with_passed(entered.passed, *arg, *name),
                        },
                        Params {
                            names: *more_names,
                            types: *more_types,
                            mutable: *more_mutable,
                            payload_names: match params.payload_names {
                                Some(payloads) => Some(behind(payloads)),
                                None => None,
                            },
                        },
                        *more_args,
                        *more_values,
                        after(at),
                    ),
                }
            },
            _ => Err(Halt::Failed(CompileError::TooFewArguments(Place::Param(at)))),
        },
    }
}

fn bind_params(
    tape: &mut Tape,
    site: &Site,
    entered: Entered,
    params: &Params,
    args: &List<Expr>,
    values: &List<Value>,
    at: usize,
) -> (r: Result<Entered, Halt>)
    ensures
        tape::follows(
            r,
            final(tape).left,
            params_bound(old(tape).left, *site, entered, *params, *args, *values, at),
        ),
    decreases params.names,
{
    match &params.names {
        List::Nil => Ok(entered),
        List::Cons(name, more_names) => match (&params.types, &params.mutable, args, values) {
            (
                List::Cons(ty, more_types),
                List::Cons(mutable, more_mutable),
                List::Cons(arg, more_args),
                List::Cons(val, more_values),
            ) => {
                let (entered, val) = match &params.payload_names {
                    Some(payloads) => bind_payload(
                        tape,
                        site,
                        entered,
                        val,
                        get_first_name(payloads),
                        at,
                    )?,
                    None => (entered, val.dup()),
                };
                let mut inner = entered.inner;
                inner.insert(**name, Rc::new(make_param(&val, ty, **mutable)));
                let entered = Entered {
                    inner,
                    outer: entered.outer,
                    passed: note_passed(entered.passed, arg, **name),
                };
                let params = Params {
                    names: more_names.dup(),
                    types: more_types.dup(),
                    mutable: more_mutable.dup(),
                    payload_names: match &params.payload_names {
                        Some(payloads) => Some(without_first(payloads)),
                        None => None,
                    },
                };
                bind_params(
                    tape,
                    site,
                    entered,
                    &params,
                    more_args,
                    more_values,
                    next_position(at),
                )
            },
            _ => Err(Halt::Failed(CompileError::TooFewArguments(Place::Param(at)))),
        },
    }
}

/// Whether no name of a list is among others.
pub open spec fn apart(names: List<Symbol>, others: List<Symbol>) -> bool {
    forall|i: int, j: int|
        0 <= i < names@.len() && 0 <= j < others@.len() ==> #[trigger] names@[i]
            != #[trigger] others@[j]
}

/// Whether there is a name of its own for what each `Some` argument may hold.
pub open spec fn payloads_are_named(params: Params) -> bool {
    match params.payload_names {
        Some(payloads) => payloads@.len() >= params.names@.len() && apart(params.names, payloads),
        None => true,
    }
}

pub(crate) proof fn other_names_stay(
    tape: List<Reply>,
    site: Site,
    entered: Entered,
    params: Params,
    args: List<Expr>,
    values: List<Value>,
    at: usize,
    name: Symbol,
)
    requires
        params_bound(tape, site, entered, params, args, values, at) is Ok,
        !params.names@.contains(name),
        params.payload_names matches Some(payloads) ==> payloads@.len() >= params.names@.len()
            && !payloads@.contains(name),
    ensures
        value::value_of(
            params_bound(tape, site, entered, params, args, values, at)->Ok_0.1.inner.vars,
            name,
        ) == value::value_of(entered.inner.vars, name),
    decreases params.names,
{
    if let List::Cons(first, more_names) = params.names {
        assert(params.names@[0] == *first);
        assert(params.names@ == seq![list::held(&first)] + more_names@);
        assert forall|x: Symbol| more_names@.contains(x) implies params.names@.contains(x) by {
            let i = more_names@.index_of(x);
            assert(params.names@[i + 1] == x);
        }
        let step = match params.payload_names {
            Some(payloads) => payload_bound(
                tape,
                site,
                entered,
                list::held(&values->Cons_0),
                first_name(payloads),
                at,
            ),
            None => Ok((tape, (entered, list::held(&values->Cons_0)))),
        };
        let (next_tape, (next, val)) = step->Ok_0;
        if let Some(payloads) = params.payload_names {
            assert(payloads@[0] == first_name(payloads));
            assert(payloads@ == seq![first_name(payloads)] + behind(payloads)@);
            assert forall|x: Symbol| behind(payloads)@.contains(x) implies payloads@.contains(x) by {
                let i = behind(payloads)@.index_of(x);
                assert(payloads@[i + 1] == x);
            }
        }
        other_names_stay(
            next_tape,
            site,
            Entered {
                inner: value::binding(
                    next.inner,
                    list::held(&first),
                    Rc::new(
                        as_param(
                            val,
                            params.types->Cons_0,
                            list::held(&params.mutable->Cons_0),
                        ),
                    ),
                ),
                outer: next.outer,
                passed: with_passed(next.passed, list::held(&args->Cons_0), list::held(&first)),
            },
            Params {
                names: list::held(&more_names),
                types: list::held(&params.types->Cons_1),
                mutable: list::held(&params.mutable->Cons_1),
                payload_names: match params.payload_names {
                    Some(payloads) => Some(behind(payloads)),
                    None => None,
                },
            },
            list::held(&args->Cons_1),
            list::held(&values->Cons_1),
            after(at),
            name,
        );
    }
}

/// The names that an inlined body starts with are those of its parameters, each of the type and the
/// mutability that the callee declares.
pub proof fn params_are_as_declared(
    tape: List<Reply>,
    site: Site,
    entered: Entered,
    params: Params,
    args: List<Expr>,
    values: List<Value>,
    at: usize,
    name: Symbol,
)
    requires
        params_bound(tape, site, entered, params, args, values, at) is Ok,
        payloads_are_named(params),
        params.names@.contains(name),
    ensures
        value::value_of(
            params_bound(tape, site, entered, params, args, values, at)->Ok_0.1.inner.vars,
            name,
        ) matches Some(val) && exists|i: int|
            0 <= i < params.names@.len() && i < params.types@.len() && i < params.mutable@.len()
                && #[trigger] params.names@[i] == name && *val.ty.rust_ty == params.types@[i]
                && val.mutable == params.mutable@[i],
    decreases params.names,
{
    match params.names {
        List::Nil => {},
        List::Cons(first, more_names) => {
            assert(params.names@ == seq![list::held(&first)] + more_names@);
            assert(params.names@[0] == *first);
            let types_left = params.types->Cons_1;
            let mutable_left = params.mutable->Cons_1;
            assert(params.types@ == seq![list::held(&params.types->Cons_0)] + types_left@);
            assert(params.mutable@ == seq![list::held(&params.mutable->Cons_0)] + mutable_left@);
            let step = match params.payload_names {
                Some(payloads) => payload_bound(
                    tape,
                    site,
                    entered,
                    list::held(&values->Cons_0),
                    first_name(payloads),
                    at,
                ),
                None => Ok((tape, (entered, list::held(&values->Cons_0)))),
            };
            let (next_tape, (next, val)) = step->Ok_0;
            let param = as_param(val, params.types->Cons_0, list::held(&params.mutable->Cons_0));
            let inner = Entered {
                inner: value::binding(next.inner, list::held(&first), Rc::new(param)),
                outer: next.outer,
                passed: with_passed(next.passed, list::held(&args->Cons_0), list::held(&first)),
            };
            let rest = Params {
                names: list::held(&more_names),
                types: list::held(&types_left),
                mutable: list::held(&mutable_left),
                payload_names: match params.payload_names {
                    Some(payloads) => Some(behind(payloads)),
                    None => None,
                },
            };
            if let Some(payloads) = params.payload_names {
                assert(payloads@ == seq![first_name(payloads)] + behind(payloads)@);
                assert forall|i: int, j: int|
                    0 <= i < rest.names@.len() && 0 <= j < behind(payloads)@.len() implies #[trigger]
                rest.names@[i] != #[trigger] behind(payloads)@[j] by {
                    assert(params.names@[i + 1] == rest.names@[i]);
                    assert(payloads@[j + 1] == behind(payloads)@[j]);
                }
            }
            if more_names@.contains(name) {
                params_are_as_declared(
                    next_tape,
                    site,
                    inner,
                    rest,
                    list::held(&args->Cons_1),
                    list::held(&values->Cons_1),
                    after(at),
                    name,
                );
                let found = value::value_of(
                    params_bound(
                        next_tape,
                        site,
                        inner,
                        rest,
                        list::held(&args->Cons_1),
                        list::held(&values->Cons_1),
                        after(at),
                    )->Ok_0.1.inner.vars,
                    name,
                )->0;
                let i = choose|i: int|
                    0 <= i < rest.names@.len() && i < rest.types@.len() && i < rest.mutable@.len()
                        && #[trigger] rest.names@[i] == name && *found.ty.rust_ty == rest.types@[i]
                        && found.mutable == rest.mutable@[i];
                assert(params.names@[i + 1] == name);
                assert(params.types@[i + 1] == rest.types@[i]);
                assert(params.mutable@[i + 1] == rest.mutable@[i]);
            } else {
                let k = params.names@.index_of(name);
                assert(k == 0) by {
                    if k > 0 {
                        assert(more_names@[k - 1] == name);
                    }
                }
                if let Some(payloads) = params.payload_names {
                    assert(!behind(payloads)@.contains(name)) by {
                        if behind(payloads)@.contains(name) {
                            let j = behind(payloads)@.index_of(name);
                            assert(payloads@[j + 1] == params.names@[0]);
                        }
                    }
                }
                other_names_stay(
                    next_tape,
                    site,
                    inner,
                    rest,
                    list::held(&args->Cons_1),
                    list::held(&values->Cons_1),
                    after(at),
                    name,
                );
                assert(params.names@[0] == name);
                assert(params.types@[0] == list::held(&params.types->Cons_0));
                assert(params.mutable@[0] == list::held(&params.mutable->Cons_0));
            }
        },
    }
}

// Initial types.

/// The names in scope with their types.
pub open spec fn typed_names(vars: List<Var>) -> List<TypedName>
    decreases vars,
{
    match vars {
        List::Nil => List::Nil,
        List::Cons(var, rest) => List::Cons(
            Rc::new(TypedName { name: var.name, ty: var.value.ty }),
            Rc::new(typed_names(*rest)),
        ),
    }
}

fn collect_typed_names(vars: &List<Var>) -> (r: List<TypedName>)
    ensures
        r == typed_names(*vars),
    decreases vars,
{
    match vars {
        List::Nil => List::Nil,
        List::Cons(var, rest) => List::prepend(
            Rc::new(TypedName { name: var.name, ty: share(&var.value.ty) }),
            collect_typed_names(rest),
        ),
    }
}

/// Inference starts with every name in scope, each of the type of the value that it stands for.
pub proof fn table_holds_types_in_scope(vars: List<Var>, name: Symbol)
    ensures
        typing::type_table(typed_names(vars)).contains_key(name) == (value::value_of(vars, name)
            is Some),
        value::value_of(vars, name) matches Some(val) ==> typing::type_table(
            typed_names(vars),
        )[name] == val.ty,
    decreases vars,
{
    if let List::Cons(var, rest) = vars {
        table_holds_types_in_scope(list::held(&rest), name);
    }
}

// What a call gives.

/// How the type that is expected of a call shapes what it gives.
#[derive(Clone, Copy, PartialEq, Eq, Structural, Debug)]
pub enum Adopts {
    /// The whole type.
    All,
    /// Only how it is written: the rest is known from the value.
    Written,
}

/// What a call gives: the value of its body, of the type that is expected, or else of the type that
/// was found for the call.
pub open spec fn call_value(
    tape: List<Reply>,
    site: Site,
    call: Expr,
    value: Option<Rc<Value>>,
    expected: Option<Rc<TileType>>,
    adopts: Adopts,
) -> Run<Option<Rc<Value>>> {
    match (value, expected) {
        (None, _) => Ok((tape, None)),
        (Some(val), Some(ty)) => match adopts {
            Adopts::All => Ok((tape, Some(Rc::new(Value { ty, ..*val })))),
            Adopts::Written => Ok(
                (
                    tape,
                    Some(
                        Rc::new(
                            Value {
                                ty: Rc::new(value::written_as(*val.ty, ty.rust_ty)),
                                ..*val
                            },
                        ),
                    ),
                ),
            ),
        },
        (Some(val), None) => match derived_type(tape, site, call, val.ty.params) {
            Err(halt) => Err(halt),
            Ok((_, None)) => Err(Halt::Failed(CompileError::NoReturnType(Place::Callee))),
            Ok((tape, Some(ty))) => Ok((tape, Some(Rc::new(Value { ty, ..*val })))),
        },
    }
}

fn finish_call(
    tape: &mut Tape,
    site: &Site,
    call: &Expr,
    value: Option<Rc<Value>>,
    expected: &Option<Rc<TileType>>,
    adopts: Adopts,
) -> (r: Result<Option<Rc<Value>>, Halt>)
    ensures
        tape::follows(
            r,
            final(tape).left,
            call_value(old(tape).left, *site, *call, value, *expected, adopts),
        ),
{
    let val = match value {
        Some(val) => val,
        None => return Ok(None),
    };
    let mut given = val.dup();
    given.ty = match expected {
        Some(ty) => match adopts {
            Adopts::All => share(ty),
            Adopts::Written => write_as(&val.ty, &ty.rust_ty),
        },
        None => match derive_type(tape, site, call, &val.ty.params)? {
            Some(ty) => ty,
            None => return Err(Halt::Failed(CompileError::NoReturnType(Place::Callee))),
        },
    };
    Ok(Some(Rc::new(given)))
}

/// What is left of a call once its body is compiled: the caller's names, and what the call gives.
pub open spec fn call_ended(
    tape: List<Reply>,
    site: Site,
    call: Expr,
    entered: Entered,
    body: (Option<Rc<Value>>, Rc<Context>),
    expected: Option<Rc<TileType>>,
    adopts: Adopts,
) -> Run<(Option<Rc<Value>>, Context)> {
    match call_value(tape, site, call, body.0, expected, adopts) {
        Err(halt) => Err(halt),
        Ok((tape, val)) => Ok(
            (
                tape,
                (
                    val,
                    Context {
                        vars: value::vars_after_body(
                            body.1.vars,
                            entered.passed,
                            entered.outer.vars,
                        ),
                        ..entered.outer
                    },
                ),
            ),
        ),
    }
}

fn end_call(
    tape: &mut Tape,
    site: &Site,
    call: &Expr,
    entered: Entered,
    body: (Option<Rc<Value>>, Rc<Context>),
    expected: &Option<Rc<TileType>>,
    adopts: Adopts,
) -> (r: Result<(Option<Rc<Value>>, Context), Halt>)
    ensures
        tape::follows(
            r,
            final(tape).left,
            call_ended(old(tape).left, *site, *call, entered, body, *expected, adopts),
        ),
{
    let (value, inner) = body;
    let mut outer = entered.outer;
    outer.vars = update_type_meta(&inner.vars, &outer.vars, &entered.passed);
    let val = finish_call(tape, site, call, value, expected, adopts)?;
    Ok((val, outer))
}

// Generic names.

/// The generic names of a callable with its constants, those of the module among them.
pub open spec fn bound_generics(
    tape: List<Reply>,
    names: Names,
    site: Site,
    vars: Rc<GenericVars>,
) -> Run<Bound> {
    match tape::constants_reply(tape, Request::Constants(vars)) {
        Err(halt) => Err(halt),
        Ok((tape, constants)) => Ok(
            (tape, consts::with_module_consts(names, Bound { vars, constants }, site.consts)),
        ),
    }
}

fn bind_generics(
    tape: &mut Tape,
    names: &Names,
    site: &Site,
    vars: Rc<GenericVars>,
) -> (r: Result<Bound, Halt>)
    ensures
        tape::follows(r, final(tape).left, bound_generics(old(tape).left, *names, *site, vars)),
{
    let constants = tape.ask_constants(Request::Constants(share(&vars)))?;
    Ok(add_module_const_vars(names, Bound { vars, constants }, &site.consts))
}

/// The generic arguments written at a call.
pub open spec fn written_generics(func: Expr) -> Option<List<GenericArg>> {
    match func.kind {
        ExprKind::Path { path, .. } => types::angle_args(path),
        _ => None,
    }
}

fn read_written_generics(func: &Expr) -> (r: Option<List<GenericArg>>)
    ensures
        r == written_generics(*func),
{
    match &func.kind {
        ExprKind::Path { qself: _, path } => path_angle_args(path),
        _ => None,
    }
}

/// Where the generic names of a function come from: nowhere if it has no generic parameters, else
/// from the arguments written at the call, else from the types of its arguments.
pub open spec fn function_generics(
    tape: List<Reply>,
    site: Site,
    item: FnItem,
    func: Expr,
    values: List<Value>,
) -> Run<Rc<GenericVars>> {
    let request = if item.generics.params is Nil {
        Request::EmptyGenerics(item.id)
    } else {
        match written_generics(func) {
            Some(args) => Request::PassedGenerics {
                callable: item.id,
                args,
                outer: site.generics,
            },
            None => Request::InferredGenerics {
                solver: Solver {
                    impl_item: None,
                    callable: item.id,
                    steps: List::Cons(
                        Rc::new(Step::Arguments(written_types(values))),
                        Rc::new(List::Nil),
                    ),
                },
                outer: site.generics,
            },
        }
    };
    tape::vars_reply(tape, request)
}

fn find_function_generics(
    tape: &mut Tape,
    site: &Site,
    item: &FnItem,
    func: &Expr,
    values: &List<Value>,
) -> (r: Result<Rc<GenericVars>, Halt>)
    ensures
        tape::follows(
            r,
            final(tape).left,
            function_generics(old(tape).left, *site, *item, *func, *values),
        ),
{
    if item.generics.params.is_empty() {
        return tape.ask_vars(Request::EmptyGenerics(item.id));
    }
    let outer = share(&site.generics);
    let request = match read_written_generics(func) {
        Some(args) => Request::PassedGenerics { callable: item.id, args, outer },
        None => {
            let steps = List::one(Rc::new(Step::Arguments(types_of(values))));
            Request::InferredGenerics {
                solver: Solver { impl_item: None, callable: item.id, steps },
                outer,
            }
        },
    };
    tape.ask_vars(request)
}

// Functions.

/// An inlined call of a function, from the point where its arguments are bound.
pub open spec fn function_body(
    tape: List<Reply>,
    names: Names,
    site: Site,
    module: Symbol,
    item: Rc<FnItem>,
    call: Expr,
    entered: Entered,
    bound: Bound,
    expected: Option<Rc<TileType>>,
) -> Run<(Option<Rc<Value>>, Context)> {
    let at_call = !value::same_module(names.text_of(module), names.text_of(site.module));
    match tape::item_reply(tape, Request::Number { item, at_call }) {
        Err(halt) => Err(halt),
        Ok((tape, numbered)) => match typing::body_types(
            tape,
            *site.typing,
            bound.vars,
            Body { impl_item: None, item: numbered },
            typed_names(entered.inner.vars),
        ) {
            Err(halt) => Err(halt),
            Ok((tape, found)) => match tape::item_reply(
                tape,
                Request::Lower { item: numbered, results: found },
            ) {
                Err(halt) => Err(halt),
                Ok((tape, lowered)) => match tape::value_reply(
                    tape,
                    Request::CompileBlock {
                        body: Rc::new(lowered.body),
                        generics: bound.vars,
                        scope: Rc::new(entered.inner),
                        expected,
                        results: found,
                    },
                ) {
                    Err(halt) => Err(halt),
                    Ok((tape, body)) => call_ended(
                        tape,
                        site,
                        call,
                        entered,
                        body,
                        expected,
                        Adopts::All,
                    ),
                },
            },
        },
    }
}

/// The body of a function is compiled with the types that inference finds in the function as it is
/// numbered, under some book of answers.
pub proof fn function_is_compiled_with_its_types(
    tape: List<Reply>,
    names: Names,
    site: Site,
    module: Symbol,
    item: Rc<FnItem>,
    call: Expr,
    entered: Entered,
    bound: Bound,
    expected: Option<Rc<TileType>>,
    numbered: Rc<FnItem>,
    rest: List<Reply>,
    types: ResultsView,
)
    requires
        tape::item_reply(
            tape,
            Request::Number {
                item,
                at_call: !value::same_module(names.text_of(module), names.text_of(site.module)),
            },
        ) == Ok::<(List<Reply>, Rc<FnItem>), Halt<ResultsView>>((rest, numbered)),
        function_body(tape, names, site, module, item, call, entered, bound, expected) matches Err(
            Halt::Perform(Request::CompileBlock { results, .. }),
        ) && results == types,
    ensures
        typing::is_inferred(
            typing::env_for(*site.typing, bound.vars),
            Body { impl_item: None, item: numbered },
            typing::type_table(typed_names(entered.inner.vars)),
            types,
        ),
{
    let typing = list::held(&site.typing);
    let env = typing::env_for(typing, bound.vars);
    let body = Body { impl_item: None, item: numbered };
    let initial_types = typing::type_table(typed_names(entered.inner.vars));
    typing::only_answers_are_asked(rest, env, body, initial_types);
    if typing::types_found(rest, env, body, initial_types) is Ok {
        typing::compiled_types_are_inferred(rest, env, body, initial_types);
    }
}

fn compile_function_body(
    tape: &mut Tape,
    names: &Names,
    site: &Site,
    module: Symbol,
    item: &Rc<FnItem>,
    call: &Expr,
    entered: Entered,
    bound: &Bound,
    expected: &Option<Rc<TileType>>,
) -> (r: Result<(Option<Rc<Value>>, Context), Halt>)
    ensures
        tape::follows(
            r,
            final(tape).left,
            function_body(
                old(tape).left,
                *names,
                *site,
                module,
                *item,
                *call,
                entered,
                *bound,
                *expected,
            ),
        ),
{
    let at_call = !same_module_identity(names.text(module), names.text(site.module));
    let numbered = tape.ask_item(Request::Number { item: share(item), at_call })?;
    let found = find_types(
        tape,
        &site.typing,
        &bound.vars,
        &Body { impl_item: None, item: share(&numbered) },
        &collect_typed_names(&entered.inner.vars),
    )?;
    let lowered = tape.ask_item(Request::Lower { item: numbered, results: share(&found) })?;
    let request = Request::CompileBlock {
        body: Rc::new(Block { stmts: lowered.body.stmts.dup() }),
        generics: share(&bound.vars),
        scope: Rc::new(entered.inner.dup()),
        expected: share_opt(expected),
        results: found,
    };
    let body = tape.ask_value(request)?;
    end_call(tape, site, call, entered, body, expected, Adopts::All)
}

/// An inlined call of a function.
pub open spec fn function_inlined(
    tape: List<Reply>,
    names: Names,
    site: Site,
    module: Symbol,
    item: Rc<FnItem>,
    call: Expr,
    func: Expr,
    args: List<Expr>,
    payload_names: List<Symbol>,
    scope: Context,
    expected: Option<Rc<TileType>>,
) -> Run<(Option<Rc<Value>>, Context)> {
    match tape::item_reply(tape, Request::NormalizeParams(item)) {
        Err(halt) => Err(halt),
        Ok((tape, item)) => match arg_values(tape, site, scope, args, 0) {
            Err(halt) => Err(halt),
            Ok((tape, (values, outer))) => match params_bound(
                tape,
                site,
                Entered { inner: value::scope_in(module), outer, passed: List::Nil },
                Params {
                    names: item.param_names,
                    types: item.param_types,
                    mutable: item.param_mutable,
                    payload_names: Some(payload_names),
                },
                args,
                values,
                0,
            ) {
                Err(halt) => Err(halt),
                Ok((tape, entered)) => match function_generics(tape, site, *item, func, values) {
                    Err(halt) => Err(halt),
                    Ok((tape, vars)) => match bound_generics(tape, names, site, vars) {
                        Err(halt) => Err(halt),
                        Ok((tape, bound)) => match consts::with_constants(
                            tape,
                            bound.vars,
                            bound.vars,
                            *bound.constants,
                            entered.inner,
                        ) {
                            Err(halt) => Err(halt),
                            Ok((tape, inner)) => function_body(
                                tape,
                                names,
                                site,
                                module,
                                item,
                                call,
                                Entered { inner, ..entered },
                                bound,
                                expected,
                            ),
                        },
                    },
                },
            },
        },
    }
}

pub fn inline_function_call(
    tape: &mut Tape,
    names: &Names,
    site: &Site,
    module: Symbol,
    fn_item: &Rc<FnItem>,
    call: &Expr,
    func: &Expr,
    args: &List<Expr>,
    payload_names: &List<Symbol>,
    scope: Context,
    expected: &Option<Rc<TileType>>,
) -> (r: Result<(Option<Rc<Value>>, Context), Halt>)
    ensures
        tape::follows(
            r,
            final(tape).left,
            function_inlined(
                old(tape).left,
                *names,
                *site,
                module,
                *fn_item,
                *call,
                *func,
                *args,
                *payload_names,
                scope,
                *expected,
            ),
        ),
{
    let item = tape.ask_item(Request::NormalizeParams(share(fn_item)))?;
    let (values, outer) = compile_call_args(tape, site, scope, args, 0)?;
    let entered = Entered { inner: Context::within(module), outer, passed: List::Nil };
    let params = Params {
        names: item.param_names.dup(),
        types: item.param_types.dup(),
        mutable: item.param_mutable.dup(),
        payload_names: Some(payload_names.dup()),
    };
    let entered = bind_params(tape, site, entered, &params, args, &values, 0)?;
    let vars = find_function_generics(tape, site, &item, func, &values)?;
    let bound = bind_generics(tape, names, site, vars)?;
    let inner = bind_constants(tape, &bound.vars, &bound.vars, &bound.constants, entered.inner)?;
    let entered = Entered { inner, outer: entered.outer, passed: entered.passed };
    compile_function_body(tape, names, site, module, &item, call, entered, &bound, expected)
}

// Methods.

/// The method that a call means, and its generic names where they are known already: what was found
/// for the call, or else what the receiver has.
pub open spec fn method_of_call(
    tape: List<Reply>,
    site: Site,
    call: Expr,
    receiver: Rc<Type>,
    args: List<Type>,
) -> Run<(MethodItem, Option<Rc<GenericVars>>)> {
    let found = match site.results {
        Some(results) => results::filed(results@.selections, call.id),
        None => None,
    };
    match found {
        Some(selected) => Ok(
            (
                tape,
                (
                    MethodItem {
                        module: selected.module_name,
                        impl_item: selected.impl_item,
                        method: selected.impl_method,
                    },
                    Some(selected.generic_vars),
                ),
            ),
        ),
        None => match tape::method_reply(
            tape,
            Request::FindMethod { receiver, call: Rc::new(call), generics: site.generics, args },
        ) {
            Err(halt) => Err(halt),
            Ok((_, None)) => Err(Halt::Failed(CompileError::MethodNotFound(Place::Callee))),
            Ok((tape, Some(method))) => Ok((tape, (*method, None))),
        },
    }
}

fn find_method_of_call(
    tape: &mut Tape,
    site: &Site,
    call: &Rc<Expr>,
    receiver: &Rc<Type>,
    args: &List<Type>,
) -> (r: Result<(MethodItem, Option<Rc<GenericVars>>), Halt>)
    ensures
        tape::follows(
            r,
            final(tape).left,
            method_of_call(old(tape).left, *site, **call, *receiver, *args),
        ),
{
    let found = typeck_method_selection(site, call);
    if let Some(selected) = found {
        let method = MethodItem {
            module: selected.module_name,
            impl_item: share(&selected.impl_item),
            method: share(&selected.impl_method),
        };
        return Ok((method, Some(share(&selected.generic_vars))));
    }
    let request = Request::FindMethod {
        receiver: share(receiver),
        call: share(call),
        generics: share(&site.generics),
        args: args.dup(),
    };
    match tape.ask_method(request)? {
        Some(method) => {
            let method = MethodItem {
                module: method.module,
                impl_item: share(&method.impl_item),
                method: share(&method.method),
            };
            Ok((method, None))
        },
        None => Err(Halt::Failed(CompileError::MethodNotFound(Place::Callee))),
    }
}

pub fn typeck_method_selection(
    site: &Site,
    call: &Expr,
) -> (r: Option<Rc<crate::results::MethodSelection>>)
    ensures
        r == (match site.results {
            Some(found) => results::filed(found@.selections, call.id),
            None => None,
        }),
{
    match &site.results {
        Some(found) => found.method_selection(call),
        None => None,
    }
}

/// The generic names of a method: those that were found, none if nothing can be bound, else those
/// that the call binds.
pub open spec fn method_generics(
    tape: List<Reply>,
    site: Site,
    method: MethodItem,
    call: Expr,
    args: List<Type>,
    known: Option<Rc<GenericVars>>,
) -> Run<Rc<GenericVars>> {
    match known {
        Some(vars) => Ok((tape, vars)),
        None => {
            let request = if method.impl_item.generics.bindable is Nil
                && method.method.generics.bindable is Nil {
                Request::EmptyGenerics(method.method.id)
            } else {
                Request::MethodGenerics {
                    impl_item: method.impl_item,
                    method: method.method,
                    call: Rc::new(call),
                    args,
                    outer: site.generics,
                }
            };
            tape::vars_reply(tape, request)
        },
    }
}

fn find_method_generics(
    tape: &mut Tape,
    site: &Site,
    method: &MethodItem,
    call: &Rc<Expr>,
    args: &List<Type>,
    known: &Option<Rc<GenericVars>>,
) -> (r: Result<Rc<GenericVars>, Halt>)
    ensures
        tape::follows(
            r,
            final(tape).left,
            method_generics(old(tape).left, *site, *method, **call, *args, *known),
        ),
{
    if let Some(vars) = known {
        return Ok(share(vars));
    }
    let request = if method.impl_item.generics.bindable.is_empty()
        && method.method.generics.bindable.is_empty() {
        Request::EmptyGenerics(method.method.id)
    } else {
        Request::MethodGenerics {
            impl_item: share(&method.impl_item),
            method: share(&method.method),
            call: share(call),
            args: args.dup(),
            outer: share(&site.generics),
        }
    };
    tape.ask_vars(request)
}

/// An inlined call of a method, from the point where its arguments are bound. Its body is compiled
/// as if it were written where it is called.
pub open spec fn method_body(
    tape: List<Reply>,
    site: Site,
    method: MethodItem,
    call: Expr,
    entered: Entered,
    vars: Rc<GenericVars>,
    expected: Option<Rc<TileType>>,
) -> Run<(Option<Rc<Value>>, Context)> {
    match tape::item_reply(tape, Request::Number { item: method.method, at_call: true }) {
        Err(halt) => Err(halt),
        Ok((tape, numbered)) => match typing::body_types(
            tape,
            *site.typing,
            vars,
            Body { impl_item: Some(method.impl_item), item: numbered },
            typed_names(entered.inner.vars),
        ) {
            Err(halt) => Err(halt),
            Ok((tape, found)) => match tape::value_reply(
                tape,
                Request::CompileBlock {
                    body: Rc::new(numbered.body),
                    generics: vars,
                    scope: Rc::new(entered.inner),
                    expected,
                    results: found,
                },
            ) {
                Err(halt) => Err(halt),
                Ok((tape, body)) => call_ended(
                    tape,
                    site,
                    call,
                    entered,
                    body,
                    expected,
                    Adopts::Written,
                ),
            },
        },
    }
}

/// The body of a method is compiled with the types that inference finds in the method as it is
/// numbered, under some book of answers.
pub proof fn method_is_compiled_with_its_types(
    tape: List<Reply>,
    site: Site,
    method: MethodItem,
    call: Expr,
    entered: Entered,
    vars: Rc<GenericVars>,
    expected: Option<Rc<TileType>>,
    numbered: Rc<FnItem>,
    rest: List<Reply>,
    types: ResultsView,
)
    requires
        tape::item_reply(tape, Request::Number { item: method.method, at_call: true }) == Ok::<
            (List<Reply>, Rc<FnItem>),
            Halt<ResultsView>,
        >((rest, numbered)),
        method_body(tape, site, method, call, entered, vars, expected) matches Err(
            Halt::Perform(Request::CompileBlock { results, .. }),
        ) && results == types,
    ensures
        typing::is_inferred(
            typing::env_for(*site.typing, vars),
            Body { impl_item: Some(method.impl_item), item: numbered },
            typing::type_table(typed_names(entered.inner.vars)),
            types,
        ),
{
    let typing = list::held(&site.typing);
    let env = typing::env_for(typing, vars);
    let body = Body { impl_item: Some(method.impl_item), item: numbered };
    let initial_types = typing::type_table(typed_names(entered.inner.vars));
    typing::only_answers_are_asked(rest, env, body, initial_types);
    if typing::types_found(rest, env, body, initial_types) is Ok {
        typing::compiled_types_are_inferred(rest, env, body, initial_types);
    }
}

fn compile_method_body(
    tape: &mut Tape,
    site: &Site,
    method: &MethodItem,
    call: &Expr,
    entered: Entered,
    vars: &Rc<GenericVars>,
    expected: &Option<Rc<TileType>>,
) -> (r: Result<(Option<Rc<Value>>, Context), Halt>)
    ensures
        tape::follows(
            r,
            final(tape).left,
            method_body(old(tape).left, *site, *method, *call, entered, *vars, *expected),
        ),
{
    let numbered = tape.ask_item(Request::Number { item: share(&method.method), at_call: true })?;
    let found = find_types(
        tape,
        &site.typing,
        vars,
        &Body { impl_item: Some(share(&method.impl_item)), item: share(&numbered) },
        &collect_typed_names(&entered.inner.vars),
    )?;
    let request = Request::CompileBlock {
        body: Rc::new(Block { stmts: numbered.body.stmts.dup() }),
        generics: share(vars),
        scope: Rc::new(entered.inner.dup()),
        expected: share_opt(expected),
        results: found,
    };
    let body = tape.ask_value(request)?;
    end_call(tape, site, call, entered, body, expected, Adopts::Written)
}

/// An inlined call of a method. The receiver is its first argument.
pub open spec fn method_inlined(
    tape: List<Reply>,
    names: Names,
    site: Site,
    call: Expr,
    receiver: Rc<Expr>,
    args: List<Expr>,
    scope: Context,
    expected: Option<Rc<TileType>>,
) -> Run<(Option<Rc<Value>>, Context)> {
    let args = List::Cons(receiver, Rc::new(args));
    match arg_values(tape, site, scope, args, 0) {
        Err(halt) => Err(halt),
        Ok((tape, (values, outer))) => {
            let arg_types = written_types(values);
            match arg_types {
                List::Nil => Err(
                    Halt::Failed(CompileError::TooFewArguments(Place::Callee)),
                ),
                List::Cons(receiver_type, _) => match method_of_call(
                    tape,
                    site,
                    call,
                    receiver_type,
                    arg_types,
                ) {
                    Err(halt) => Err(halt),
                    Ok((tape, (method, known))) => match params_bound(
                        tape,
                        site,
                        Entered {
                            inner: value::scope_in(method.module),
                            outer,
                            passed: List::Nil,
                        },
                        Params {
                            names: method.method.param_names,
                            types: method.method.param_types,
                            mutable: method.method.param_mutable,
                            payload_names: None,
                        },
                        args,
                        values,
                        0,
                    ) {
                        Err(halt) => Err(halt),
                        Ok((tape, entered)) => match method_generics(
                            tape,
                            site,
                            method,
                            call,
                            arg_types,
                            known,
                        ) {
                            Err(halt) => Err(halt),
                            Ok((tape, vars)) => match bound_generics(tape, names, site, vars) {
                                Err(halt) => Err(halt),
                                Ok((tape, bound)) => match consts::with_constants(
                                    tape,
                                    site.generics,
                                    bound.vars,
                                    *bound.constants,
                                    entered.inner,
                                ) {
                                    Err(halt) => Err(halt),
                                    Ok((tape, inner)) => method_body(
                                        tape,
                                        site,
                                        method,
                                        call,
                                        Entered { inner, ..entered },
                                        bound.vars,
                                        expected,
                                    ),
                                },
                            },
                        },
                    },
                },
            }
        },
    }
}

pub fn inline_method_call(
    tape: &mut Tape,
    names: &Names,
    site: &Site,
    call: &Rc<Expr>,
    receiver: &Rc<Expr>,
    args: &List<Expr>,
    scope: Context,
    expected: &Option<Rc<TileType>>,
) -> (r: Result<(Option<Rc<Value>>, Context), Halt>)
    ensures
        tape::follows(
            r,
            final(tape).left,
            method_inlined(
                old(tape).left,
                *names,
                *site,
                **call,
                *receiver,
                *args,
                scope,
                *expected,
            ),
        ),
{
    let args = List::prepend(share(receiver), args.dup());
    let (values, outer) = compile_call_args(tape, site, scope, &args, 0)?;
    let arg_types = types_of(&values);
    let receiver_type = match &arg_types {
        List::Nil => return Err(Halt::Failed(CompileError::TooFewArguments(Place::Callee))),
        List::Cons(ty, _) => share(ty),
    };
    let (method, known) = find_method_of_call(tape, site, call, &receiver_type, &arg_types)?;
    let entered = Entered { inner: Context::within(method.module), outer, passed: List::Nil };
    let params = Params {
        names: method.method.param_names.dup(),
        types: method.method.param_types.dup(),
        mutable: method.method.param_mutable.dup(),
        payload_names: None,
    };
    let entered = bind_params(tape, site, entered, &params, &args, &values, 0)?;
    let vars = find_method_generics(tape, site, &method, call, &arg_types, &known)?;
    let bound = bind_generics(tape, names, site, vars)?;
    let inner = bind_constants(
        tape,
        &site.generics,
        &bound.vars,
        &bound.constants,
        entered.inner,
    )?;
    let entered = Entered { inner, outer: entered.outer, passed: entered.passed };
    compile_method_body(tape, site, &method, call, entered, &bound.vars, expected)
}

} // verus!

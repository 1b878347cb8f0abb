//! What inference knows of the program around the function that it reads.
//!
//! Items of the program are plain tables. What the rest of the compiler would have to be asked (how a
//! type compiles, what a path resolves to, how generic arguments are bound) is a book of questions
//! with their answers. Inference that meets a question with no answer stops and names it; whoever
//! drives inference has it answered, adds it to the book and starts again.
use crate::list::{share, List};
use crate::names::Names;
use crate::syntax::{Expr, FnItem, GenericArg, ImplItem, Path, Symbol, Type};
use crate::syntax_eq::{
    expr_eq, generic_arg_eq, generic_arg_list_eq, generic_arg_list_opt_eq, path_eq, symbol_opt_eq,
    type_eq, type_list_eq,
};
use std::rc::Rc;
use vstd::prelude::*;

verus! {

/// A parameter of a compiled type.
pub struct TypeParam {
    pub name: Option<Symbol>,
    pub kind: ParamKind,
    /// Tells apart parameters that the rules see no difference in.
    pub handle: u64,
}

#[derive(Clone, Copy, Debug)]
pub enum ParamKind {
    /// Padding, with the value that is padded with, where one is set.
    Padding(Option<Symbol>),
    Other,
}

/// A type parameter under the name by which it is handed to the compiler.
pub struct NamedParam {
    pub name: Symbol,
    pub param: Rc<TypeParam>,
}

/// A compiled type: the type as written, its parameters, and what else the compiler knows of it.
pub struct TileType {
    pub rust_ty: Rc<Type>,
    pub params: List<TypeParam>,
    pub handle: u64,
}

/// An array bound to a generic name.
pub struct ArrayVar {
    pub name: Symbol,
    pub dims: List<i32>,
}

/// An integer bound to a generic name.
pub struct IntVar {
    pub name: Symbol,
    pub value: i32,
}

/// The generic names in scope and what they are bound to.
pub struct GenericVars {
    /// Names that are declared as generic.
    pub declared: List<Symbol>,
    /// Names bound to a type.
    pub inst_types: List<Symbol>,
    /// Names bound to an `i32`.
    pub inst_i32: List<Symbol>,
    /// Names bound to a `bool`.
    pub inst_bool: List<Symbol>,
    pub inst_array: List<ArrayVar>,
    /// Names bound to the length of an array.
    pub len2array: List<Symbol>,
    /// The integers that names stand for.
    pub ints: List<IntVar>,
    pub handle: u64,
}

/// What an argument binds a generic parameter to, read in each way that it can be read.
pub struct Binding {
    /// The parameter takes a type, and not a constant expression.
    pub is_type: bool,
    pub as_type: Option<Rc<Type>>,
    pub as_arg: Option<Rc<GenericArg>>,
    pub as_expr: Option<Rc<Expr>>,
}

/// A generic parameter, and its binding once it has one.
pub struct ParamBinding {
    pub name: Symbol,
    pub binding: Option<Rc<Binding>>,
}

/// One thing that is told to the solver that binds generic parameters.
pub enum Step {
    /// A parameter's type meets an argument's type.
    Constraint { param: Rc<Type>, arg: Rc<Type> },
    /// The types of all arguments, in order.
    Arguments(List<Type>),
    /// The generic arguments written at a call of a function.
    ProvidedByCall(Rc<Expr>),
    /// The generic arguments written at a call of a method.
    ProvidedByMethodCall(Option<List<GenericArg>>),
}

/// The solver for the generic parameters of one callable, as what it was told.
pub struct Solver {
    /// The `impl` block, where the callable is a method.
    pub impl_item: Option<u64>,
    pub callable: u64,
    pub steps: List<Step>,
}

/// A question to the rest of the compiler.
#[allow(inconsistent_fields)]
pub enum Question {
    /// How does the type compile, under these named parameters?
    Compile { ty: Rc<Type>, params: List<NamedParam> },
    /// What is the type of the marker value that the path names?
    Marker(Path),
    /// What is the one-element tile of the scalar of that name?
    ScalarTile(Symbol),
    /// What does the path resolve to?
    Resolve(Path),
    /// What is the type with its aliases replaced?
    Normalize(Rc<Type>),
    /// What does the type's outermost name and its arguments read as?
    Head(Rc<Type>),
    /// Which dimensions does the generic argument list?
    Dims(Rc<GenericArg>),
    /// What are the parameters bound to?
    Bindings(Solver),
    /// Are all parameters bound?
    Verified(Solver),
    /// What is the type with its parameters replaced?
    Instantiate { solver: Solver, ty: Rc<Type> },
    /// Which method does a call with these argument types mean?
    Method { receiver: Rc<Type>, call: Rc<Expr>, args: List<Type> },
    /// Which generic names does a callable without parameters see?
    EmptyVars(u64),
    /// Which generic names does the body of the callable see, as the solver binds them?
    InferredVars(Solver),
    /// Which generic names do the arguments written at a call bind?
    PassedVars { callable: u64, args: List<GenericArg> },
    /// Which generic names are there when those of a call are added?
    MergedVars { inferred: Rc<GenericVars>, passed: Rc<GenericVars> },
    /// Which method call does the wrapper function stand for?
    Unwrapped { function: u64, call: Rc<Expr> },
    /// Which marker type does the expression name?
    MarkerName(Rc<Expr>),
    /// Which padding does the expression name?
    PaddingName(Rc<Expr>),
    /// Which parameters shape the type of the operation's result?
    OutputParams(Symbol),
    /// Which type parameter does an argument of that type make?
    DerivedParam { name: Symbol, ty: Rc<TileType> },
}

/// What a path resolves to.
pub enum Resolution {
    /// A constant of that type.
    Const(Rc<Type>),
    /// A static of that type.
    Static(Rc<Type>),
    Other,
}

/// A selected method: where it stands, and the item itself.
pub struct MethodItem {
    pub module: Symbol,
    pub impl_item: Rc<ImplItem>,
    pub method: Rc<FnItem>,
}

/// An answer of the compiler; a number stands for an error that it reported.
pub enum Answer {
    Compiled(Option<Rc<TileType>>),
    CompileFailed(u64),
    Resolved(Resolution),
    Normalized(Rc<Type>),
    NormalizeFailed(u64),
    Head { ident: Option<Symbol>, args: Option<List<GenericArg>> },
    Dims(Option<List<i32>>),
    Bindings(List<ParamBinding>),
    Verified(bool),
    Instantiated(Rc<Type>),
    Method(Option<Rc<MethodItem>>),
    MethodFailed(u64),
    Vars(Rc<GenericVars>),
    VarsFailed(u64),
    Unwrapped(Option<Rc<Expr>>),
    Name(Option<Symbol>),
    OutputParams(Option<List<Symbol>>),
    Param(Rc<TypeParam>),
}

/// A question with its answer.
pub struct Entry {
    pub question: Question,
    pub answer: Answer,
}

/// An error of the compilation itself.
#[derive(PartialEq, Eq, Debug)]
pub enum JitError {
    /// No type is filed for the expression.
    MissingTypeckEntry,
    /// The type filed for the expression does not compile.
    UncompilableType,
    /// A shape repeats a dimension a negative number of times.
    MalformedShape,
    /// The parser refuses the type that a macro stands for, with that message.
    Unparsed(List<char>),
    /// An error that the compiler reported.
    Reported(u64),
}

/// Why inference stopped.
pub enum Stop {
    Failed(JitError),
    /// The book has no answer, or an answer to something else.
    Unanswered(Question),
    /// The limit on nested expressions or on rounds of propagation is used up.
    LimitReached,
}

/// The fields of a struct.
pub enum Fields {
    Named(List<FieldDef>),
    Unnamed(List<Type>),
    Unit,
}

pub struct FieldDef {
    pub name: Symbol,
    pub ty: Rc<Type>,
}

pub struct StructDef {
    pub name: Symbol,
    pub fields: Fields,
}

/// A trait, with its associated constants.
pub struct TraitDef {
    pub name: Symbol,
    pub consts: List<FieldDef>,
}

/// An implementation of a trait for a type, by their names.
#[derive(Clone, Copy, PartialEq, Eq, Structural, Debug)]
pub struct TraitImpl {
    pub trait_name: Symbol,
    pub self_name: Symbol,
}

/// The inherent `impl` blocks of a struct.
pub struct StructImpls {
    pub name: Symbol,
    pub impls: List<ImplItem>,
}

/// The program around the function that is read.
pub struct Env {
    pub names: Rc<Names>,
    pub generic_vars: Rc<GenericVars>,
    pub structs: List<StructDef>,
    pub functions: List<FnItem>,
    pub traits: List<TraitDef>,
    pub trait_impls: List<TraitImpl>,
    pub primitives: List<TraitImpl>,
    pub struct_impls: List<StructImpls>,
    pub book: List<Entry>,
}

// Equality of questions.

fn param_eq(a: &TypeParam, b: &TypeParam) -> (r: bool)
    ensures
        r == (*a == *b),
{
    let same_kind = match (a.kind, b.kind) {
        (ParamKind::Padding(x), ParamKind::Padding(y)) => symbol_opt_eq(x, y),
        (ParamKind::Other, ParamKind::Other) => true,
        _ => false,
    };
    same_kind && symbol_opt_eq(a.name, b.name) && a.handle == b.handle
}

fn params_eq(a: &List<TypeParam>, b: &List<TypeParam>) -> (r: bool)
    ensures
        r == (*a == *b),
    decreases a,
{
    match (a, b) {
        (List::Nil, List::Nil) => true,
        (List::Cons(x, p), List::Cons(y, q)) => param_eq(x, y) && params_eq(p, q),
        _ => false,
    }
}

fn named_params_eq(a: &List<NamedParam>, b: &List<NamedParam>) -> (r: bool)
    ensures
        r == (*a == *b),
    decreases a,
{
    match (a, b) {
        (List::Nil, List::Nil) => true,
        (List::Cons(x, p), List::Cons(y, q)) => x.name == y.name && param_eq(&x.param, &y.param)
            && named_params_eq(p, q),
        _ => false,
    }
}

fn tile_type_eq(a: &TileType, b: &TileType) -> (r: bool)
    ensures
        r == (*a == *b),
{
    type_eq(&a.rust_ty, &b.rust_ty) && params_eq(&a.params, &b.params) && a.handle == b.handle
}

fn steps_eq(a: &List<Step>, b: &List<Step>) -> (r: bool)
    ensures
        r == (*a == *b),
    decreases a,
{
    match (a, b) {
        (List::Nil, List::Nil) => true,
        (List::Cons(x, p), List::Cons(y, q)) => {
            let same = match (&**x, &**y) {
                (
                    Step::Constraint { param: t, arg: u },
                    Step::Constraint { param: v, arg: w },
                ) => type_eq(t, v) && type_eq(u, w),
                (Step::Arguments(t), Step::Arguments(u)) => type_list_eq(t, u),
                (Step::ProvidedByCall(e), Step::ProvidedByCall(f)) => expr_eq(e, f),
                (Step::ProvidedByMethodCall(t), Step::ProvidedByMethodCall(u)) => {
                    generic_arg_list_opt_eq(t, u)
                },
                _ => false,
            };
            same && steps_eq(p, q)
        },
        _ => false,
    }
}

fn symbols_eq(a: &List<Symbol>, b: &List<Symbol>) -> (r: bool)
    ensures
        r == (*a == *b),
    decreases a,
{
    match (a, b) {
        (List::Nil, List::Nil) => true,
        (List::Cons(x, p), List::Cons(y, q)) => **x == **y && symbols_eq(p, q),
        _ => false,
    }
}

fn dims_eq(a: &List<i32>, b: &List<i32>) -> (r: bool)
    ensures
        r == (*a == *b),
    decreases a,
{
    match (a, b) {
        (List::Nil, List::Nil) => true,
        (List::Cons(x, p), List::Cons(y, q)) => **x == **y && dims_eq(p, q),
        _ => false,
    }
}

fn arrays_eq(a: &List<ArrayVar>, b: &List<ArrayVar>) -> (r: bool)
    ensures
        r == (*a == *b),
    decreases a,
{
    match (a, b) {
        (List::Nil, List::Nil) => true,
        (List::Cons(x, p), List::Cons(y, q)) => x.name == y.name && dims_eq(&x.dims, &y.dims)
            && arrays_eq(p, q),
        _ => false,
    }
}

fn ints_eq(a: &List<IntVar>, b: &List<IntVar>) -> (r: bool)
    ensures
        r == (*a == *b),
    decreases a,
{
    match (a, b) {
        (List::Nil, List::Nil) => true,
        (List::Cons(x, p), List::Cons(y, q)) => x.name == y.name && x.value == y.value && ints_eq(
            p,
            q,
        ),
        _ => false,
    }
}

fn vars_eq(a: &GenericVars, b: &GenericVars) -> (r: bool)
    ensures
        r == (*a == *b),
{
    symbols_eq(&a.declared, &b.declared) && symbols_eq(&a.inst_types, &b.inst_types) && symbols_eq(
        &a.inst_i32,
        &b.inst_i32,
    ) && symbols_eq(&a.inst_bool, &b.inst_bool) && arrays_eq(&a.inst_array, &b.inst_array)
        && symbols_eq(&a.len2array, &b.len2array) && ints_eq(&a.ints, &b.ints) && a.handle
        == b.handle
}

fn number_opt_eq(a: Option<u64>, b: Option<u64>) -> (r: bool)
    ensures
        r == (a == b),
{
    match (a, b) {
        (None, None) => true,
        (Some(x), Some(y)) => x == y,
        _ => false,
    }
}

fn solver_eq(a: &Solver, b: &Solver) -> (r: bool)
    ensures
        r == (*a == *b),
{
    number_opt_eq(a.impl_item, b.impl_item) && a.callable == b.callable && steps_eq(
        &a.steps,
        &b.steps,
    )
}

pub fn question_eq(a: &Question, b: &Question) -> (r: bool)
    ensures
        r == (*a == *b),
{
    match (a, b) {
        (
            Question::Compile { ty: t, params: p },
            Question::Compile { ty: u, params: q },
        ) => type_eq(t, u) && named_params_eq(p, q),
        (Question::Marker(p), Question::Marker(q)) => path_eq(p, q),
        (Question::ScalarTile(n), Question::ScalarTile(m)) => *n == *m,
        (Question::Resolve(p), Question::Resolve(q)) => path_eq(p, q),
        (Question::Normalize(t), Question::Normalize(u)) => type_eq(t, u),
        (Question::Head(t), Question::Head(u)) => type_eq(t, u),
        (Question::Dims(g), Question::Dims(h)) => generic_arg_eq(g, h),
        (Question::Bindings(s), Question::Bindings(t)) => solver_eq(s, t),
        (Question::Verified(s), Question::Verified(t)) => solver_eq(s, t),
        (
            Question::Instantiate { solver: s, ty: t },
            Question::Instantiate { solver: v, ty: u },
        ) => solver_eq(s, v) && type_eq(t, u),
        (
            Question::Method { receiver: t, call: e, args: p },
            Question::Method { receiver: u, call: f, args: q },
        ) => type_eq(t, u) && expr_eq(e, f) && type_list_eq(p, q),
        (Question::EmptyVars(n), Question::EmptyVars(m)) => *n == *m,
        (Question::InferredVars(s), Question::InferredVars(t)) => solver_eq(s, t),
        (
            Question::PassedVars { callable: n, args: p },
            Question::PassedVars { callable: m, args: q },
        ) => *n == *m && generic_arg_list_eq(p, q),
        (
            Question::MergedVars { inferred: a, passed: b },
            Question::MergedVars { inferred: c, passed: d },
        ) => vars_eq(a, c) && vars_eq(b, d),
        (
            Question::Unwrapped { function: n, call: e },
            Question::Unwrapped { function: m, call: f },
        ) => *n == *m && expr_eq(e, f),
        (Question::MarkerName(e), Question::MarkerName(f)) => expr_eq(e, f),
        (Question::PaddingName(e), Question::PaddingName(f)) => expr_eq(e, f),
        (Question::OutputParams(n), Question::OutputParams(m)) => *n == *m,
        (
            Question::DerivedParam { name: n, ty: t },
            Question::DerivedParam { name: m, ty: u },
        ) => *n == *m && tile_type_eq(t, u),
        _ => false,
    }
}

// Looking things up.

/// The answer that stands first in the book for a question.
pub open spec fn answer_to(book: List<Entry>, question: Question) -> Option<Answer>
    decreases book,
{
    match book {
        List::Nil => None,
        List::Cons(entry, rest) => if entry.question == question {
            Some(entry.answer)
        } else {
            answer_to(*rest, question)
        },
    }
}

pub fn find_answer<'a>(book: &'a List<Entry>, question: &Question) -> (r: Option<&'a Answer>)
    ensures
        match r {
            Some(answer) => answer_to(*book, *question) == Some(*answer),
            None => answer_to(*book, *question) is None,
        },
    decreases book,
{
    match book {
        List::Nil => None,
        List::Cons(entry, rest) => {
            if question_eq(&entry.question, question) {
                Some(&entry.answer)
            } else {
                find_answer(rest, question)
            }
        },
    }
}

/// Whether a name is in a list of names.
pub open spec fn has_name(list: List<Symbol>, name: Symbol) -> bool
    decreases list,
{
    match list {
        List::Nil => false,
        List::Cons(head, rest) => *head == name || has_name(*rest, name),
    }
}

pub fn contains_name(list: &List<Symbol>, name: Symbol) -> (r: bool)
    ensures
        r == has_name(*list, name),
    decreases list,
{
    match list {
        List::Nil => false,
        List::Cons(head, rest) => **head == name || contains_name(rest, name),
    }
}

pub open spec fn array_of(list: List<ArrayVar>, name: Symbol) -> Option<List<i32>>
    decreases list,
{
    match list {
        List::Nil => None,
        List::Cons(var, rest) => if var.name == name {
            Some(var.dims)
        } else {
            array_of(*rest, name)
        },
    }
}

pub fn find_array(list: &List<ArrayVar>, name: Symbol) -> (r: Option<List<i32>>)
    ensures
        r == array_of(*list, name),
    decreases list,
{
    match list {
        List::Nil => None,
        List::Cons(var, rest) => {
            if var.name == name {
                Some(var.dims.dup())
            } else {
                find_array(rest, name)
            }
        },
    }
}

pub open spec fn int_of(list: List<IntVar>, name: Symbol) -> Option<i32>
    decreases list,
{
    match list {
        List::Nil => None,
        List::Cons(var, rest) => if var.name == name {
            Some(var.value)
        } else {
            int_of(*rest, name)
        },
    }
}

pub fn find_int(list: &List<IntVar>, name: Symbol) -> (r: Option<i32>)
    ensures
        r == int_of(*list, name),
    decreases list,
{
    match list {
        List::Nil => None,
        List::Cons(var, rest) => {
            if var.name == name {
                Some(var.value)
            } else {
                find_int(rest, name)
            }
        },
    }
}

pub open spec fn fields_of(list: List<StructDef>, name: Symbol) -> Option<Fields>
    decreases list,
{
    match list {
        List::Nil => None,
        List::Cons(def, rest) => if def.name == name {
            Some(def.fields)
        } else {
            fields_of(*rest, name)
        },
    }
}

pub fn find_fields<'a>(list: &'a List<StructDef>, name: Symbol) -> (r: Option<&'a Fields>)
    ensures
        match r {
            Some(fields) => fields_of(*list, name) == Some(*fields),
            None => fields_of(*list, name) is None,
        },
    decreases list,
{
    match list {
        List::Nil => None,
        List::Cons(def, rest) => {
            if def.name == name {
                Some(&def.fields)
            } else {
                find_fields(rest, name)
            }
        },
    }
}

/// The type of the first field of a name.
pub open spec fn field_type(list: List<FieldDef>, name: Symbol) -> Option<Type>
    decreases list,
{
    match list {
        List::Nil => None,
        List::Cons(field, rest) => if field.name == name {
            Some(*field.ty)
        } else {
            field_type(*rest, name)
        },
    }
}

pub fn find_field(list: &List<FieldDef>, name: Symbol) -> (r: Option<Rc<Type>>)
    ensures
        r == (match field_type(*list, name) {
            Some(ty) => Some(Rc::new(ty)),
            None => None::<Rc<Type>>,
        }),
    decreases list,
{
    match list {
        List::Nil => None,
        List::Cons(field, rest) => {
            if field.name == name {
                Some(share(&field.ty))
            } else {
                find_field(rest, name)
            }
        },
    }
}

pub open spec fn consts_of(list: List<TraitDef>, name: Symbol) -> Option<List<FieldDef>>
    decreases list,
{
    match list {
        List::Nil => None,
        List::Cons(def, rest) => if def.name == name {
            Some(def.consts)
        } else {
            consts_of(*rest, name)
        },
    }
}

pub fn find_consts(list: &List<TraitDef>, name: Symbol) -> (r: Option<List<FieldDef>>)
    ensures
        r == consts_of(*list, name),
    decreases list,
{
    match list {
        List::Nil => None,
        List::Cons(def, rest) => {
            if def.name == name {
                Some(def.consts.dup())
            } else {
                find_consts(rest, name)
            }
        },
    }
}

pub open spec fn has_impl(list: List<TraitImpl>, wanted: TraitImpl) -> bool
    decreases list,
{
    match list {
        List::Nil => false,
        List::Cons(item, rest) => *item == wanted || has_impl(*rest, wanted),
    }
}

pub fn contains_impl(list: &List<TraitImpl>, wanted: TraitImpl) -> (r: bool)
    ensures
        r == has_impl(*list, wanted),
    decreases list,
{
    match list {
        List::Nil => false,
        List::Cons(item, rest) => **item == wanted || contains_impl(rest, wanted),
    }
}

pub open spec fn function_named(list: List<FnItem>, name: Symbol) -> Option<FnItem>
    decreases list,
{
    match list {
        List::Nil => None,
        List::Cons(item, rest) => if item.name == name {
            Some(*item)
        } else {
            function_named(*rest, name)
        },
    }
}

pub fn find_function(list: &List<FnItem>, name: Symbol) -> (r: Option<Rc<FnItem>>)
    ensures
        r == (match function_named(*list, name) {
            Some(item) => Some(Rc::new(item)),
            None => None::<Rc<FnItem>>,
        }),
    decreases list,
{
    match list {
        List::Nil => None,
        List::Cons(item, rest) => {
            if item.name == name {
                Some(share(item))
            } else {
                find_function(rest, name)
            }
        },
    }
}

pub open spec fn impls_of(list: List<StructImpls>, name: Symbol) -> Option<List<ImplItem>>
    decreases list,
{
    match list {
        List::Nil => None,
        List::Cons(item, rest) => if item.name == name {
            Some(item.impls)
        } else {
            impls_of(*rest, name)
        },
    }
}

pub fn find_impls(list: &List<StructImpls>, name: Symbol) -> (r: Option<List<ImplItem>>)
    ensures
        r == impls_of(*list, name),
    decreases list,
{
    match list {
        List::Nil => None,
        List::Cons(item, rest) => {
            if item.name == name {
                Some(item.impls.dup())
            } else {
                find_impls(rest, name)
            }
        },
    }
}

} // verus!

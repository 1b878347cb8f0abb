//! The syntax tree that inference reads: types, expressions, statements, patterns and items.
//!
//! A tree holds what the rules of inference look at, as plain values. What they never look into is
//! kept as its text (`Other`, `ImplTrait`), or, where it never stands inside a type, as a number.
use crate::list::List;
use std::rc::Rc;
use vstd::prelude::*;

verus! {

/// A name, as the position of its text in a table of names.
pub type Symbol = u32;

/// The number by which results are filed for an expression.
pub type NodeId = u64;

/// `a::b<T>::c`, or `::a::b` where `global` is set.
pub struct Path {
    pub global: bool,
    pub segments: List<Segment>,
}

pub struct Segment {
    pub ident: Symbol,
    pub args: PathArgs,
}

pub enum PathArgs {
    /// No arguments.
    Bare,
    /// `<A, 'b, { [4] }>`
    Angle(List<GenericArg>),
    /// `(A, B) -> C`
    Call { inputs: List<Type>, output: Option<Rc<Type>> },
}

pub enum GenericArg {
    Type(Rc<Type>),
    Const(Rc<Expr>),
    Lifetime(Symbol),
    Other(Symbol),
}

/// `<ty as A::B>::C`: the type, and how many segments of the path name the trait.
pub struct QSelf {
    pub ty: Rc<Type>,
    pub position: usize,
}

pub enum Type {
    Path { qself: Option<Rc<QSelf>>, path: Path },
    Reference { lifetime: Option<Symbol>, mutable: bool, elem: Rc<Type> },
    Ptr { mutable: bool, elem: Rc<Type> },
    Tuple(List<Type>),
    Array { elem: Rc<Type>, len: Rc<Expr> },
    Slice(Rc<Type>),
    Paren(Rc<Type>),
    /// A type inside delimiters that are not written.
    Group(Rc<Type>),
    Never,
    Infer,
    ImplTrait(Symbol),
    Other(Symbol),
}

pub enum Lit {
    /// The digits' value, where 128 bits hold it, how the digits are written, unless it is the
    /// plain decimal notation of the value, and the suffix, where there is one.
    Int { value: Option<u128>, spelling: Option<Symbol>, suffix: Option<Symbol> },
    Float { digits: Symbol, suffix: Option<Symbol> },
    Str(Symbol),
    Bool(bool),
    Other(Symbol),
}

#[derive(Clone, Copy, PartialEq, Eq, Structural, Debug)]
pub enum BinOp {
    Add,
    Sub,
    Mul,
    Div,
    Rem,
    And,
    Or,
    BitXor,
    BitAnd,
    BitOr,
    Shl,
    Shr,
    Eq,
    Lt,
    Le,
    Ne,
    Ge,
    Gt,
    /// An operator that assigns, such as `+=`.
    Assign,
}

#[derive(Clone, Copy, PartialEq, Eq, Structural, Debug)]
pub enum UnOp {
    Deref,
    Not,
    Neg,
}

#[derive(Clone, Copy, PartialEq, Eq, Structural, Debug)]
pub enum Member {
    Named(Symbol),
    Unnamed(u32),
}

/// A token of a macro call that lists dimensions.
pub enum Token {
    /// A literal, and the expression that it is.
    Literal { text: Symbol, expr: Rc<Expr> },
    /// An identifier, and the expression that it reads as.
    Ident { name: Symbol, expr: Rc<Expr> },
    Comma,
    Other(u64),
}

pub struct FieldValue {
    pub member: Member,
    pub expr: Rc<Expr>,
}

pub struct ClosureParam {
    pub name: Symbol,
    pub ty: Option<Rc<Type>>,
}

pub struct Expr {
    pub id: Option<NodeId>,
    pub kind: ExprKind,
}

#[allow(inconsistent_fields)]
pub enum ExprKind {
    Path { qself: Option<Rc<QSelf>>, path: Path },
    Reference { mutable: bool, expr: Rc<Expr> },
    Paren(Rc<Expr>),
    Block(Block),
    Unsafe(Block),
    Tuple(List<Expr>),
    Array(List<Expr>),
    Repeat { expr: Rc<Expr>, len: Rc<Expr> },
    Range { start: Option<Rc<Expr>>, end: Option<Rc<Expr>> },
    Field { base: Rc<Expr>, member: Member },
    Index { expr: Rc<Expr>, index: Rc<Expr> },
    Call { func: Rc<Expr>, args: List<Expr> },
    MethodCall {
        receiver: Rc<Expr>,
        method: Symbol,
        turbofish: Option<List<GenericArg>>,
        args: List<Expr>,
    },
    Struct { path: Path, fields: List<FieldValue> },
    Macro { path: Path, tokens: List<Token> },
    Cast { expr: Rc<Expr>, ty: Rc<Type> },
    Closure { params: List<ClosureParam>, body: Rc<Expr> },
    Assign { left: Rc<Expr>, right: Rc<Expr> },
    Binary { op: BinOp, left: Rc<Expr>, right: Rc<Expr> },
    Unary { op: UnOp, expr: Rc<Expr> },
    /// A literal, and the type that its own form gives it, where it gives one.
    Lit { lit: Lit, ty: Option<Rc<Type>> },
    If { cond: Rc<Expr>, then_branch: Block, else_branch: Option<Rc<Expr>> },
    ForLoop { pat: Rc<Pat>, expr: Rc<Expr>, body: Block },
    While { cond: Rc<Expr>, body: Block },
    Loop(Block),
    Return(Option<Rc<Expr>>),
    Other(Symbol),
}

pub struct Block {
    pub stmts: List<Stmt>,
}

pub enum Stmt {
    Local { pat: Rc<Pat>, init: Option<Rc<Expr>> },
    Expr { expr: Rc<Expr>, semi: bool },
    Const { name: Symbol, ty: Rc<Type>, expr: Rc<Expr> },
    Item(u64),
    Macro(u64),
}

pub struct FieldPat {
    pub member: Member,
    pub pat: Rc<Pat>,
}

pub enum Pat {
    Ident { name: Symbol, mutable: bool, subpat: Option<Rc<Pat>> },
    Type { pat: Rc<Pat>, ty: Rc<Type> },
    Paren(Rc<Pat>),
    Reference(Rc<Pat>),
    Tuple(List<Pat>),
    Slice(List<Pat>),
    Struct(List<FieldPat>),
    TupleStruct(List<Pat>),
    Or(List<Pat>),
    Wild,
    Rest,
    Other(u64),
}

/// What stands after the colon of a type parameter or of a `where` predicate.
pub enum Bound {
    Trait(Path),
    Other(u64),
}

pub enum GenericParam {
    Type { name: Symbol, bounds: List<Bound> },
    Other(Symbol),
}

pub enum Predicate {
    Type { bounded: Rc<Type>, bounds: List<Bound> },
    Other(u64),
}

pub struct Generics {
    pub params: List<GenericParam>,
    pub predicates: List<Predicate>,
    /// The parameters that a call can bind.
    pub bindable: List<Symbol>,
}

/// A function or a method: its signature with `Self` already replaced, and its body.
pub struct FnItem {
    pub id: u64,
    pub name: Symbol,
    pub generics: Generics,
    pub param_names: List<Symbol>,
    pub param_types: List<Type>,
    /// Which parameters are mutable.
    pub param_mutable: List<bool>,
    pub return_type: Rc<Type>,
    pub body: Block,
}

/// An `impl` block with its methods.
pub struct ImplItem {
    pub id: u64,
    pub generics: Generics,
    pub self_ty: Rc<Type>,
    pub methods: List<FnItem>,
}

} // verus!

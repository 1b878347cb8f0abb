//! What an expression says by its form alone.
use crate::env::{self, contains_name, find_array, find_int, GenericVars, JitError};
use crate::list::{self, share, List};
use crate::names;
use crate::scalar::{self, bare_type};
use crate::syntax::{
    BinOp, Block, Expr, ExprKind, Lit, Pat, Path, Stmt, Symbol, Type, UnOp,
};
use std::rc::Rc;
use vstd::prelude::*;

verus! {

// Literals.

/// The value of a literal as an `i32`, where it fits.
pub open spec fn lit_i32(lit: Lit) -> Option<i32> {
    match lit {
        Lit::Int { value: Some(value), spelling: _, suffix: _ } => if value <= i32::MAX {
            Some(value as i32)
        } else {
            None
        },
        _ => None,
    }
}

/// The value of a literal as a `usize`, where it fits.
pub open spec fn lit_usize(lit: Lit) -> Option<usize> {
    match lit {
        Lit::Int { value: Some(value), spelling: _, suffix: _ } => if value <= usize::MAX {
            Some(value as usize)
        } else {
            None
        },
        _ => None,
    }
}

pub fn literal_i32(lit: &Lit) -> (r: Option<i32>)
    ensures
        r == lit_i32(*lit),
{
    match lit {
        Lit::Int { value: Some(value), spelling: _, suffix: _ } => {
            if *value <= i32::MAX as u128 {
                Some(*value as i32)
            } else {
                None
            }
        },
        _ => None,
    }
}

pub fn literal_usize(lit: &Lit) -> (r: Option<usize>)
    ensures
        r == lit_usize(*lit),
{
    match lit {
        Lit::Int { value: Some(value), spelling: _, suffix: _ } => {
            if *value <= usize::MAX as u128 {
                Some(*value as usize)
            } else {
                None
            }
        },
        _ => None,
    }
}

/// A literal with a value and, where it is a length, the suffix `usize`.
pub open spec fn count_expr(value: usize) -> Expr {
    Expr {
        id: None,
        kind: ExprKind::Lit {
            lit: Lit::Int { value: Some(value as u128), spelling: None, suffix: Some(names::USIZE) },
            ty: Some(Rc::new(scalar::named_type(names::USIZE))),
        },
    }
}

pub fn count_literal(value: usize) -> (r: Rc<Expr>)
    ensures
        *r == count_expr(value),
{
    Rc::new(
        Expr {
            id: None,
            kind: ExprKind::Lit {
                lit: Lit::Int { value: Some(value as u128), spelling: None, suffix: Some(names::USIZE) },
                ty: Some(bare_type(names::USIZE)),
            },
        },
    )
}

/// A literal without a suffix.
pub open spec fn plain_expr(value: u128) -> Expr {
    Expr {
        id: None,
        kind: ExprKind::Lit { lit: Lit::Int { value: Some(value), spelling: None, suffix: None }, ty: None },
    }
}

/// A dimension as an expression: a literal, behind a minus sign where it is negative.
pub open spec fn dim_expr(value: i32) -> Expr {
    if value < 0 {
        Expr {
            id: None,
            kind: ExprKind::Unary { op: UnOp::Neg, expr: Rc::new(plain_expr((-value) as u128)) },
        }
    } else {
        plain_expr(value as u128)
    }
}

fn plain_literal(value: u128) -> (r: Rc<Expr>)
    ensures
        *r == plain_expr(value),
{
    Rc::new(
        Expr {
            id: None,
            kind: ExprKind::Lit { lit: Lit::Int { value: Some(value), spelling: None, suffix: None }, ty: None },
        },
    )
}

pub fn dim_literal(value: i32) -> (r: Rc<Expr>)
    ensures
        *r == dim_expr(value),
{
    if value < 0 {
        let magnitude: i64 = -(value as i64);
        Rc::new(
            Expr {
                id: None,
                kind: ExprKind::Unary {
                    op: UnOp::Neg,
                    expr: plain_literal(magnitude as u128),
                },
            },
        )
    } else {
        plain_literal(value as u128)
    }
}

/// The dimensions as expressions.
pub open spec fn dim_exprs(dims: List<i32>) -> List<Expr>
    decreases dims,
{
    match dims {
        List::Nil => List::Nil,
        List::Cons(dim, rest) => List::Cons(Rc::new(dim_expr(*dim)), Rc::new(dim_exprs(*rest))),
    }
}

pub fn dim_literals(dims: &List<i32>) -> (r: List<Expr>)
    ensures
        r == dim_exprs(*dims),
    decreases dims,
{
    match dims {
        List::Nil => List::Nil,
        List::Cons(dim, rest) => List::prepend(dim_literal(**dim), dim_literals(rest)),
    }
}

/// `{ [a, b] }`
pub open spec fn braced_array(elems: List<Expr>) -> Expr {
    Expr {
        id: None,
        kind: ExprKind::Block(
            Block {
                stmts: List::Cons(
                    Rc::new(
                        Stmt::Expr {
                            expr: Rc::new(Expr { id: None, kind: ExprKind::Array(elems) }),
                            semi: false,
                        },
                    ),
                    Rc::new(List::Nil),
                ),
            },
        ),
    }
}

pub fn braced(elems: List<Expr>) -> (r: Rc<Expr>)
    ensures
        *r == braced_array(elems),
{
    Rc::new(
        Expr {
            id: None,
            kind: ExprKind::Block(
                Block {
                    stmts: List::one(
                        Rc::new(
                            Stmt::Expr {
                                expr: Rc::new(Expr { id: None, kind: ExprKind::Array(elems) }),
                                semi: false,
                            },
                        ),
                    ),
                },
            ),
        },
    )
}

// Names.

/// The name of a path of one segment.
pub open spec fn single_name(path: Path) -> Option<Symbol> {
    match path.segments {
        List::Cons(segment, rest) => if *rest is Nil {
            Some(segment.ident)
        } else {
            None
        },
        List::Nil => None,
    }
}

pub fn path_single_name(path: &Path) -> (r: Option<Symbol>)
    ensures
        r == single_name(*path),
{
    match &path.segments {
        List::Cons(segment, rest) => {
            if rest.is_empty() {
                Some(segment.ident)
            } else {
                None
            }
        },
        List::Nil => None,
    }
}

/// The name that a path ends in.
pub open spec fn last_name(path: Path) -> Option<Symbol> {
    match path.segments.end() {
        Some(segment) => Some(segment.ident),
        None => None,
    }
}

pub fn path_last_name(path: &Path) -> (r: Option<Symbol>)
    ensures
        r == last_name(*path),
{
    match path.segments.last() {
        Some(segment) => Some(segment.ident),
        None => None,
    }
}

/// The name that an expression is, where it is a path of one segment.
pub open spec fn expr_name(expr: Expr) -> Option<Symbol> {
    match expr.kind {
        ExprKind::Path { qself: _, path } => single_name(path),
        _ => None,
    }
}

pub fn local_name(expr: &Expr) -> (r: Option<Symbol>)
    ensures
        r == expr_name(*expr),
{
    match &expr.kind {
        ExprKind::Path { qself: _, path } => path_single_name(path),
        _ => None,
    }
}

/// Whether a path is `Dim::new`.
pub open spec fn names_dim_new(path: Path) -> bool {
    path.segments@.len() == 2 && path.segments@[0].ident == names::DIM && path.segments@[1].ident
        == names::NEW
}

pub fn is_dim_new_call_path(path: &Path) -> (r: bool)
    ensures
        r == names_dim_new(*path),
{
    match &path.segments {
        List::Cons(first, rest) => match &**rest {
            List::Cons(second, end) => {
                proof {
                    reveal_with_fuel(List::items, 3);
                }
                assert(path.segments@ == seq![**first] + (seq![**second] + end@));
                end.is_empty() && first.ident == names::DIM && second.ident == names::NEW
            },
            List::Nil => {
                assert(path.segments@ == seq![**first] + rest@);
                false
            },
        },
        List::Nil => false,
    }
}

// Operators.

pub open spec fn keeps_operand_type(op: BinOp) -> bool {
    op is Add || op is Sub || op is Mul || op is Div || op is Rem || op is BitAnd || op is BitOr
        || op is BitXor
}

pub fn binary_result_matches_operands(op: BinOp) -> (r: bool)
    ensures
        r == keeps_operand_type(op),
{
    matches!(
        op,
        BinOp::Add
        | BinOp::Sub
        | BinOp::Mul
        | BinOp::Div
        | BinOp::Rem
        | BinOp::BitAnd
        | BinOp::BitOr
        | BinOp::BitXor
    )
}

pub open spec fn combines_bools(op: BinOp) -> bool {
    op is And || op is Or
}

pub open spec fn gives_bool(op: BinOp) -> bool {
    op is Eq || op is Ne || op is Lt || op is Le || op is Gt || op is Ge || combines_bools(op)
}

pub fn binary_result_is_bool(op: BinOp) -> (r: bool)
    ensures
        r == gives_bool(op),
{
    matches!(
        op,
        BinOp::Eq
        | BinOp::Ne
        | BinOp::Lt
        | BinOp::Le
        | BinOp::Gt
        | BinOp::Ge
        | BinOp::And
        | BinOp::Or
    )
}

pub fn binary_operands_are_bool(op: BinOp) -> (r: bool)
    ensures
        r == combines_bools(op),
{
    matches!(op, BinOp::And | BinOp::Or)
}

/// No operator both keeps its operands' type and gives a `bool`.
pub proof fn operators_are_of_one_sort(op: BinOp)
    ensures
        !(keeps_operand_type(op) && gives_bool(op)),
{
}

/// A number without a suffix, whatever signs and parentheses stand before it.
pub open spec fn unsuffixed_number(expr: Expr) -> bool
    decreases expr,
{
    match expr.kind {
        ExprKind::Lit { lit, ty: _ } => match lit {
            Lit::Int { value: _, spelling: _, suffix } => suffix is None,
            Lit::Float { digits: _, suffix } => suffix is None,
            _ => false,
        },
        ExprKind::Paren(inner) => unsuffixed_number(*inner),
        ExprKind::Unary { op, expr: inner } => op is Neg && unsuffixed_number(*inner),
        _ => false,
    }
}

pub fn is_unsuffixed_numeric_literal(expr: &Expr) -> (r: bool)
    ensures
        r == unsuffixed_number(*expr),
    decreases expr,
{
    match &expr.kind {
        ExprKind::Lit { lit, ty: _ } => match lit {
            Lit::Int { value: _, spelling: _, suffix } => suffix.is_none(),
            Lit::Float { digits: _, suffix } => suffix.is_none(),
            _ => false,
        },
        ExprKind::Paren(inner) => is_unsuffixed_numeric_literal(inner),
        ExprKind::Unary { op, expr: inner } => matches!(op, UnOp::Neg)
            && is_unsuffixed_numeric_literal(inner),
        _ => false,
    }
}

// Divergence.

/// Whether control leaves the function before the expression has a value.
pub open spec fn diverges(expr: Expr) -> bool
    decreases expr,
{
    match expr.kind {
        ExprKind::Return(_) => true,
        ExprKind::Block(block) => stmts_diverge(block.stmts),
        ExprKind::Unsafe(block) => stmts_diverge(block.stmts),
        ExprKind::Paren(inner) => diverges(*inner),
        ExprKind::If { cond: _, then_branch, else_branch } => match else_branch {
            Some(other) => stmts_diverge(then_branch.stmts) && diverges(*other),
            None => false,
        },
        _ => false,
    }
}

/// Whether one of the statements diverges.
pub open spec fn stmts_diverge(stmts: List<Stmt>) -> bool
    decreases stmts,
{
    match stmts {
        List::Nil => false,
        List::Cons(stmt, rest) => (match *stmt {
            Stmt::Expr { expr, semi: _ } => diverges(*expr),
            _ => false,
        }) || stmts_diverge(*rest),
    }
}

pub fn expr_diverges(expr: &Expr) -> (r: bool)
    ensures
        r == diverges(*expr),
    decreases expr,
{
    match &expr.kind {
        ExprKind::Return(_) => true,
        ExprKind::Block(block) => statements_diverge(&block.stmts),
        ExprKind::Unsafe(block) => statements_diverge(&block.stmts),
        ExprKind::Paren(inner) => expr_diverges(inner),
        ExprKind::If { cond: _, then_branch, else_branch } => match else_branch {
            Some(other) => statements_diverge(&then_branch.stmts) && expr_diverges(other),
            None => false,
        },
        _ => false,
    }
}

fn statements_diverge(stmts: &List<Stmt>) -> (r: bool)
    ensures
        r == stmts_diverge(*stmts),
    decreases stmts,
{
    match stmts {
        List::Nil => false,
        List::Cons(stmt, rest) => stmt_diverges(stmt) || statements_diverge(rest),
    }
}

fn stmt_diverges(stmt: &Stmt) -> (r: bool)
    ensures
        r == (match *stmt {
            Stmt::Expr { expr, semi: _ } => diverges(*expr),
            _ => false,
        }),
    decreases stmt,
{
    match stmt {
        Stmt::Expr { expr, semi: _ } => expr_diverges(expr),
        _ => false,
    }
}

pub fn block_diverges(block: &Block) -> (r: bool)
    ensures
        r == stmts_diverge(block.stmts),
{
    statements_diverge(&block.stmts)
}

/// A block that holds a diverging block as a statement diverges.
pub proof fn divergence_reaches_outwards(
    inner: Expr,
    semi: bool,
    before: List<Stmt>,
    after: List<Stmt>,
)
    requires
        diverges(inner),
    ensures
        stmts_diverge(
            before.joined(List::Cons(Rc::new(Stmt::Expr { expr: Rc::new(inner), semi }), Rc::new(after))),
        ),
    decreases before,
{
    if let List::Cons(_, rest) = before {
        divergence_reaches_outwards(inner, semi, list::held(&rest), after);
    }
}

/// Whether a statement is a `return`.
pub open spec fn is_return(stmt: Stmt) -> bool {
    match stmt {
        Stmt::Expr { expr, semi: _ } => expr.kind is Return,
        _ => false,
    }
}

pub fn stmt_is_return(stmt: &Stmt) -> (r: bool)
    ensures
        r == is_return(*stmt),
{
    match stmt {
        Stmt::Expr { expr, semi: _ } => matches!(expr.kind, ExprKind::Return(_)),
        _ => false,
    }
}

// Patterns.

/// The type that a pattern is annotated with.
pub open spec fn annotation(pat: Pat) -> Option<Type> {
    match pat {
        Pat::Type { pat: _, ty } => Some(*ty),
        _ => None,
    }
}

pub fn local_pattern_type(pat: &Pat) -> (r: Option<Rc<Type>>)
    ensures
        r == (match annotation(*pat) {
            Some(ty) => Some(Rc::new(ty)),
            None => None::<Rc<Type>>,
        }),
{
    match pat {
        Pat::Type { pat: _, ty } => Some(share(ty)),
        _ => None,
    }
}

/// The one name that a pattern binds, below annotations.
pub open spec fn binding_name(pat: Pat) -> Option<Symbol>
    decreases pat,
{
    match pat {
        Pat::Ident { name, mutable: _, subpat: _ } => Some(name),
        Pat::Type { pat: inner, ty: _ } => binding_name(*inner),
        _ => None,
    }
}

pub fn local_binding_name(pat: &Pat) -> (r: Option<Symbol>)
    ensures
        r == binding_name(*pat),
    decreases pat,
{
    match pat {
        Pat::Ident { name, mutable: _, subpat: _ } => Some(*name),
        Pat::Type { pat: inner, ty: _ } => local_binding_name(inner),
        _ => None,
    }
}

// Constant expressions.

/// The index that an expression fixes.
pub open spec fn fixed_index(expr: Expr) -> Option<usize>
    decreases expr,
{
    match expr.kind {
        ExprKind::Lit { lit, ty: _ } => lit_usize(lit),
        ExprKind::Unary { op, expr: inner } => if op is Neg {
            None
        } else {
            fixed_index(*inner)
        },
        ExprKind::Paren(inner) => fixed_index(*inner),
        _ => None,
    }
}

pub fn static_usize_index(expr: &Expr) -> (r: Option<usize>)
    ensures
        r == fixed_index(*expr),
    decreases expr,
{
    match &expr.kind {
        ExprKind::Lit { lit, ty: _ } => literal_usize(lit),
        ExprKind::Unary { op, expr: inner } => {
            if matches!(op, UnOp::Neg) {
                None
            } else {
                static_usize_index(inner)
            }
        },
        ExprKind::Paren(inner) => static_usize_index(inner),
        _ => None,
    }
}

/// The number of repetitions that a length stands for.
pub open spec fn repeat_length(vars: GenericVars, len: Expr) -> Option<usize>
    decreases len,
{
    match len.kind {
        ExprKind::Lit { lit, ty: _ } => lit_usize(lit),
        ExprKind::Path { qself: _, path } => match single_name(path) {
            Some(name) => match env::int_of(vars.ints, name) {
                Some(value) => if value >= 0 {
                    Some(value as usize)
                } else {
                    None
                },
                None => None,
            },
            None => None,
        },
        ExprKind::Paren(inner) => repeat_length(vars, *inner),
        _ => None,
    }
}

pub fn repeat_length_value(len: &Expr, vars: &GenericVars) -> (r: Option<usize>)
    ensures
        r == repeat_length(*vars, *len),
    decreases len,
{
    match &len.kind {
        ExprKind::Lit { lit, ty: _ } => literal_usize(lit),
        ExprKind::Path { qself: _, path } => match path_single_name(path) {
            Some(name) => match find_int(&vars.ints, name) {
                Some(value) => {
                    if value >= 0 {
                        Some(value as usize)
                    } else {
                        None
                    }
                },
                None => None,
            },
            None => None,
        },
        ExprKind::Paren(inner) => repeat_length_value(inner, vars),
        _ => None,
    }
}

/// The number of dimensions that a constant shape has.
pub open spec fn shape_rank(vars: GenericVars, expr: Expr) -> Option<usize>
    decreases expr,
{
    match expr.kind {
        ExprKind::Block(block) => match block.stmts {
            List::Cons(stmt, rest) => if *rest is Nil {
                match *stmt {
                    Stmt::Expr { expr: inner, semi: _ } => shape_rank(vars, *inner),
                    _ => None,
                }
            } else {
                None
            },
            List::Nil => None,
        },
        ExprKind::Array(elems) => Some(length(elems)),
        ExprKind::Repeat { expr: _, len } => match len.kind {
            ExprKind::Lit { lit, ty: _ } => lit_usize(lit),
            ExprKind::Path { qself: _, path } => match last_name(path) {
                Some(name) => match env::int_of(vars.ints, name) {
                    Some(value) => Some(value as usize),
                    None => None,
                },
                None => None,
            },
            _ => None,
        },
        ExprKind::Path { qself: _, path } => match last_name(path) {
            Some(name) => match env::array_of(vars.inst_array, name) {
                Some(dims) => Some(length(dims)),
                None => None,
            },
            None => None,
        },
        _ => None,
    }
}

/// The number of items, as far as a `usize` counts.
pub open spec fn length<T>(list: List<T>) -> usize {
    if list@.len() <= usize::MAX {
        list@.len() as usize
    } else {
        usize::MAX
    }
}

pub fn rank_from_const_shape_expr(expr: &Expr, vars: &GenericVars) -> (r: Option<usize>)
    ensures
        r == shape_rank(*vars, *expr),
    decreases expr,
{
    match &expr.kind {
        ExprKind::Block(block) => match &block.stmts {
            List::Cons(stmt, rest) => {
                if rest.is_empty() {
                    match &**stmt {
                        Stmt::Expr { expr: inner, semi: _ } => {
                            rank_from_const_shape_expr(inner, vars)
                        },
                        _ => None,
                    }
                } else {
                    None
                }
            },
            List::Nil => None,
        },
        ExprKind::Array(elems) => Some(elems.count()),
        ExprKind::Repeat { expr: _, len } => match &len.kind {
            ExprKind::Lit { lit, ty: _ } => literal_usize(lit),
            ExprKind::Path { qself: _, path } => match path_last_name(path) {
                Some(name) => match find_int(&vars.ints, name) {
                    Some(value) => Some(#[verifier::truncate] (value as usize)),
                    None => None,
                },
                None => None,
            },
            _ => None,
        },
        ExprKind::Path { qself: _, path } => match path_last_name(path) {
            Some(name) => match find_array(&vars.inst_array, name) {
                Some(dims) => Some(dims.count()),
                None => None,
            },
            None => None,
        },
        _ => None,
    }
}

/// The integer that a dimension of a static's shape is.
pub open spec fn plain_int(expr: Expr) -> Option<i32>
    decreases expr,
{
    match expr.kind {
        ExprKind::Lit { lit, ty: _ } => lit_i32(lit),
        ExprKind::Unary { op, expr: inner } => if op is Neg {
            match plain_int(*inner) {
                Some(value) => Some((-value) as i32),
                None => None,
            }
        } else {
            None
        },
        ExprKind::Paren(inner) => plain_int(*inner),
        _ => None,
    }
}

/// Such an integer has an opposite that fits too.
pub proof fn plain_int_has_opposite(expr: Expr)
    ensures
        plain_int(expr) matches Some(value) ==> -i32::MAX <= value <= i32::MAX,
    decreases expr,
{
    match expr.kind {
        ExprKind::Unary { op: _, expr: inner } => plain_int_has_opposite(list::held(&inner)),
        ExprKind::Paren(inner) => plain_int_has_opposite(list::held(&inner)),
        _ => {},
    }
}

pub fn global_expr_i32(expr: &Expr) -> (r: Option<i32>)
    ensures
        r == plain_int(*expr),
    decreases expr,
{
    match &expr.kind {
        ExprKind::Lit { lit, ty: _ } => literal_i32(lit),
        ExprKind::Unary { op, expr: inner } => {
            if matches!(op, UnOp::Neg) {
                match global_expr_i32(inner) {
                    Some(value) => {
                        proof {
                            plain_int_has_opposite(list::held(inner));
                        }
                        Some(-value)
                    },
                    None => None,
                }
            } else {
                None
            }
        },
        ExprKind::Paren(inner) => global_expr_i32(inner),
        _ => None,
    }
}

/// The integers that all items of a list are.
pub open spec fn plain_ints(exprs: List<Expr>) -> Option<List<i32>>
    decreases exprs,
{
    match exprs {
        List::Nil => Some(List::Nil),
        List::Cons(expr, rest) => match (plain_int(*expr), plain_ints(*rest)) {
            (Some(value), Some(values)) => Some(List::Cons(Rc::new(value), Rc::new(values))),
            _ => None,
        },
    }
}

fn global_exprs_i32(exprs: &List<Expr>) -> (r: Option<List<i32>>)
    ensures
        r == plain_ints(*exprs),
    decreases exprs,
{
    match exprs {
        List::Nil => Some(List::Nil),
        List::Cons(expr, rest) => match global_expr_i32(expr) {
            Some(value) => match global_exprs_i32(rest) {
                Some(values) => Some(List::prepend(Rc::new(value), values)),
                None => None,
            },
            None => None,
        },
    }
}

/// A value, as often as a number says.
pub open spec fn repeated(value: i32, times: nat) -> List<i32>
    decreases times,
{
    if times == 0 {
        List::Nil
    } else {
        List::Cons(Rc::new(value), Rc::new(repeated(value, (times - 1) as nat)))
    }
}

fn repeat_value(value: i32, times: u32) -> (r: List<i32>)
    ensures
        r == repeated(value, times as nat),
{
    let mut list: List<i32> = List::Nil;
    let mut done: u32 = 0;
    while done < times
        invariant
            done <= times,
            list == repeated(value, done as nat),
        decreases times - done,
    {
        list = List::prepend(Rc::new(value), list);
        done += 1;
    }
    list
}

/// The shape that a static's constant argument lists; a shape that repeats a dimension a negative
/// number of times is an error.
pub open spec fn static_shape(expr: Expr) -> Result<Option<List<i32>>, JitError>
    decreases expr,
{
    match expr.kind {
        ExprKind::Block(block) => match block.stmts {
            List::Cons(stmt, rest) => if *rest is Nil {
                match *stmt {
                    Stmt::Expr { expr: inner, semi: _ } => static_shape(*inner),
                    _ => Ok(None),
                }
            } else {
                Ok(None)
            },
            List::Nil => Ok(None),
        },
        ExprKind::Array(elems) => Ok(plain_ints(elems)),
        ExprKind::Repeat { expr: value, len } => match plain_int(*value) {
            Some(value) => match plain_int(*len) {
                Some(times) => if times >= 0 {
                    Ok(Some(repeated(value, times as nat)))
                } else {
                    Err(JitError::MalformedShape)
                },
                None => Ok(None),
            },
            None => Ok(None),
        },
        ExprKind::Paren(inner) => static_shape(*inner),
        _ => Ok(None),
    }
}

pub fn global_const_shape_expr(expr: &Expr) -> (r: Result<Option<List<i32>>, JitError>)
    ensures
        r == static_shape(*expr),
    decreases expr,
{
    match &expr.kind {
        ExprKind::Block(block) => match &block.stmts {
            List::Cons(stmt, rest) => {
                if rest.is_empty() {
                    match &**stmt {
                        Stmt::Expr { expr: inner, semi: _ } => global_const_shape_expr(inner),
                        _ => Ok(None),
                    }
                } else {
                    Ok(None)
                }
            },
            List::Nil => Ok(None),
        },
        ExprKind::Array(elems) => Ok(global_exprs_i32(elems)),
        ExprKind::Repeat { expr: value, len } => match global_expr_i32(value) {
            Some(value) => match global_expr_i32(len) {
                Some(times) => {
                    if times >= 0 {
                        Ok(Some(repeat_value(value, times as u32)))
                    } else {
                        Err(JitError::MalformedShape)
                    }
                },
                None => Ok(None),
            },
            None => Ok(None),
        },
        ExprKind::Paren(inner) => global_const_shape_expr(inner),
        _ => Ok(None),
    }
}

/// The dimensions of a shape that is written out are read back from the expression that lists them.
pub proof fn written_shape_reads_back(dims: List<i32>)
    requires
        forall|i: int| 0 <= i < dims@.len() ==> #[trigger] dims@[i] > i32::MIN,
    ensures
        static_shape(braced_array(dim_exprs(dims))) == Ok::<Option<List<i32>>, JitError>(Some(dims)),
{
    written_dims_read_back(dims);
    reveal_with_fuel(static_shape, 2);
}

proof fn written_dims_read_back(dims: List<i32>)
    requires
        forall|i: int| 0 <= i < dims@.len() ==> #[trigger] dims@[i] > i32::MIN,
    ensures
        plain_ints(dim_exprs(dims)) == Some(dims),
    decreases dims,
{
    if let List::Cons(dim, rest) = dims {
        let tail = list::held(&rest);
        assert(dims@ == seq![list::held(&dim)] + tail@);
        assert(dims@[0] == list::held(&dim));
        assert forall|i: int| 0 <= i < tail@.len() implies #[trigger] tail@[i] > i32::MIN by {
            assert(dims@[i + 1] == tail@[i]);
        }
        written_dims_read_back(tail);
        reveal_with_fuel(plain_int, 3);
    }
}

// Constant expressions over generic names.

/// Whether a name is bound to a constant.
pub open spec fn const_bound(vars: GenericVars, name: Symbol) -> bool {
    env::has_name(vars.inst_i32, name) || env::has_name(vars.inst_bool, name) || env::array_of(
        vars.inst_array,
        name,
    ) is Some || env::has_name(vars.len2array, name)
}

pub fn is_const_bound(vars: &GenericVars, name: Symbol) -> (r: bool)
    ensures
        r == const_bound(*vars, name),
{
    contains_name(&vars.inst_i32, name) || contains_name(&vars.inst_bool, name) || find_array(
        &vars.inst_array,
        name,
    ).is_some() || contains_name(&vars.len2array, name)
}

/// Whether an index into a bound array names one of its items.
pub open spec fn index_in_array(vars: GenericVars, array: Expr, index: Expr) -> bool {
    match array.kind {
        ExprKind::Path { qself: _, path } => match last_name(path) {
            Some(name) => match (env::array_of(vars.inst_array, name), fixed_index(index)) {
                (Some(dims), Some(position)) => position < length(dims),
                _ => false,
            },
            None => false,
        },
        _ => false,
    }
}

pub fn const_cga_index_is_resolvable(array: &Expr, index: &Expr, vars: &GenericVars) -> (r: bool)
    ensures
        r == index_in_array(*vars, *array, *index),
{
    match &array.kind {
        ExprKind::Path { qself: _, path } => match path_last_name(path) {
            Some(name) => match find_array(&vars.inst_array, name) {
                Some(dims) => match static_usize_index(index) {
                    Some(position) => position < dims.count(),
                    None => false,
                },
                None => false,
            },
            None => false,
        },
        _ => false,
    }
}

/// Whether a name that a constant path ends in is one of those wanted: bound to a constant where
/// `bound` is set, declared as generic otherwise.
pub open spec fn const_name_ok(vars: GenericVars, bound: bool, path: Path) -> bool {
    match last_name(path) {
        Some(name) => if bound {
            const_bound(vars, name)
        } else {
            env::has_name(vars.declared, name)
        },
        None => false,
    }
}

fn const_path_ok(vars: &GenericVars, bound: bool, path: &Path) -> (r: bool)
    ensures
        r == const_name_ok(*vars, bound, *path),
{
    match path_last_name(path) {
        Some(name) => {
            if bound {
                is_const_bound(vars, name)
            } else {
                contains_name(&vars.declared, name)
            }
        },
        None => false,
    }
}

/// Whether every name in an item of a constant array is one of those wanted.
pub open spec fn const_item_ok(vars: GenericVars, bound: bool, expr: Expr) -> bool
    decreases expr,
{
    match expr.kind {
        ExprKind::Lit { lit: _, ty: _ } => true,
        ExprKind::Path { qself: _, path } => const_name_ok(vars, bound, path),
        ExprKind::Index { expr: array, index } => index_in_array(vars, *array, *index),
        ExprKind::Unary { op: _, expr: inner } => const_item_ok(vars, bound, *inner),
        ExprKind::Paren(inner) => const_item_ok(vars, bound, *inner),
        _ => false,
    }
}

pub open spec fn const_items_ok(vars: GenericVars, bound: bool, exprs: List<Expr>) -> bool
    decreases exprs,
{
    match exprs {
        List::Nil => true,
        List::Cons(expr, rest) => const_item_ok(vars, bound, *expr) && const_items_ok(
            vars,
            bound,
            *rest,
        ),
    }
}

/// Whether every name in a constant expression is one of those wanted.
pub open spec fn const_ok(vars: GenericVars, bound: bool, expr: Expr) -> bool
    decreases expr,
{
    match expr.kind {
        ExprKind::Path { qself: _, path } => const_name_ok(vars, bound, path),
        ExprKind::Index { expr: array, index } => index_in_array(vars, *array, *index),
        ExprKind::Block(block) => match block.stmts {
            List::Cons(stmt, rest) => if *rest is Nil {
                match *stmt {
                    Stmt::Expr { expr: inner, semi: _ } => const_ok(vars, bound, *inner),
                    _ => false,
                }
            } else {
                false
            },
            List::Nil => false,
        },
        ExprKind::Array(elems) => const_items_ok(vars, bound, elems),
        ExprKind::Repeat { expr: value, len } => const_ok(vars, bound, *value) && const_ok(
            vars,
            bound,
            *len,
        ),
        ExprKind::Lit { lit: _, ty: _ } => true,
        ExprKind::Unary { op: _, expr: inner } => const_ok(vars, bound, *inner),
        ExprKind::Paren(inner) => const_ok(vars, bound, *inner),
        _ => false,
    }
}

fn const_array_elem_is_ok(expr: &Expr, vars: &GenericVars, bound: bool) -> (r: bool)
    ensures
        r == const_item_ok(*vars, bound, *expr),
    decreases expr,
{
    match &expr.kind {
        ExprKind::Lit { lit: _, ty: _ } => true,
        ExprKind::Path { qself: _, path } => const_path_ok(vars, bound, path),
        ExprKind::Index { expr: array, index } => const_cga_index_is_resolvable(array, index, vars),
        ExprKind::Unary { op: _, expr: inner } => const_array_elem_is_ok(inner, vars, bound),
        ExprKind::Paren(inner) => const_array_elem_is_ok(inner, vars, bound),
        _ => false,
    }
}

fn const_array_elems_are_ok(exprs: &List<Expr>, vars: &GenericVars, bound: bool) -> (r: bool)
    ensures
        r == const_items_ok(*vars, bound, *exprs),
    decreases exprs,
{
    match exprs {
        List::Nil => true,
        List::Cons(expr, rest) => const_array_elem_is_ok(expr, vars, bound)
            && const_array_elems_are_ok(rest, vars, bound),
    }
}

fn const_expr_is_ok(expr: &Expr, vars: &GenericVars, bound: bool) -> (r: bool)
    ensures
        r == const_ok(*vars, bound, *expr),
    decreases expr,
{
    match &expr.kind {
        ExprKind::Path { qself: _, path } => const_path_ok(vars, bound, path),
        ExprKind::Index { expr: array, index } => const_cga_index_is_resolvable(array, index, vars),
        ExprKind::Block(block) => match &block.stmts {
            List::Cons(stmt, rest) => {
                if rest.is_empty() {
                    match &**stmt {
                        Stmt::Expr { expr: inner, semi: _ } => const_expr_is_ok(inner, vars, bound),
                        _ => false,
                    }
                } else {
                    false
                }
            },
            List::Nil => false,
        },
        ExprKind::Array(elems) => const_array_elems_are_ok(elems, vars, bound),
        ExprKind::Repeat { expr: value, len } => const_expr_is_ok(value, vars, bound)
            && const_expr_is_ok(len, vars, bound),
        ExprKind::Lit { lit: _, ty: _ } => true,
        ExprKind::Unary { op: _, expr: inner } => const_expr_is_ok(inner, vars, bound),
        ExprKind::Paren(inner) => const_expr_is_ok(inner, vars, bound),
        _ => false,
    }
}

/// Whether every name in a constant expression is declared as generic.
pub fn const_expr_is_resolvable(expr: &Expr, vars: &GenericVars) -> (r: bool)
    ensures
        r == const_ok(*vars, false, *expr),
{
    const_expr_is_ok(expr, vars, false)
}

/// Whether every name in a constant expression is bound to a constant.
pub fn const_expr_is_fully_known(expr: &Expr, vars: &GenericVars) -> (r: bool)
    ensures
        r == const_ok(*vars, true, *expr),
{
    const_expr_is_ok(expr, vars, true)
}

pub fn const_array_elem_is_resolvable(expr: &Expr, vars: &GenericVars) -> (r: bool)
    ensures
        r == const_item_ok(*vars, false, *expr),
{
    const_array_elem_is_ok(expr, vars, false)
}

pub fn const_array_elem_is_fully_known(expr: &Expr, vars: &GenericVars) -> (r: bool)
    ensures
        r == const_item_ok(*vars, true, *expr),
{
    const_array_elem_is_ok(expr, vars, true)
}

/// Where only declared names are bound, a constant expression that is fully known is resolvable.
pub proof fn known_constants_are_resolvable(vars: GenericVars, expr: Expr)
    requires
        forall|name: Symbol| #[trigger] const_bound(vars, name) ==> env::has_name(vars.declared, name),
        const_ok(vars, true, expr),
    ensures
        const_ok(vars, false, expr),
    decreases expr,
{
    match expr.kind {
        ExprKind::Block(block) => match block.stmts {
            List::Cons(stmt, _) => match list::held(&stmt) {
                Stmt::Expr { expr: inner, semi: _ } => known_constants_are_resolvable(
                    vars,
                    list::held(&inner),
                ),
                _ => {},
            },
            List::Nil => {},
        },
        ExprKind::Array(elems) => known_items_are_resolvable(vars, elems),
        ExprKind::Repeat { expr: value, len } => {
            known_constants_are_resolvable(vars, list::held(&value));
            known_constants_are_resolvable(vars, list::held(&len));
        },
        ExprKind::Unary { op: _, expr: inner } => known_constants_are_resolvable(
            vars,
            list::held(&inner),
        ),
        ExprKind::Paren(inner) => known_constants_are_resolvable(vars, list::held(&inner)),
        _ => {},
    }
}

proof fn known_items_are_resolvable(vars: GenericVars, exprs: List<Expr>)
    requires
        forall|name: Symbol| #[trigger] const_bound(vars, name) ==> env::has_name(vars.declared, name),
        const_items_ok(vars, true, exprs),
    ensures
        const_items_ok(vars, false, exprs),
    decreases exprs,
{
    if let List::Cons(expr, rest) = exprs {
        known_item_is_resolvable(vars, list::held(&expr));
        known_items_are_resolvable(vars, list::held(&rest));
    }
}

proof fn known_item_is_resolvable(vars: GenericVars, expr: Expr)
    requires
        forall|name: Symbol| #[trigger] const_bound(vars, name) ==> env::has_name(vars.declared, name),
        const_item_ok(vars, true, expr),
    ensures
        const_item_ok(vars, false, expr),
    decreases expr,
{
    match expr.kind {
        ExprKind::Unary { op: _, expr: inner } => known_item_is_resolvable(
            vars,
            list::held(&inner),
        ),
        ExprKind::Paren(inner) => known_item_is_resolvable(vars, list::held(&inner)),
        _ => {},
    }
}

} // verus!

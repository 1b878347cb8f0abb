//! Equality of syntax trees: two trees are equal where every part of them is.
use crate::list::List;
use crate::syntax::{
    Block, ClosureParam, Expr, ExprKind, FieldPat, FieldValue, GenericArg, Lit, NodeId, Pat, Path,
    PathArgs, QSelf, Segment, Stmt, Symbol, Token, Type,
};
use std::rc::Rc;
use vstd::prelude::*;

verus! {

pub fn path_eq(a: &Path, b: &Path) -> (r: bool)
    ensures
        r == (*a == *b),
    decreases a,
{
    a.global == b.global && segment_list_eq(&a.segments, &b.segments)
}

pub fn segment_eq(a: &Segment, b: &Segment) -> (r: bool)
    ensures
        r == (*a == *b),
    decreases a,
{
    a.ident == b.ident && path_args_eq(&a.args, &b.args)
}

pub fn path_args_eq(a: &PathArgs, b: &PathArgs) -> (r: bool)
    ensures
        r == (*a == *b),
    decreases a,
{
    match (a, b) {
        (PathArgs::Bare, PathArgs::Bare) => true,
        (PathArgs::Angle(x), PathArgs::Angle(y)) => generic_arg_list_eq(x, y),
        (
            PathArgs::Call { inputs: inputs_a, output: output_a },
            PathArgs::Call { inputs: inputs_b, output: output_b },
        ) => type_list_eq(inputs_a, inputs_b) && type_opt_eq(output_a, output_b),
        _ => false,
    }
}

pub fn generic_arg_eq(a: &GenericArg, b: &GenericArg) -> (r: bool)
    ensures
        r == (*a == *b),
    decreases a,
{
    match (a, b) {
        (GenericArg::Type(x), GenericArg::Type(y)) => type_eq(x, y),
        (GenericArg::Const(x), GenericArg::Const(y)) => expr_eq(x, y),
        (GenericArg::Lifetime(x), GenericArg::Lifetime(y)) => *x == *y,
        (GenericArg::Other(x), GenericArg::Other(y)) => *x == *y,
        _ => false,
    }
}

pub fn qself_eq(a: &QSelf, b: &QSelf) -> (r: bool)
    ensures
        r == (*a == *b),
    decreases a,
{
    type_eq(&a.ty, &b.ty) && a.position == b.position
}

pub fn type_eq(a: &Type, b: &Type) -> (r: bool)
    ensures
        r == (*a == *b),
    decreases a,
{
    match (a, b) {
        (
            Type::Path { qself: qself_a, path: path_a },
            Type::Path { qself: qself_b, path: path_b },
        ) => qself_opt_eq(qself_a, qself_b) && path_eq(path_a, path_b),
        (
            Type::Reference { lifetime: lifetime_a, mutable: mutable_a, elem: elem_a },
            Type::Reference { lifetime: lifetime_b, mutable: mutable_b, elem: elem_b },
        ) => symbol_opt_eq(*lifetime_a, *lifetime_b)
            && *mutable_a == *mutable_b
            && type_eq(elem_a, elem_b),
        (
            Type::Ptr { mutable: mutable_a, elem: elem_a },
            Type::Ptr { mutable: mutable_b, elem: elem_b },
        ) => *mutable_a == *mutable_b && type_eq(elem_a, elem_b),
        (Type::Tuple(x), Type::Tuple(y)) => type_list_eq(x, y),
        (
            Type::Array { elem: elem_a, len: len_a },
            Type::Array { elem: elem_b, len: len_b },
        ) => type_eq(elem_a, elem_b) && expr_eq(len_a, len_b),
        (Type::Slice(x), Type::Slice(y)) => type_eq(x, y),
        (Type::Paren(x), Type::Paren(y)) => type_eq(x, y),
        (Type::Group(x), Type::Group(y)) => type_eq(x, y),
        (Type::Never, Type::Never) => true,
        (Type::Infer, Type::Infer) => true,
        (Type::ImplTrait(x), Type::ImplTrait(y)) => *x == *y,
        (Type::Other(x), Type::Other(y)) => *x == *y,
        _ => false,
    }
}

pub fn lit_eq(a: &Lit, b: &Lit) -> (r: bool)
    ensures
        r == (*a == *b),
    decreases a,
{
    match (a, b) {
        (
            Lit::Int { value: value_a, spelling: spelling_a, suffix: suffix_a },
            Lit::Int { value: value_b, spelling: spelling_b, suffix: suffix_b },
        ) => value_opt_eq(*value_a, *value_b) && symbol_opt_eq(*spelling_a, *spelling_b)
            && symbol_opt_eq(*suffix_a, *suffix_b),
        (
            Lit::Float { digits: digits_a, suffix: suffix_a },
            Lit::Float { digits: digits_b, suffix: suffix_b },
        ) => *digits_a == *digits_b && symbol_opt_eq(*suffix_a, *suffix_b),
        (Lit::Str(x), Lit::Str(y)) => *x == *y,
        (Lit::Bool(x), Lit::Bool(y)) => *x == *y,
        (Lit::Other(x), Lit::Other(y)) => *x == *y,
        _ => false,
    }
}

pub fn token_eq(a: &Token, b: &Token) -> (r: bool)
    ensures
        r == (*a == *b),
    decreases a,
{
    match (a, b) {
        (
            Token::Literal { text: text_a, expr: expr_a },
            Token::Literal { text: text_b, expr: expr_b },
        ) => *text_a == *text_b && expr_eq(expr_a, expr_b),
        (
            Token::Ident { name: name_a, expr: expr_a },
            Token::Ident { name: name_b, expr: expr_b },
        ) => *name_a == *name_b && expr_eq(expr_a, expr_b),
        (Token::Comma, Token::Comma) => true,
        (Token::Other(x), Token::Other(y)) => *x == *y,
        _ => false,
    }
}

pub fn field_value_eq(a: &FieldValue, b: &FieldValue) -> (r: bool)
    ensures
        r == (*a == *b),
    decreases a,
{
    a.member == b.member && expr_eq(&a.expr, &b.expr)
}

pub fn closure_param_eq(a: &ClosureParam, b: &ClosureParam) -> (r: bool)
    ensures
        r == (*a == *b),
    decreases a,
{
    a.name == b.name && type_opt_eq(&a.ty, &b.ty)
}

pub fn expr_eq(a: &Expr, b: &Expr) -> (r: bool)
    ensures
        r == (*a == *b),
    decreases a,
{
    id_opt_eq(a.id, b.id) && expr_kind_eq(&a.kind, &b.kind)
}

pub fn expr_kind_eq(a: &ExprKind, b: &ExprKind) -> (r: bool)
    ensures
        r == (*a == *b),
    decreases a,
{
    match (a, b) {
        (
            ExprKind::Path { qself: qself_a, path: path_a },
            ExprKind::Path { qself: qself_b, path: path_b },
        ) => qself_opt_eq(qself_a, qself_b) && path_eq(path_a, path_b),
        (
            ExprKind::Reference { mutable: mutable_a, expr: expr_a },
            ExprKind::Reference { mutable: mutable_b, expr: expr_b },
        ) => *mutable_a == *mutable_b && expr_eq(expr_a, expr_b),
        (ExprKind::Paren(x), ExprKind::Paren(y)) => expr_eq(x, y),
        (ExprKind::Block(x), ExprKind::Block(y)) => block_eq(x, y),
        (ExprKind::Unsafe(x), ExprKind::Unsafe(y)) => block_eq(x, y),
        (ExprKind::Tuple(x), ExprKind::Tuple(y)) => expr_list_eq(x, y),
        (ExprKind::Array(x), ExprKind::Array(y)) => expr_list_eq(x, y),
        (
            ExprKind::Repeat { expr: expr_a, len: len_a },
            ExprKind::Repeat { expr: expr_b, len: len_b },
        ) => expr_eq(expr_a, expr_b) && expr_eq(len_a, len_b),
        (
            ExprKind::Range { start: start_a, end: end_a },
            ExprKind::Range { start: start_b, end: end_b },
        ) => expr_opt_eq(start_a, start_b) && expr_opt_eq(end_a, end_b),
        (
            ExprKind::Field { base: base_a, member: member_a },
            ExprKind::Field { base: base_b, member: member_b },
        ) => expr_eq(base_a, base_b) && *member_a == *member_b,
        (
            ExprKind::Index { expr: expr_a, index: index_a },
            ExprKind::Index { expr: expr_b, index: index_b },
        ) => expr_eq(expr_a, expr_b) && expr_eq(index_a, index_b),
        (
            ExprKind::Call { func: func_a, args: args_a },
            ExprKind::Call { func: func_b, args: args_b },
        ) => expr_eq(func_a, func_b) && expr_list_eq(args_a, args_b),
        (
            ExprKind::MethodCall { receiver: receiver_a, method: method_a, turbofish: turbofish_a, args: args_a },
            ExprKind::MethodCall { receiver: receiver_b, method: method_b, turbofish: turbofish_b, args: args_b },
        ) => expr_eq(receiver_a, receiver_b)
            && *method_a == *method_b
            && generic_arg_list_opt_eq(turbofish_a, turbofish_b)
            && expr_list_eq(args_a, args_b),
        (
            ExprKind::Struct { path: path_a, fields: fields_a },
            ExprKind::Struct { path: path_b, fields: fields_b },
        ) => path_eq(path_a, path_b) && field_value_list_eq(fields_a, fields_b),
        (
            ExprKind::Macro { path: path_a, tokens: tokens_a },
            ExprKind::Macro { path: path_b, tokens: tokens_b },
        ) => path_eq(path_a, path_b) && token_list_eq(tokens_a, tokens_b),
        (
            ExprKind::Cast { expr: expr_a, ty: ty_a },
            ExprKind::Cast { expr: expr_b, ty: ty_b },
        ) => expr_eq(expr_a, expr_b) && type_eq(ty_a, ty_b),
        (
            ExprKind::Closure { params: params_a, body: body_a },
            ExprKind::Closure { params: params_b, body: body_b },
        ) => closure_param_list_eq(params_a, params_b) && expr_eq(body_a, body_b),
        (
            ExprKind::Assign { left: left_a, right: right_a },
            ExprKind::Assign { left: left_b, right: right_b },
        ) => expr_eq(left_a, left_b) && expr_eq(right_a, right_b),
        (
            ExprKind::Binary { op: op_a, left: left_a, right: right_a },
            ExprKind::Binary { op: op_b, left: left_b, right: right_b },
        ) => *op_a == *op_b && expr_eq(left_a, left_b) && expr_eq(right_a, right_b),
        (
            ExprKind::Unary { op: op_a, expr: expr_a },
            ExprKind::Unary { op: op_b, expr: expr_b },
        ) => *op_a == *op_b && expr_eq(expr_a, expr_b),
        (
            ExprKind::Lit { lit: lit_a, ty: ty_a },
            ExprKind::Lit { lit: lit_b, ty: ty_b },
        ) => lit_eq(lit_a, lit_b) && type_opt_eq(ty_a, ty_b),
        (
            ExprKind::If { cond: cond_a, then_branch: then_branch_a, else_branch: else_branch_a },
            ExprKind::If { cond: cond_b, then_branch: then_branch_b, else_branch: else_branch_b },
        ) => expr_eq(cond_a, cond_b)
            && block_eq(then_branch_a, then_branch_b)
            && expr_opt_eq(else_branch_a, else_branch_b),
        (
            ExprKind::ForLoop { pat: pat_a, expr: expr_a, body: body_a },
            ExprKind::ForLoop { pat: pat_b, expr: expr_b, body: body_b },
        ) => pat_eq(pat_a, pat_b) && expr_eq(expr_a, expr_b) && block_eq(body_a, body_b),
        (
            ExprKind::While { cond: cond_a, body: body_a },
            ExprKind::While { cond: cond_b, body: body_b },
        ) => expr_eq(cond_a, cond_b) && block_eq(body_a, body_b),
        (ExprKind::Loop(x), ExprKind::Loop(y)) => block_eq(x, y),
        (ExprKind::Return(x), ExprKind::Return(y)) => expr_opt_eq(x, y),
        (ExprKind::Other(x), ExprKind::Other(y)) => *x == *y,
        _ => false,
    }
}

pub fn block_eq(a: &Block, b: &Block) -> (r: bool)
    ensures
        r == (*a == *b),
    decreases a,
{
    stmt_list_eq(&a.stmts, &b.stmts)
}

pub fn stmt_eq(a: &Stmt, b: &Stmt) -> (r: bool)
    ensures
        r == (*a == *b),
    decreases a,
{
    match (a, b) {
        (
            Stmt::Local { pat: pat_a, init: init_a },
            Stmt::Local { pat: pat_b, init: init_b },
        ) => pat_eq(pat_a, pat_b) && expr_opt_eq(init_a, init_b),
        (
            Stmt::Expr { expr: expr_a, semi: semi_a },
            Stmt::Expr { expr: expr_b, semi: semi_b },
        ) => expr_eq(expr_a, expr_b) && *semi_a == *semi_b,
        (
            Stmt::Const { name: name_a, ty: ty_a, expr: expr_a },
            Stmt::Const { name: name_b, ty: ty_b, expr: expr_b },
        ) => *name_a == *name_b && type_eq(ty_a, ty_b) && expr_eq(expr_a, expr_b),
        (Stmt::Item(x), Stmt::Item(y)) => *x == *y,
        (Stmt::Macro(x), Stmt::Macro(y)) => *x == *y,
        _ => false,
    }
}

pub fn field_pat_eq(a: &FieldPat, b: &FieldPat) -> (r: bool)
    ensures
        r == (*a == *b),
    decreases a,
{
    a.member == b.member && pat_eq(&a.pat, &b.pat)
}

pub fn pat_eq(a: &Pat, b: &Pat) -> (r: bool)
    ensures
        r == (*a == *b),
    decreases a,
{
    match (a, b) {
        (
            Pat::Ident { name: name_a, mutable: mutable_a, subpat: subpat_a },
            Pat::Ident { name: name_b, mutable: mutable_b, subpat: subpat_b },
        ) => *name_a == *name_b && *mutable_a == *mutable_b && pat_opt_eq(subpat_a, subpat_b),
        (
            Pat::Type { pat: pat_a, ty: ty_a },
            Pat::Type { pat: pat_b, ty: ty_b },
        ) => pat_eq(pat_a, pat_b) && type_eq(ty_a, ty_b),
        (Pat::Paren(x), Pat::Paren(y)) => pat_eq(x, y),
        (Pat::Reference(x), Pat::Reference(y)) => pat_eq(x, y),
        (Pat::Tuple(x), Pat::Tuple(y)) => pat_list_eq(x, y),
        (Pat::Slice(x), Pat::Slice(y)) => pat_list_eq(x, y),
        (Pat::Struct(x), Pat::Struct(y)) => field_pat_list_eq(x, y),
        (Pat::TupleStruct(x), Pat::TupleStruct(y)) => pat_list_eq(x, y),
        (Pat::Or(x), Pat::Or(y)) => pat_list_eq(x, y),
        (Pat::Wild, Pat::Wild) => true,
        (Pat::Rest, Pat::Rest) => true,
        (Pat::Other(x), Pat::Other(y)) => *x == *y,
        _ => false,
    }
}

pub fn closure_param_list_eq(a: &List<ClosureParam>, b: &List<ClosureParam>) -> (r: bool)
    ensures
        r == (*a == *b),
    decreases a,
{
    match (a, b) {
        (List::Nil, List::Nil) => true,
        (
            List::Cons(x, p),
            List::Cons(y, q),
        ) => closure_param_eq(x, y) && closure_param_list_eq(p, q),
        _ => false,
    }
}

pub fn expr_list_eq(a: &List<Expr>, b: &List<Expr>) -> (r: bool)
    ensures
        r == (*a == *b),
    decreases a,
{
    match (a, b) {
        (List::Nil, List::Nil) => true,
        (List::Cons(x, p), List::Cons(y, q)) => expr_eq(x, y) && expr_list_eq(p, q),
        _ => false,
    }
}

pub fn field_pat_list_eq(a: &List<FieldPat>, b: &List<FieldPat>) -> (r: bool)
    ensures
        r == (*a == *b),
    decreases a,
{
    match (a, b) {
        (List::Nil, List::Nil) => true,
        (List::Cons(x, p), List::Cons(y, q)) => field_pat_eq(x, y) && field_pat_list_eq(p, q),
        _ => false,
    }
}

pub fn field_value_list_eq(a: &List<FieldValue>, b: &List<FieldValue>) -> (r: bool)
    ensures
        r == (*a == *b),
    decreases a,
{
    match (a, b) {
        (List::Nil, List::Nil) => true,
        (List::Cons(x, p), List::Cons(y, q)) => field_value_eq(x, y) && field_value_list_eq(p, q),
        _ => false,
    }
}

pub fn generic_arg_list_eq(a: &List<GenericArg>, b: &List<GenericArg>) -> (r: bool)
    ensures
        r == (*a == *b),
    decreases a,
{
    match (a, b) {
        (List::Nil, List::Nil) => true,
        (List::Cons(x, p), List::Cons(y, q)) => generic_arg_eq(x, y) && generic_arg_list_eq(p, q),
        _ => false,
    }
}

pub fn pat_list_eq(a: &List<Pat>, b: &List<Pat>) -> (r: bool)
    ensures
        r == (*a == *b),
    decreases a,
{
    match (a, b) {
        (List::Nil, List::Nil) => true,
        (List::Cons(x, p), List::Cons(y, q)) => pat_eq(x, y) && pat_list_eq(p, q),
        _ => false,
    }
}

pub fn segment_list_eq(a: &List<Segment>, b: &List<Segment>) -> (r: bool)
    ensures
        r == (*a == *b),
    decreases a,
{
    match (a, b) {
        (List::Nil, List::Nil) => true,
        (List::Cons(x, p), List::Cons(y, q)) => segment_eq(x, y) && segment_list_eq(p, q),
        _ => false,
    }
}

pub fn stmt_list_eq(a: &List<Stmt>, b: &List<Stmt>) -> (r: bool)
    ensures
        r == (*a == *b),
    decreases a,
{
    match (a, b) {
        (List::Nil, List::Nil) => true,
        (List::Cons(x, p), List::Cons(y, q)) => stmt_eq(x, y) && stmt_list_eq(p, q),
        _ => false,
    }
}

pub fn token_list_eq(a: &List<Token>, b: &List<Token>) -> (r: bool)
    ensures
        r == (*a == *b),
    decreases a,
{
    match (a, b) {
        (List::Nil, List::Nil) => true,
        (List::Cons(x, p), List::Cons(y, q)) => token_eq(x, y) && token_list_eq(p, q),
        _ => false,
    }
}

pub fn type_list_eq(a: &List<Type>, b: &List<Type>) -> (r: bool)
    ensures
        r == (*a == *b),
    decreases a,
{
    match (a, b) {
        (List::Nil, List::Nil) => true,
        (List::Cons(x, p), List::Cons(y, q)) => type_eq(x, y) && type_list_eq(p, q),
        _ => false,
    }
}

pub fn expr_opt_eq(a: &Option<Rc<Expr>>, b: &Option<Rc<Expr>>) -> (r: bool)
    ensures
        r == (*a == *b),
    decreases a,
{
    match (a, b) {
        (None, None) => true,
        (Some(x), Some(y)) => expr_eq(x, y),
        _ => false,
    }
}

pub fn pat_opt_eq(a: &Option<Rc<Pat>>, b: &Option<Rc<Pat>>) -> (r: bool)
    ensures
        r == (*a == *b),
    decreases a,
{
    match (a, b) {
        (None, None) => true,
        (Some(x), Some(y)) => pat_eq(x, y),
        _ => false,
    }
}

pub fn qself_opt_eq(a: &Option<Rc<QSelf>>, b: &Option<Rc<QSelf>>) -> (r: bool)
    ensures
        r == (*a == *b),
    decreases a,
{
    match (a, b) {
        (None, None) => true,
        (Some(x), Some(y)) => qself_eq(x, y),
        _ => false,
    }
}

pub fn type_opt_eq(a: &Option<Rc<Type>>, b: &Option<Rc<Type>>) -> (r: bool)
    ensures
        r == (*a == *b),
    decreases a,
{
    match (a, b) {
        (None, None) => true,
        (Some(x), Some(y)) => type_eq(x, y),
        _ => false,
    }
}

pub fn generic_arg_list_opt_eq(
    a: &Option<List<GenericArg>>,
    b: &Option<List<GenericArg>>,
) -> (r: bool)
    ensures
        r == (*a == *b),
    decreases a,
{
    match (a, b) {
        (None, None) => true,
        (Some(x), Some(y)) => generic_arg_list_eq(x, y),
        _ => false,
    }
}

pub fn symbol_opt_eq(a: Option<Symbol>, b: Option<Symbol>) -> (r: bool)
    ensures
        r == (a == b),
{
    match (a, b) {
        (None, None) => true,
        (Some(x), Some(y)) => x == y,
        _ => false,
    }
}

pub fn value_opt_eq(a: Option<u128>, b: Option<u128>) -> (r: bool)
    ensures
        r == (a == b),
{
    match (a, b) {
        (None, None) => true,
        (Some(x), Some(y)) => x == y,
        _ => false,
    }
}

pub fn id_opt_eq(a: Option<NodeId>, b: Option<NodeId>) -> (r: bool)
    ensures
        r == (a == b),
{
    match (a, b) {
        (None, None) => true,
        (Some(x), Some(y)) => x == y,
        _ => false,
    }
}

} // verus!

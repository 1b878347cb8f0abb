//! Replacing generic parameters by what they are bound to, and finding where they are mentioned.
use crate::env::{self, Binding, ParamBinding};
use crate::exprs::{self, path_single_name};
use crate::list::{self, share, share_opt, List};
use crate::names;
use crate::syntax::{
    Block, Bound, Expr, ExprKind, GenericArg, GenericParam, Generics, Path, PathArgs, Predicate,
    Segment, Stmt, Symbol, Type,
};
use crate::types::{self, bare_type_path_name};
use std::collections::HashSet;
use std::rc::Rc;
use vstd::prelude::*;

verus! {

// Bindings.

/// What is known of a parameter: nothing, that it has no binding yet, or its binding.
pub open spec fn binding_of(
    bindings: List<ParamBinding>,
    name: Symbol,
) -> Option<Option<Rc<Binding>>>
    decreases bindings,
{
    match bindings {
        List::Nil => None,
        List::Cons(entry, rest) => if entry.name == name {
            Some(entry.binding)
        } else {
            binding_of(*rest, name)
        },
    }
}

fn find_binding(bindings: &List<ParamBinding>, name: Symbol) -> (r: Option<Option<Rc<Binding>>>)
    ensures
        r == binding_of(*bindings, name),
    decreases bindings,
{
    match bindings {
        List::Nil => None,
        List::Cons(entry, rest) => {
            if entry.name == name {
                Some(share_opt(&entry.binding))
            } else {
                find_binding(rest, name)
            }
        },
    }
}

/// The binding of the parameter that a type is: none where the type is no parameter, and an error
/// where the parameter has no binding yet.
pub open spec fn bare_binding(
    bindings: List<ParamBinding>,
    ty: Type,
) -> Result<Option<Rc<Binding>>, ()> {
    match types::bare_name(ty) {
        Some(name) => match binding_of(bindings, name) {
            Some(Some(binding)) => Ok(Some(binding)),
            Some(None) => Err(()),
            None => Ok(None),
        },
        None => Ok(None),
    }
}

pub fn resolved_bare_type_path_arg(
    ty: &Type,
    bindings: &List<ParamBinding>,
) -> (r: Result<Option<Rc<Binding>>, ()>)
    ensures
        r == bare_binding(*bindings, *ty),
{
    match bare_type_path_name(ty) {
        Some(name) => match find_binding(bindings, name) {
            Some(Some(binding)) => Ok(Some(binding)),
            Some(None) => Err(()),
            None => Ok(None),
        },
        None => Ok(None),
    }
}

// Substitution.

/// The type with its parameters replaced by what they are bound to; nothing where one of them has
/// no binding yet, or is bound to what cannot stand there.
pub open spec fn substituted(bindings: List<ParamBinding>, ty: Type) -> Option<Rc<Type>>
    decreases ty,
{
    match ty {
        Type::Path { qself, path } => if qself is None {
            match bare_binding(bindings, ty) {
                Err(_) => None,
                Ok(Some(binding)) => if binding.is_type {
                    binding.as_type
                } else {
                    None
                },
                Ok(None) => match substituted_segments(bindings, path.segments) {
                    Some(segments) => Some(
                        Rc::new(
                            Type::Path { qself: None, path: Path { global: path.global, segments } },
                        ),
                    ),
                    None => None,
                },
            }
        } else {
            Some(Rc::new(ty))
        },
        Type::Reference { lifetime, mutable, elem } => match substituted(bindings, *elem) {
            Some(elem) => Some(Rc::new(Type::Reference { lifetime, mutable, elem })),
            None => None,
        },
        Type::Ptr { mutable, elem } => match substituted(bindings, *elem) {
            Some(elem) => Some(Rc::new(Type::Ptr { mutable, elem })),
            None => None,
        },
        Type::Tuple(elems) => match all_substituted(bindings, elems) {
            Some(elems) => Some(Rc::new(Type::Tuple(elems))),
            None => None,
        },
        Type::Array { elem, len } => match (
            substituted(bindings, *elem),
            substituted_const(bindings, *len),
        ) {
            (Some(elem), Some(len)) => Some(Rc::new(Type::Array { elem, len })),
            _ => None,
        },
        Type::Slice(elem) => match substituted(bindings, *elem) {
            Some(elem) => Some(Rc::new(Type::Slice(elem))),
            None => None,
        },
        Type::ImplTrait(_) => None,
        _ => Some(Rc::new(ty)),
    }
}

pub open spec fn all_substituted(
    bindings: List<ParamBinding>,
    types: List<Type>,
) -> Option<List<Type>>
    decreases types,
{
    match types {
        List::Nil => Some(List::Nil),
        List::Cons(ty, rest) => match (
            substituted(bindings, *ty),
            all_substituted(bindings, *rest),
        ) {
            (Some(ty), Some(rest)) => Some(List::Cons(ty, Rc::new(rest))),
            _ => None,
        },
    }
}

pub open spec fn substituted_segments(
    bindings: List<ParamBinding>,
    segments: List<Segment>,
) -> Option<List<Segment>>
    decreases segments,
{
    match segments {
        List::Nil => Some(List::Nil),
        List::Cons(segment, rest) => match substituted_segments(bindings, *rest) {
            Some(rest) => match segment.args {
                PathArgs::Angle(args) => match substituted_args(bindings, args) {
                    Some(args) => Some(
                        List::Cons(
                            Rc::new(Segment { ident: segment.ident, args: PathArgs::Angle(args) }),
                            Rc::new(rest),
                        ),
                    ),
                    None => None,
                },
                _ => Some(List::Cons(segment, Rc::new(rest))),
            },
            None => None,
        },
    }
}

pub open spec fn substituted_args(
    bindings: List<ParamBinding>,
    args: List<GenericArg>,
) -> Option<List<GenericArg>>
    decreases args,
{
    match args {
        List::Nil => Some(List::Nil),
        List::Cons(arg, rest) => match (
            substituted_arg(bindings, *arg),
            substituted_args(bindings, *rest),
        ) {
            (Some(arg), Some(rest)) => Some(List::Cons(arg, Rc::new(rest))),
            _ => None,
        },
    }
}

pub open spec fn substituted_arg(
    bindings: List<ParamBinding>,
    arg: GenericArg,
) -> Option<Rc<GenericArg>>
    decreases arg,
{
    match arg {
        GenericArg::Type(ty) => match bare_binding(bindings, *ty) {
            Err(_) => None,
            Ok(Some(binding)) => binding.as_arg,
            Ok(None) => match substituted(bindings, *ty) {
                Some(ty) => Some(Rc::new(GenericArg::Type(ty))),
                None => None,
            },
        },
        GenericArg::Const(expr) => match substituted_const(bindings, *expr) {
            Some(expr) => Some(Rc::new(GenericArg::Const(expr))),
            None => None,
        },
        GenericArg::Lifetime(_) => Some(Rc::new(arg)),
        GenericArg::Other(_) => None,
    }
}

/// The constant expression with its parameters replaced by what they are bound to.
pub open spec fn substituted_const(bindings: List<ParamBinding>, expr: Expr) -> Option<Rc<Expr>>
    decreases expr,
{
    match expr.kind {
        ExprKind::Path { qself: _, path } => match exprs::single_name(path) {
            Some(name) => match binding_of(bindings, name) {
                None => Some(Rc::new(expr)),
                Some(None) => None,
                Some(Some(binding)) => binding.as_expr,
            },
            None => Some(Rc::new(expr)),
        },
        ExprKind::Block(block) => match block.stmts {
            List::Cons(stmt, rest) => if *rest is Nil {
                match *stmt {
                    Stmt::Expr { expr: inner, semi: _ } => match substituted_const(bindings, *inner) {
                        Some(inner) => Some(
                            Rc::new(
                                Expr {
                                    id: expr.id,
                                    kind: ExprKind::Block(
                                        Block {
                                            stmts: List::Cons(
                                                Rc::new(Stmt::Expr { expr: inner, semi: false }),
                                                Rc::new(List::Nil),
                                            ),
                                        },
                                    ),
                                },
                            ),
                        ),
                        None => None,
                    },
                    _ => Some(Rc::new(expr)),
                }
            } else {
                Some(Rc::new(expr))
            },
            List::Nil => Some(Rc::new(expr)),
        },
        ExprKind::Array(elems) => match all_substituted_const(bindings, elems) {
            Some(elems) => Some(Rc::new(Expr { id: expr.id, kind: ExprKind::Array(elems) })),
            None => None,
        },
        ExprKind::Repeat { expr: value, len } => match (
            substituted_const(bindings, *value),
            substituted_const(bindings, *len),
        ) {
            (Some(value), Some(len)) => Some(
                Rc::new(Expr { id: expr.id, kind: ExprKind::Repeat { expr: value, len } }),
            ),
            _ => None,
        },
        ExprKind::Unary { op, expr: inner } => match substituted_const(bindings, *inner) {
            Some(inner) => Some(
                Rc::new(Expr { id: expr.id, kind: ExprKind::Unary { op, expr: inner } }),
            ),
            None => None,
        },
        ExprKind::Paren(inner) => match substituted_const(bindings, *inner) {
            Some(inner) => Some(Rc::new(Expr { id: expr.id, kind: ExprKind::Paren(inner) })),
            None => None,
        },
        _ => Some(Rc::new(expr)),
    }
}

pub open spec fn all_substituted_const(
    bindings: List<ParamBinding>,
    exprs: List<Expr>,
) -> Option<List<Expr>>
    decreases exprs,
{
    match exprs {
        List::Nil => Some(List::Nil),
        List::Cons(expr, rest) => match (
            substituted_const(bindings, *expr),
            all_substituted_const(bindings, *rest),
        ) {
            (Some(expr), Some(rest)) => Some(List::Cons(expr, Rc::new(rest))),
            _ => None,
        },
    }
}

pub fn substitute_resolved_generics(
    ty: &Rc<Type>,
    bindings: &List<ParamBinding>,
) -> (r: Option<Rc<Type>>)
    ensures
        r == substituted(*bindings, **ty),
    decreases ty,
{
    match &**ty {
        Type::Path { qself, path } => {
            if qself.is_some() {
                return Some(share(ty));
            }
            match resolved_bare_type_path_arg(ty, bindings) {
                Err(_) => None,
                Ok(Some(binding)) => {
                    if binding.is_type {
                        share_opt(&binding.as_type)
                    } else {
                        None
                    }
                },
                Ok(None) => match substitute_segments(&path.segments, bindings) {
                    Some(segments) => Some(
                        Rc::new(
                            Type::Path { qself: None, path: Path { global: path.global, segments } },
                        ),
                    ),
                    None => None,
                },
            }
        },
        Type::Reference { lifetime, mutable, elem } => match substitute_resolved_generics(
            elem,
            bindings,
        ) {
            Some(elem) => Some(
                Rc::new(Type::Reference { lifetime: *lifetime, mutable: *mutable, elem }),
            ),
            None => None,
        },
        Type::Ptr { mutable, elem } => match substitute_resolved_generics(elem, bindings) {
            Some(elem) => Some(Rc::new(Type::Ptr { mutable: *mutable, elem })),
            None => None,
        },
        Type::Tuple(elems) => match substitute_types(elems, bindings) {
            Some(elems) => Some(Rc::new(Type::Tuple(elems))),
            None => None,
        },
        Type::Array { elem, len } => match substitute_resolved_generics(elem, bindings) {
            Some(elem) => match substitute_resolved_const_expr(len, bindings) {
                Some(len) => Some(Rc::new(Type::Array { elem, len })),
                None => None,
            },
            None => None,
        },
        Type::Slice(elem) => match substitute_resolved_generics(elem, bindings) {
            Some(elem) => Some(Rc::new(Type::Slice(elem))),
            None => None,
        },
        Type::ImplTrait(_) => None,
        _ => Some(share(ty)),
    }
}

fn substitute_types(types: &List<Type>, bindings: &List<ParamBinding>) -> (r: Option<List<Type>>)
    ensures
        r == all_substituted(*bindings, *types),
    decreases types,
{
    match types {
        List::Nil => Some(List::Nil),
        List::Cons(ty, rest) => match substitute_resolved_generics(ty, bindings) {
            Some(ty) => match substitute_types(rest, bindings) {
                Some(rest) => Some(List::prepend(ty, rest)),
                None => None,
            },
            None => None,
        },
    }
}

fn substitute_segments(
    segments: &List<Segment>,
    bindings: &List<ParamBinding>,
) -> (r: Option<List<Segment>>)
    ensures
        r == substituted_segments(*bindings, *segments),
    decreases segments,
{
    match segments {
        List::Nil => Some(List::Nil),
        List::Cons(segment, rest) => match substitute_segments(rest, bindings) {
            Some(rest) => match &segment.args {
                PathArgs::Angle(args) => match substitute_args(args, bindings) {
                    Some(args) => Some(
                        List::prepend(
                            Rc::new(Segment { ident: segment.ident, args: PathArgs::Angle(args) }),
                            rest,
                        ),
                    ),
                    None => None,
                },
                _ => Some(List::prepend(share(segment), rest)),
            },
            None => None,
        },
    }
}

fn substitute_args(
    args: &List<GenericArg>,
    bindings: &List<ParamBinding>,
) -> (r: Option<List<GenericArg>>)
    ensures
        r == substituted_args(*bindings, *args),
    decreases args,
{
    match args {
        List::Nil => Some(List::Nil),
        List::Cons(arg, rest) => match substitute_generic_argument(arg, bindings) {
            Some(arg) => match substitute_args(rest, bindings) {
                Some(rest) => Some(List::prepend(arg, rest)),
                None => None,
            },
            None => None,
        },
    }
}

pub fn substitute_generic_argument(
    arg: &Rc<GenericArg>,
    bindings: &List<ParamBinding>,
) -> (r: Option<Rc<GenericArg>>)
    ensures
        r == substituted_arg(*bindings, **arg),
    decreases arg,
{
    match &**arg {
        GenericArg::Type(ty) => match resolved_bare_type_path_arg(ty, bindings) {
            Err(_) => None,
            Ok(Some(binding)) => share_opt(&binding.as_arg),
            Ok(None) => match substitute_resolved_generics(ty, bindings) {
                Some(ty) => Some(Rc::new(GenericArg::Type(ty))),
                None => None,
            },
        },
        GenericArg::Const(expr) => match substitute_resolved_const_expr(expr, bindings) {
            Some(expr) => Some(Rc::new(GenericArg::Const(expr))),
            None => None,
        },
        GenericArg::Lifetime(_) => Some(share(arg)),
        GenericArg::Other(_) => None,
    }
}

pub fn substitute_resolved_const_expr(
    expr: &Rc<Expr>,
    bindings: &List<ParamBinding>,
) -> (r: Option<Rc<Expr>>)
    ensures
        r == substituted_const(*bindings, **expr),
    decreases expr,
{
    match &expr.kind {
        ExprKind::Path { qself: _, path } => match path_single_name(path) {
            Some(name) => match find_binding(bindings, name) {
                None => Some(share(expr)),
                Some(None) => None,
                Some(Some(binding)) => share_opt(&binding.as_expr),
            },
            None => Some(share(expr)),
        },
        ExprKind::Block(block) => match &block.stmts {
            List::Cons(stmt, rest) => {
                if rest.is_empty() {
                    match &**stmt {
                        Stmt::Expr { expr: inner, semi: _ } => match substitute_resolved_const_expr(
                            inner,
                            bindings,
                        ) {
                            Some(inner) => Some(
                                Rc::new(
                                    Expr {
                                        id: expr.id,
                                        kind: ExprKind::Block(
                                            Block {
                                                stmts: List::one(
                                                    Rc::new(Stmt::Expr { expr: inner, semi: false }),
                                                ),
                                            },
                                        ),
                                    },
                                ),
                            ),
                            None => None,
                        },
                        _ => Some(share(expr)),
                    }
                } else {
                    Some(share(expr))
                }
            },
            List::Nil => Some(share(expr)),
        },
        ExprKind::Array(elems) => match substitute_const_exprs(elems, bindings) {
            Some(elems) => Some(Rc::new(Expr { id: expr.id, kind: ExprKind::Array(elems) })),
            None => None,
        },
        ExprKind::Repeat { expr: value, len } => match substitute_resolved_const_expr(
            value,
            bindings,
        ) {
            Some(value) => match substitute_resolved_const_expr(len, bindings) {
                Some(len) => Some(
                    Rc::new(Expr { id: expr.id, kind: ExprKind::Repeat { expr: value, len } }),
                ),
                None => None,
            },
            None => None,
        },
        ExprKind::Unary { op, expr: inner } => match substitute_resolved_const_expr(
            inner,
            bindings,
        ) {
            Some(inner) => Some(
                Rc::new(Expr { id: expr.id, kind: ExprKind::Unary { op: *op, expr: inner } }),
            ),
            None => None,
        },
        ExprKind::Paren(inner) => match substitute_resolved_const_expr(inner, bindings) {
            Some(inner) => Some(Rc::new(Expr { id: expr.id, kind: ExprKind::Paren(inner) })),
            None => None,
        },
        _ => Some(share(expr)),
    }
}

fn substitute_const_exprs(
    exprs: &List<Expr>,
    bindings: &List<ParamBinding>,
) -> (r: Option<List<Expr>>)
    ensures
        r == all_substituted_const(*bindings, *exprs),
    decreases exprs,
{
    match exprs {
        List::Nil => Some(List::Nil),
        List::Cons(expr, rest) => match substitute_resolved_const_expr(expr, bindings) {
            Some(expr) => match substitute_const_exprs(rest, bindings) {
                Some(rest) => Some(List::prepend(expr, rest)),
                None => None,
            },
            None => None,
        },
    }
}

// Mentions.

/// Whether a name is mentioned in a type.
pub open spec fn mentions(ty: Type, name: Symbol) -> bool
    decreases ty,
{
    match ty {
        Type::Path { qself, path } => qself is None && segments_mention(path.segments, name),
        Type::Reference { lifetime: _, mutable: _, elem } => mentions(*elem, name),
        Type::Ptr { mutable: _, elem } => mentions(*elem, name),
        Type::Tuple(elems) => any_mentions(elems, name),
        Type::Array { elem, len } => mentions(*elem, name) || const_mentions(*len, name),
        Type::Slice(elem) => mentions(*elem, name),
        _ => false,
    }
}

pub open spec fn any_mentions(types: List<Type>, name: Symbol) -> bool
    decreases types,
{
    match types {
        List::Nil => false,
        List::Cons(ty, rest) => mentions(*ty, name) || any_mentions(*rest, name),
    }
}

pub open spec fn segments_mention(segments: List<Segment>, name: Symbol) -> bool
    decreases segments,
{
    match segments {
        List::Nil => false,
        List::Cons(segment, rest) => segment.ident == name || (match segment.args {
            PathArgs::Angle(args) => args_mention(args, name),
            _ => false,
        }) || segments_mention(*rest, name),
    }
}

pub open spec fn args_mention(args: List<GenericArg>, name: Symbol) -> bool
    decreases args,
{
    match args {
        List::Nil => false,
        List::Cons(arg, rest) => (match *arg {
            GenericArg::Type(ty) => mentions(*ty, name),
            GenericArg::Const(expr) => const_mentions(*expr, name),
            _ => false,
        }) || args_mention(*rest, name),
    }
}

/// Whether a name is mentioned in a constant expression.
pub open spec fn const_mentions(expr: Expr, name: Symbol) -> bool
    decreases expr,
{
    match expr.kind {
        ExprKind::Path { qself: _, path } => exprs::single_name(path) == Some(name),
        ExprKind::Block(block) => stmts_mention(block.stmts, name),
        ExprKind::Array(elems) => any_const_mentions(elems, name),
        ExprKind::Repeat { expr: value, len } => const_mentions(*value, name) || const_mentions(
            *len,
            name,
        ),
        ExprKind::Unary { op: _, expr: inner } => const_mentions(*inner, name),
        ExprKind::Paren(inner) => const_mentions(*inner, name),
        _ => false,
    }
}

pub open spec fn any_const_mentions(exprs: List<Expr>, name: Symbol) -> bool
    decreases exprs,
{
    match exprs {
        List::Nil => false,
        List::Cons(expr, rest) => const_mentions(*expr, name) || any_const_mentions(*rest, name),
    }
}

pub open spec fn stmts_mention(stmts: List<Stmt>, name: Symbol) -> bool
    decreases stmts,
{
    match stmts {
        List::Nil => false,
        List::Cons(stmt, rest) => (match *stmt {
            Stmt::Expr { expr, semi: _ } => const_mentions(*expr, name),
            _ => false,
        }) || stmts_mention(*rest, name),
    }
}

/// Adds the names in `allowed` that a type mentions.
pub fn collect_type_names(ty: &Type, allowed: &HashSet<Symbol>, found: &mut HashSet<Symbol>)
    ensures
        forall|name: Symbol| #[trigger]
            final(found)@.contains(name) <==> old(found)@.contains(name) || (allowed@.contains(name)
                && mentions(*ty, name)),
    decreases ty,
{
    match ty {
        Type::Path { qself, path } => {
            if qself.is_none() {
                collect_segment_names(&path.segments, allowed, found);
            }
        },
        Type::Reference { lifetime: _, mutable: _, elem } => collect_type_names(
            elem,
            allowed,
            found,
        ),
        Type::Ptr { mutable: _, elem } => collect_type_names(elem, allowed, found),
        Type::Tuple(elems) => collect_names_of_types(elems, allowed, found),
        Type::Array { elem, len } => {
            collect_type_names(elem, allowed, found);
            collect_const_expr_names(len, allowed, found);
        },
        Type::Slice(elem) => collect_type_names(elem, allowed, found),
        _ => {},
    }
}

fn collect_names_of_types(
    types: &List<Type>,
    allowed: &HashSet<Symbol>,
    found: &mut HashSet<Symbol>,
)
    ensures
        forall|name: Symbol| #[trigger]
            final(found)@.contains(name) <==> old(found)@.contains(name) || (allowed@.contains(name)
                && any_mentions(*types, name)),
    decreases types,
{
    match types {
        List::Nil => {},
        List::Cons(ty, rest) => {
            collect_type_names(ty, allowed, found);
            collect_names_of_types(rest, allowed, found);
        },
    }
}

fn collect_segment_names(
    segments: &List<Segment>,
    allowed: &HashSet<Symbol>,
    found: &mut HashSet<Symbol>,
)
    ensures
        forall|name: Symbol| #[trigger]
            final(found)@.contains(name) <==> old(found)@.contains(name) || (allowed@.contains(name)
                && segments_mention(*segments, name)),
    decreases segments,
{
    match segments {
        List::Nil => {},
        List::Cons(segment, rest) => {
            if allowed.contains(&segment.ident) {
                found.insert(segment.ident);
            }
            if let PathArgs::Angle(args) = &segment.args {
                collect_arg_names(args, allowed, found);
            }
            collect_segment_names(rest, allowed, found);
        },
    }
}

fn collect_arg_names(
    args: &List<GenericArg>,
    allowed: &HashSet<Symbol>,
    found: &mut HashSet<Symbol>,
)
    ensures
        forall|name: Symbol| #[trigger]
            final(found)@.contains(name) <==> old(found)@.contains(name) || (allowed@.contains(name)
                && args_mention(*args, name)),
    decreases args,
{
    match args {
        List::Nil => {},
        List::Cons(arg, rest) => {
            match &**arg {
                GenericArg::Type(ty) => collect_type_names(ty, allowed, found),
                GenericArg::Const(expr) => collect_const_expr_names(expr, allowed, found),
                _ => {},
            }
            collect_arg_names(rest, allowed, found);
        },
    }
}

/// Adds the names in `allowed` that a constant expression mentions.
pub fn collect_const_expr_names(
    expr: &Expr,
    allowed: &HashSet<Symbol>,
    found: &mut HashSet<Symbol>,
)
    ensures
        forall|name: Symbol| #[trigger]
            final(found)@.contains(name) <==> old(found)@.contains(name) || (allowed@.contains(name)
                && const_mentions(*expr, name)),
    decreases expr,
{
    match &expr.kind {
        ExprKind::Path { qself: _, path } => {
            if let Some(name) = path_single_name(path) {
                if allowed.contains(&name) {
                    found.insert(name);
                }
            }
        },
        ExprKind::Block(block) => collect_stmt_names(&block.stmts, allowed, found),
        ExprKind::Array(elems) => collect_names_of_consts(elems, allowed, found),
        ExprKind::Repeat { expr: value, len } => {
            collect_const_expr_names(value, allowed, found);
            collect_const_expr_names(len, allowed, found);
        },
        ExprKind::Unary { op: _, expr: inner } => collect_const_expr_names(inner, allowed, found),
        ExprKind::Paren(inner) => collect_const_expr_names(inner, allowed, found),
        _ => {},
    }
}

fn collect_names_of_consts(
    exprs: &List<Expr>,
    allowed: &HashSet<Symbol>,
    found: &mut HashSet<Symbol>,
)
    ensures
        forall|name: Symbol| #[trigger]
            final(found)@.contains(name) <==> old(found)@.contains(name) || (allowed@.contains(name)
                && any_const_mentions(*exprs, name)),
    decreases exprs,
{
    match exprs {
        List::Nil => {},
        List::Cons(expr, rest) => {
            collect_const_expr_names(expr, allowed, found);
            collect_names_of_consts(rest, allowed, found);
        },
    }
}

fn collect_stmt_names(stmts: &List<Stmt>, allowed: &HashSet<Symbol>, found: &mut HashSet<Symbol>)
    ensures
        forall|name: Symbol| #[trigger]
            final(found)@.contains(name) <==> old(found)@.contains(name) || (allowed@.contains(name)
                && stmts_mention(*stmts, name)),
    decreases stmts,
{
    match stmts {
        List::Nil => {},
        List::Cons(stmt, rest) => {
            match &**stmt {
                Stmt::Expr { expr, semi: _ } => collect_const_expr_names(expr, allowed, found),
                _ => {},
            }
            collect_stmt_names(rest, allowed, found);
        },
    }
}

/// Whether a type mentions one of the names of a set.
pub open spec fn mentions_one_of(ty: Type, wanted: Set<Symbol>) -> bool {
    exists|name: Symbol| wanted.contains(name) && #[trigger] mentions(ty, name)
}

pub fn type_mentions_any_name(ty: &Type, wanted: &HashSet<Symbol>) -> (r: bool)
    ensures
        r == mentions_one_of(*ty, wanted@),
{
    let mut seen: HashSet<Symbol> = HashSet::new();
    collect_type_names(ty, wanted, &mut seen);
    let r = !seen.is_empty();
    proof {
        if r {
            let name = seen@.choose();
            assert(seen@.contains(name));
        } else {
            assert forall|name: Symbol| wanted@.contains(name) implies !#[trigger] mentions(
                *ty,
                name,
            ) by {
                assert(!seen@.contains(name));
            }
        }
    }
    r
}

// Signatures of closures.

/// What a closure takes and gives.
pub struct ClosureSignature {
    pub inputs: List<Type>,
    pub output: Option<Rc<Type>>,
}

/// Whether a name is that of a trait of closures.
pub open spec fn closure_trait(name: Symbol) -> bool {
    name == names::FN || name == names::FN_MUT || name == names::FN_ONCE
}

/// The signature that the first bound by a trait of closures gives; none where an earlier bound has
/// no name.
pub open spec fn bounds_signature(bounds: List<Bound>) -> Option<ClosureSignature>
    decreases bounds,
{
    match bounds {
        List::Nil => None,
        List::Cons(bound, rest) => match *bound {
            Bound::Trait(path) => match path.segments.end() {
                None => None,
                Some(segment) => match segment.args {
                    PathArgs::Call { inputs, output } => if closure_trait(segment.ident) {
                        Some(ClosureSignature { inputs, output })
                    } else {
                        bounds_signature(*rest)
                    },
                    _ => bounds_signature(*rest),
                },
            },
            Bound::Other(_) => bounds_signature(*rest),
        },
    }
}

pub fn closure_signature_from_bounds(bounds: &List<Bound>) -> (r: Option<ClosureSignature>)
    ensures
        r == bounds_signature(*bounds),
    decreases bounds,
{
    match bounds {
        List::Nil => None,
        List::Cons(bound, rest) => match &**bound {
            Bound::Trait(path) => match path.segments.last() {
                None => None,
                Some(segment) => match &segment.args {
                    PathArgs::Call { inputs, output } => {
                        if segment.ident == names::FN || segment.ident == names::FN_MUT
                            || segment.ident == names::FN_ONCE {
                            Some(
                                ClosureSignature {
                                    inputs: inputs.dup(),
                                    output: share_opt(output),
                                },
                            )
                        } else {
                            closure_signature_from_bounds(rest)
                        }
                    },
                    _ => closure_signature_from_bounds(rest),
                },
            },
            Bound::Other(_) => closure_signature_from_bounds(rest),
        },
    }
}

pub open spec fn params_signature(
    params: List<GenericParam>,
    name: Symbol,
) -> Option<ClosureSignature>
    decreases params,
{
    match params {
        List::Nil => None,
        List::Cons(param, rest) => match *param {
            GenericParam::Type { name: declared, bounds } => if declared == name
                && bounds_signature(bounds) is Some {
                bounds_signature(bounds)
            } else {
                params_signature(*rest, name)
            },
            GenericParam::Other(_) => params_signature(*rest, name),
        },
    }
}

fn find_params_signature(params: &List<GenericParam>, name: Symbol) -> (r: Option<ClosureSignature>)
    ensures
        r == params_signature(*params, name),
    decreases params,
{
    match params {
        List::Nil => None,
        List::Cons(param, rest) => {
            if let GenericParam::Type { name: declared, bounds } = &**param {
                if *declared == name {
                    if let Some(signature) = closure_signature_from_bounds(bounds) {
                        return Some(signature);
                    }
                }
            }
            find_params_signature(rest, name)
        },
    }
}

pub open spec fn where_signature(
    predicates: List<Predicate>,
    name: Symbol,
) -> Option<ClosureSignature>
    decreases predicates,
{
    match predicates {
        List::Nil => None,
        List::Cons(predicate, rest) => match *predicate {
            Predicate::Type { bounded, bounds } => if types::bare_name(*bounded) == Some(name)
                && bounds_signature(bounds) is Some {
                bounds_signature(bounds)
            } else {
                where_signature(*rest, name)
            },
            Predicate::Other(_) => where_signature(*rest, name),
        },
    }
}

fn find_where_signature(predicates: &List<Predicate>, name: Symbol) -> (r: Option<ClosureSignature>)
    ensures
        r == where_signature(*predicates, name),
    decreases predicates,
{
    match predicates {
        List::Nil => None,
        List::Cons(predicate, rest) => {
            if let Predicate::Type { bounded, bounds } = &**predicate {
                if let Some(declared) = bare_type_path_name(bounded) {
                    if declared == name {
                        if let Some(signature) = closure_signature_from_bounds(bounds) {
                            return Some(signature);
                        }
                    }
                }
            }
            find_where_signature(rest, name)
        },
    }
}

/// The signature of the closures that a parameter of a generic type takes: from the parameter
/// list, or else from the `where` clause.
pub open spec fn param_signature(generics: Generics, param: Type) -> Option<ClosureSignature> {
    match types::bare_name(param) {
        Some(name) => list::or_else(
            params_signature(generics.params, name),
            where_signature(generics.predicates, name),
        ),
        None => None,
    }
}

pub fn closure_signature_for_param(
    generics: &Generics,
    param: &Type,
) -> (r: Option<ClosureSignature>)
    ensures
        r == param_signature(*generics, *param),
{
    match bare_type_path_name(param) {
        Some(name) => match find_params_signature(&generics.params, name) {
            Some(signature) => Some(signature),
            None => find_where_signature(&generics.predicates, name),
        },
        None => None,
    }
}

/// Whether a signature mentions a name.
pub open spec fn signature_mentions(signature: ClosureSignature, name: Symbol) -> bool {
    any_mentions(signature.inputs, name) || (match signature.output {
        Some(ty) => mentions(*ty, name),
        None => false,
    })
}

/// Whether one of the signatures that are there mentions a name.
pub open spec fn some_signature_mentions(
    signatures: List<Option<ClosureSignature>>,
    name: Symbol,
) -> bool
    decreases signatures,
{
    match signatures {
        List::Nil => false,
        List::Cons(signature, rest) => (match *signature {
            Some(signature) => signature_mentions(signature, name),
            None => false,
        }) || some_signature_mentions(*rest, name),
    }
}

/// The parameters of a function that the signatures of its closures mention.
pub open spec fn closure_names(
    generics: Generics,
    signatures: List<Option<ClosureSignature>>,
) -> Set<Symbol> {
    Set::new(
        |name: Symbol|
            env::has_name(generics.bindable, name) && some_signature_mentions(signatures, name),
    )
}

fn names_as_set(list: &List<Symbol>, set: &mut HashSet<Symbol>)
    ensures
        forall|name: Symbol| #[trigger]
            final(set)@.contains(name) <==> old(set)@.contains(name) || env::has_name(*list, name),
    decreases list,
{
    match list {
        List::Nil => {},
        List::Cons(name, rest) => {
            set.insert(**name);
            names_as_set(rest, set);
        },
    }
}

fn collect_signature_names(
    signatures: &List<Option<ClosureSignature>>,
    allowed: &HashSet<Symbol>,
    found: &mut HashSet<Symbol>,
)
    ensures
        forall|name: Symbol| #[trigger]
            final(found)@.contains(name) <==> old(found)@.contains(name) || (allowed@.contains(name)
                && some_signature_mentions(*signatures, name)),
    decreases signatures,
{
    match signatures {
        List::Nil => {},
        List::Cons(signature, rest) => {
            if let Some(signature) = &**signature {
                collect_names_of_types(&signature.inputs, allowed, found);
                if let Some(output) = &signature.output {
                    collect_type_names(output, allowed, found);
                }
            }
            collect_signature_names(rest, allowed, found);
        },
    }
}

pub fn closure_signature_generic_names(
    generics: &Generics,
    signatures: &List<Option<ClosureSignature>>,
) -> (r: HashSet<Symbol>)
    ensures
        r@ == closure_names(*generics, *signatures),
{
    let mut allowed: HashSet<Symbol> = HashSet::new();
    names_as_set(&generics.bindable, &mut allowed);
    let mut found: HashSet<Symbol> = HashSet::new();
    collect_signature_names(signatures, &allowed, &mut found);
    assert(found@ =~= closure_names(*generics, *signatures));
    found
}

} // verus!

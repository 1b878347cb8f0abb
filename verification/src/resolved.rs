//! Resolved types: the form in which inference files the type of an expression.
use crate::list::{self, share, List};
use crate::names::Names;
use crate::scalar::{self, ResolvedScalarType};
use crate::syntax::{Expr, Path, PathArgs, Segment, Type};
use std::rc::Rc;
use vstd::prelude::*;

verus! {

#[allow(inconsistent_fields)]
pub enum ResolvedType {
    Scalar(ResolvedScalarType),
    Adt { path: Path },
    Reference { mutable: bool, elem: Rc<ResolvedType> },
    Pointer { mutable: bool, elem: Rc<ResolvedType> },
    Tuple(List<ResolvedType>),
    Array { elem: Rc<ResolvedType>, len: Rc<Expr> },
    Slice(Rc<ResolvedType>),
    Unit,
    Never,
    Surface(Rc<Type>),
}

/// The scalar type that a path names: one segment, no arguments, the name of a scalar.
pub open spec fn path_scalar(names: Names, path: Path) -> Option<ResolvedScalarType> {
    match path.segments {
        List::Cons(segment, rest) => if *rest is Nil && segment.args is Bare {
            scalar::scalar_named(names.text_of(segment.ident))
        } else {
            None
        },
        List::Nil => None,
    }
}

/// The resolved form of a type.
pub open spec fn resolved(names: Names, ty: Type) -> ResolvedType
    decreases ty,
{
    match ty {
        Type::Path { qself, path } => if qself is Some {
            ResolvedType::Surface(Rc::new(ty))
        } else {
            match path_scalar(names, path) {
                Some(scalar) => ResolvedType::Scalar(scalar),
                None => ResolvedType::Adt { path },
            }
        },
        Type::Reference { lifetime: _, mutable, elem } => ResolvedType::Reference {
            mutable,
            elem: Rc::new(resolved(names, *elem)),
        },
        Type::Ptr { mutable, elem } => ResolvedType::Pointer {
            mutable,
            elem: Rc::new(resolved(names, *elem)),
        },
        Type::Tuple(elems) => if elems is Nil {
            ResolvedType::Unit
        } else {
            ResolvedType::Tuple(resolved_list(names, elems))
        },
        Type::Array { elem, len } => ResolvedType::Array {
            elem: Rc::new(resolved(names, *elem)),
            len,
        },
        Type::Slice(elem) => ResolvedType::Slice(Rc::new(resolved(names, *elem))),
        Type::Never => ResolvedType::Never,
        _ => ResolvedType::Surface(Rc::new(ty)),
    }
}

pub open spec fn resolved_list(names: Names, types: List<Type>) -> List<ResolvedType>
    decreases types,
{
    match types {
        List::Nil => List::Nil,
        List::Cons(ty, rest) => List::Cons(
            Rc::new(resolved(names, *ty)),
            Rc::new(resolved_list(names, *rest)),
        ),
    }
}

/// The type that a resolved form stands for.
pub open spec fn surface(ty: ResolvedType) -> Type
    decreases ty,
{
    match ty {
        ResolvedType::Scalar(scalar) => scalar::named_type(scalar::scalar_symbol(scalar)),
        ResolvedType::Adt { path } => Type::Path { qself: None, path },
        ResolvedType::Reference { mutable, elem } => Type::Reference {
            lifetime: None,
            mutable,
            elem: Rc::new(surface(*elem)),
        },
        ResolvedType::Pointer { mutable, elem } => Type::Ptr {
            mutable,
            elem: Rc::new(surface(*elem)),
        },
        ResolvedType::Tuple(elems) => Type::Tuple(surface_list(elems)),
        ResolvedType::Array { elem, len } => Type::Array { elem: Rc::new(surface(*elem)), len },
        ResolvedType::Slice(elem) => Type::Slice(Rc::new(surface(*elem))),
        ResolvedType::Unit => Type::Tuple(List::Nil),
        ResolvedType::Never => Type::Never,
        ResolvedType::Surface(ty) => *ty,
    }
}

pub open spec fn surface_list(types: List<ResolvedType>) -> List<Type>
    decreases types,
{
    match types {
        List::Nil => List::Nil,
        List::Cons(ty, rest) => List::Cons(
            Rc::new(surface(*ty)),
            Rc::new(surface_list(*rest)),
        ),
    }
}

pub(crate) fn dup_segments(path: &Path) -> (r: Path)
    ensures
        r == *path,
{
    Path { global: path.global, segments: path.segments.dup() }
}

impl ResolvedType {
    pub fn from_syn_type(names: &Names, ty: &Rc<Type>) -> (r: ResolvedType)
        ensures
            r == resolved(*names, **ty),
        decreases ty,
    {
        match &**ty {
            Type::Path { qself, path } => {
                if qself.is_some() {
                    return ResolvedType::Surface(share(ty));
                }
                if let List::Cons(segment, rest) = &path.segments {
                    if rest.is_empty() {
                        if let PathArgs::Bare = segment.args {
                            if let Some(scalar) = ResolvedScalarType::from_ident(
                                names.text(segment.ident),
                            ) {
                                return ResolvedType::Scalar(scalar);
                            }
                        }
                    }
                }
                ResolvedType::Adt { path: dup_segments(path) }
            },
            Type::Reference { lifetime: _, mutable, elem } => ResolvedType::Reference {
                mutable: *mutable,
                elem: Rc::new(Self::from_syn_type(names, elem)),
            },
            Type::Ptr { mutable, elem } => ResolvedType::Pointer {
                mutable: *mutable,
                elem: Rc::new(Self::from_syn_type(names, elem)),
            },
            Type::Tuple(elems) => {
                if elems.is_empty() {
                    ResolvedType::Unit
                } else {
                    ResolvedType::Tuple(Self::from_syn_types(names, elems))
                }
            },
            Type::Array { elem, len } => ResolvedType::Array {
                elem: Rc::new(Self::from_syn_type(names, elem)),
                len: share(len),
            },
            Type::Slice(elem) => ResolvedType::Slice(Rc::new(Self::from_syn_type(names, elem))),
            Type::Never => ResolvedType::Never,
            _ => ResolvedType::Surface(share(ty)),
        }
    }

    fn from_syn_types(names: &Names, types: &List<Type>) -> (r: List<ResolvedType>)
        ensures
            r == resolved_list(*names, *types),
        decreases types,
    {
        match types {
            List::Nil => List::Nil,
            List::Cons(ty, rest) => List::Cons(
                Rc::new(Self::from_syn_type(names, ty)),
                Rc::new(Self::from_syn_types(names, rest)),
            ),
        }
    }

    pub fn to_syn_type(&self) -> (r: Rc<Type>)
        ensures
            *r == surface(*self),
        decreases self,
    {
        match self {
            ResolvedType::Scalar(scalar) => scalar.to_syn_type(),
            ResolvedType::Adt { path } => Rc::new(
                Type::Path { qself: None, path: dup_segments(path) },
            ),
            ResolvedType::Reference { mutable, elem } => Rc::new(
                Type::Reference { lifetime: None, mutable: *mutable, elem: elem.to_syn_type() },
            ),
            ResolvedType::Pointer { mutable, elem } => Rc::new(
                Type::Ptr { mutable: *mutable, elem: elem.to_syn_type() },
            ),
            ResolvedType::Tuple(elems) => Rc::new(Type::Tuple(Self::to_syn_types(elems))),
            ResolvedType::Array { elem, len } => Rc::new(
                Type::Array { elem: elem.to_syn_type(), len: share(len) },
            ),
            ResolvedType::Slice(elem) => Rc::new(Type::Slice(elem.to_syn_type())),
            ResolvedType::Unit => Rc::new(Type::Tuple(List::Nil)),
            ResolvedType::Never => Rc::new(Type::Never),
            ResolvedType::Surface(ty) => share(ty),
        }
    }

    fn to_syn_types(types: &List<ResolvedType>) -> (r: List<Type>)
        ensures
            r == surface_list(*types),
        decreases types,
    {
        match types {
            List::Nil => List::Nil,
            List::Cons(ty, rest) => List::Cons(
                ty.to_syn_type(),
                Rc::new(Self::to_syn_types(rest)),
            ),
        }
    }
}

/// Whether resolving a type loses nothing: no reference in it that is looked through has a
/// lifetime, and no scalar in it is written as `::i32` or under a name that is not the table's own.
pub open spec fn resolves_without_loss(names: Names, ty: Type) -> bool
    decreases ty,
{
    match ty {
        Type::Path { qself, path } => qself is Some || (match path_scalar(names, path) {
            Some(scalar) => !path.global && path.segments->Cons_0.ident == scalar::scalar_symbol(scalar),
            None => true,
        }),
        Type::Reference { lifetime, mutable: _, elem } => lifetime is None
            && resolves_without_loss(names, *elem),
        Type::Ptr { mutable: _, elem } => resolves_without_loss(names, *elem),
        Type::Tuple(elems) => all_resolve_without_loss(names, elems),
        Type::Array { elem, len: _ } => resolves_without_loss(names, *elem),
        Type::Slice(elem) => resolves_without_loss(names, *elem),
        _ => true,
    }
}

pub open spec fn all_resolve_without_loss(names: Names, types: List<Type>) -> bool
    decreases types,
{
    match types {
        List::Nil => true,
        List::Cons(ty, rest) => resolves_without_loss(names, *ty) && all_resolve_without_loss(
            names,
            *rest,
        ),
    }
}

/// A type that resolves without loss is given back by its resolved form.
pub proof fn resolved_type_round_trips(names: Names, ty: Type)
    requires
        resolves_without_loss(names, ty),
    ensures
        surface(resolved(names, ty)) == ty,
    decreases ty,
{
    match ty {
        Type::Reference { lifetime: _, mutable: _, elem } => resolved_type_round_trips(
            names,
            list::held(&elem),
        ),
        Type::Ptr { mutable: _, elem } => resolved_type_round_trips(names, list::held(&elem)),
        Type::Tuple(elems) => resolved_types_round_trip(names, elems),
        Type::Array { elem, len: _ } => resolved_type_round_trips(names, list::held(&elem)),
        Type::Slice(elem) => resolved_type_round_trips(names, list::held(&elem)),
        Type::Path { qself, path } => {
            if qself is None {
                if let Some(scalar) = path_scalar(names, path) {
                    let segment = path.segments->Cons_0;
                    assert(*segment == Segment { ident: scalar::scalar_symbol(scalar), args: PathArgs::Bare });
                }
            }
        },
        _ => {},
    }
}

proof fn resolved_types_round_trip(names: Names, types: List<Type>)
    requires
        all_resolve_without_loss(names, types),
    ensures
        surface_list(resolved_list(names, types)) == types,
    decreases types,
{
    if let List::Cons(ty, rest) = types {
        resolved_type_round_trips(names, list::held(&ty));
        resolved_types_round_trip(names, list::held(&rest));
    }
}

/// Resolving what a resolved form stands for gives that form again.
pub proof fn resolving_twice_is_resolving_once(names: Names, ty: Type)
    requires
        names.wf(),
    ensures
        resolved(names, surface(resolved(names, ty))) == resolved(names, ty),
    decreases ty,
{
    match ty {
        Type::Path { qself, path } => {
            if qself is None {
                if let Some(scalar) = path_scalar(names, path) {
                    scalar::scalar_name_reads_back(names, scalar);
                }
            }
        },
        Type::Reference { lifetime: _, mutable: _, elem } => resolving_twice_is_resolving_once(
            names,
            list::held(&elem),
        ),
        Type::Ptr { mutable: _, elem } => resolving_twice_is_resolving_once(names, list::held(&elem)),
        Type::Tuple(elems) => resolving_all_twice_is_resolving_once(names, elems),
        Type::Array { elem, len: _ } => resolving_twice_is_resolving_once(names, list::held(&elem)),
        Type::Slice(elem) => resolving_twice_is_resolving_once(names, list::held(&elem)),
        _ => {},
    }
}

proof fn resolving_all_twice_is_resolving_once(names: Names, types: List<Type>)
    requires
        names.wf(),
    ensures
        resolved_list(names, surface_list(resolved_list(names, types))) == resolved_list(
            names,
            types,
        ),
    decreases types,
{
    if let List::Cons(ty, rest) = types {
        resolving_twice_is_resolving_once(names, list::held(&ty));
        resolving_all_twice_is_resolving_once(names, list::held(&rest));
    }
}

} // verus!

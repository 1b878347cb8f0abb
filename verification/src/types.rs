//! What a type says by its form alone, and types that are made from others.
use crate::env::{self, find_array, GenericVars, JitError};
use crate::exprs::{
    self, braced, count_literal, dim_literals, global_const_shape_expr, path_last_name,
    path_single_name, rank_from_const_shape_expr,
};
use crate::list::{self, share, List};
use crate::names::{self, Names};
use crate::resolved::dup_segments;
use crate::scalar::{self, ResolvedScalarType};
use crate::syntax::{Bound, Expr, ExprKind, GenericArg, Path, PathArgs, Segment, Symbol, Type};
use std::rc::Rc;
use vstd::prelude::*;

verus! {

/// A pointer to an optional value.
pub open spec fn shared<T>(value: Option<T>) -> Option<Rc<T>> {
    match value {
        Some(value) => Some(Rc::new(value)),
        None => None,
    }
}

// Names of types.

/// The name that a type's path ends in, below parentheses and references.
pub open spec fn path_name_of(ty: Type) -> Option<Symbol>
    decreases ty,
{
    match ty {
        Type::Path { qself, path } => if qself is None {
            exprs::last_name(path)
        } else {
            None
        },
        Type::Paren(elem) => path_name_of(*elem),
        Type::Reference { lifetime: _, mutable: _, elem } => path_name_of(*elem),
        _ => None,
    }
}

pub fn type_path_ident(ty: &Type) -> (r: Option<Symbol>)
    ensures
        r == path_name_of(*ty),
    decreases ty,
{
    match ty {
        Type::Path { qself, path } => {
            if qself.is_none() {
                path_last_name(path)
            } else {
                None
            }
        },
        Type::Paren(elem) => type_path_ident(elem),
        Type::Reference { lifetime: _, mutable: _, elem } => type_path_ident(elem),
        _ => None,
    }
}

/// The name that a type is: a path of one segment, without arguments.
pub open spec fn bare_name(ty: Type) -> Option<Symbol> {
    match ty {
        Type::Path { qself, path } => match path.segments {
            List::Cons(segment, rest) => if qself is None && *rest is Nil && segment.args is Bare {
                Some(segment.ident)
            } else {
                None
            },
            List::Nil => None,
        },
        _ => None,
    }
}

pub fn bare_type_path_name(ty: &Type) -> (r: Option<Symbol>)
    ensures
        r == bare_name(*ty),
{
    match ty {
        Type::Path { qself, path } => match &path.segments {
            List::Cons(segment, rest) => {
                if qself.is_none() && rest.is_empty() && matches!(segment.args, PathArgs::Bare) {
                    Some(segment.ident)
                } else {
                    None
                }
            },
            List::Nil => None,
        },
        _ => None,
    }
}

/// The name that a type is, where it may be that of a scalar.
pub fn scalar_type_name(ty: &Type) -> (r: Option<Symbol>)
    ensures
        r == bare_name(*ty),
{
    bare_type_path_name(ty)
}

/// Whether a type is the name of a scalar.
pub open spec fn is_scalar(names: Names, ty: Type) -> bool {
    match bare_name(ty) {
        Some(name) => scalar::scalar_named(names.text_of(name)) is Some,
        None => false,
    }
}

/// The type itself, where it is the name of a scalar.
pub fn concrete_scalar_param_type(names: &Names, ty: &Rc<Type>) -> (r: Option<Rc<Type>>)
    ensures
        r == (if is_scalar(*names, **ty) {
            Some(*ty)
        } else {
            None::<Rc<Type>>
        }),
{
    match bare_type_path_name(ty) {
        Some(name) => match ResolvedScalarType::from_ident(names.text(name)) {
            Some(_) => Some(share(ty)),
            None => None,
        },
        None => None,
    }
}

/// Whether a type is a scalar that only occurs on the surface: `isize` or `usize`.
pub open spec fn surface_only(ty: Type) -> bool {
    bare_name(ty) == Some(names::ISIZE) || bare_name(ty) == Some(names::USIZE)
}

pub fn is_surface_only_scalar_type(ty: &Type) -> (r: bool)
    ensures
        r == surface_only(*ty),
{
    match scalar_type_name(ty) {
        Some(name) => name == names::ISIZE || name == names::USIZE,
        None => false,
    }
}

// Parts of types.

/// The types of a tuple's items.
pub open spec fn tuple_items(ty: Type) -> Option<List<Type>>
    decreases ty,
{
    match ty {
        Type::Tuple(elems) => Some(elems),
        Type::Paren(elem) => tuple_items(*elem),
        _ => None,
    }
}

pub fn tuple_element_syn_types(ty: &Type) -> (r: Option<List<Type>>)
    ensures
        r == tuple_items(*ty),
    decreases ty,
{
    match ty {
        Type::Tuple(elems) => Some(elems.dup()),
        Type::Paren(elem) => tuple_element_syn_types(elem),
        _ => None,
    }
}

/// The type of an array's or a slice's items.
pub open spec fn item_type(ty: Type) -> Option<Type>
    decreases ty,
{
    match ty {
        Type::Array { elem, len: _ } => Some(*elem),
        Type::Slice(elem) => Some(*elem),
        Type::Reference { lifetime: _, mutable: _, elem } => item_type(*elem),
        Type::Paren(elem) => item_type(*elem),
        _ => None,
    }
}

pub fn array_or_slice_element_syn_type(ty: &Type) -> (r: Option<Rc<Type>>)
    ensures
        r == shared(item_type(*ty)),
    decreases ty,
{
    match ty {
        Type::Array { elem, len: _ } => Some(share(elem)),
        Type::Slice(elem) => Some(share(elem)),
        Type::Reference { lifetime: _, mutable: _, elem } => array_or_slice_element_syn_type(elem),
        Type::Paren(elem) => array_or_slice_element_syn_type(elem),
        _ => None,
    }
}

/// The arguments in angle brackets at the end of a type's path.
pub open spec fn angle_args(path: Path) -> Option<List<GenericArg>> {
    match path.segments.end() {
        Some(segment) => match segment.args {
            PathArgs::Angle(args) => Some(args),
            _ => None,
        },
        None => None,
    }
}

pub(crate) fn path_angle_args(path: &Path) -> (r: Option<List<GenericArg>>)
    ensures
        r == angle_args(*path),
{
    match path.segments.last() {
        Some(segment) => match &segment.args {
            PathArgs::Angle(args) => Some(args.dup()),
            _ => None,
        },
        None => None,
    }
}

/// The types among generic arguments.
pub open spec fn type_args(args: List<GenericArg>) -> List<Type>
    decreases args,
{
    match args {
        List::Nil => List::Nil,
        List::Cons(arg, rest) => match *arg {
            GenericArg::Type(ty) => List::Cons(ty, Rc::new(type_args(*rest))),
            _ => type_args(*rest),
        },
    }
}

fn generic_types(args: &List<GenericArg>) -> (r: List<Type>)
    ensures
        r == type_args(*args),
    decreases args,
{
    match args {
        List::Nil => List::Nil,
        List::Cons(arg, rest) => match &**arg {
            GenericArg::Type(ty) => List::prepend(share(ty), generic_types(rest)),
            _ => generic_types(rest),
        },
    }
}

/// The one item of a list of one.
pub open spec fn sole<T>(list: List<T>) -> Option<T> {
    match list {
        List::Cons(item, rest) => if *rest is Nil {
            Some(*item)
        } else {
            None
        },
        List::Nil => None,
    }
}

/// The one type of a list of one.
pub fn single_syn_type(types: &List<Type>) -> (r: Option<Rc<Type>>)
    ensures
        r == shared(sole(*types)),
{
    match types {
        List::Cons(item, rest) => {
            if rest.is_empty() {
                Some(share(item))
            } else {
                None
            }
        },
        List::Nil => None,
    }
}

/// The one type argument of a segment of the given name.
pub open spec fn payload(segment: Segment, name: Symbol) -> Option<Type> {
    if segment.ident == name {
        match segment.args {
            PathArgs::Angle(args) => sole(type_args(args)),
            _ => None,
        }
    } else {
        None
    }
}

fn segment_payload(segment: &Segment, name: Symbol) -> (r: Option<Rc<Type>>)
    ensures
        r == shared(payload(*segment, name)),
{
    if segment.ident == name {
        match &segment.args {
            PathArgs::Angle(args) => single_syn_type(&generic_types(args)),
            _ => None,
        }
    } else {
        None
    }
}

/// The type that an `Option` holds.
pub open spec fn option_payload(ty: Type) -> Option<Type> {
    match ty {
        Type::Path { qself, path } => match path.segments.end() {
            Some(segment) => if qself is None {
                payload(segment, names::OPTION)
            } else {
                None
            },
            None => None,
        },
        _ => None,
    }
}

pub fn option_payload_syn_type(ty: &Type) -> (r: Option<Rc<Type>>)
    ensures
        r == shared(option_payload(*ty)),
{
    match ty {
        Type::Path { qself, path } => match path.segments.last() {
            Some(segment) => {
                if qself.is_none() {
                    segment_payload(&segment, names::OPTION)
                } else {
                    None
                }
            },
            None => None,
        },
        _ => None,
    }
}

/// A type under a name with arguments.
pub open spec fn applied_type(name: Symbol, args: List<GenericArg>) -> Type {
    Type::Path {
        qself: None,
        path: Path {
            global: false,
            segments: List::Cons(
                Rc::new(Segment { ident: name, args: PathArgs::Angle(args) }),
                Rc::new(List::Nil),
            ),
        },
    }
}

pub fn apply_type(name: Symbol, args: List<GenericArg>) -> (r: Rc<Type>)
    ensures
        *r == applied_type(name, args),
{
    Rc::new(
        Type::Path {
            qself: None,
            path: Path {
                global: false,
                segments: List::one(
                    Rc::new(Segment { ident: name, args: PathArgs::Angle(args) }),
                ),
            },
        },
    )
}

/// `Option<ty>`
pub open spec fn option_of(ty: Type) -> Type {
    applied_type(
        names::OPTION,
        List::Cons(Rc::new(GenericArg::Type(Rc::new(ty))), Rc::new(List::Nil)),
    )
}

pub fn option_type(ty: Rc<Type>) -> (r: Rc<Type>)
    ensures
        *r == option_of(*ty),
{
    apply_type(names::OPTION, List::one(Rc::new(GenericArg::Type(ty))))
}

/// An `Option` holds the type that it was made with.
pub proof fn option_holds_its_payload(ty: Type)
    ensures
        option_payload(option_of(ty)) == Some(ty),
{
    let arg = Rc::new(GenericArg::Type(Rc::new(ty)));
    let args = List::Cons(arg, Rc::new(List::<GenericArg>::Nil));
    let segment = Segment { ident: names::OPTION, args: PathArgs::Angle(args) };
    let segments = List::Cons(Rc::new(segment), Rc::new(List::<Segment>::Nil));
    assert(List::<Segment>::Nil@ == Seq::<Segment>::empty());
    assert(segments@ =~= seq![segment]);
    reveal_with_fuel(type_args, 2);
}

/// The type of `None::<ty>`.
pub open spec fn explicit_none(qself_free: bool, path: Path) -> Option<Type> {
    match path.segments {
        List::Cons(segment, rest) => if qself_free && *rest is Nil {
            match payload(*segment, names::NO_VALUE) {
                Some(ty) => Some(option_of(ty)),
                None => None,
            }
        } else {
            None
        },
        List::Nil => None,
    }
}

pub fn explicit_none_option_syn_type(qself_free: bool, path: &Path) -> (r: Option<Rc<Type>>)
    ensures
        r == shared(explicit_none(qself_free, *path)),
{
    match &path.segments {
        List::Cons(segment, rest) => {
            if qself_free && rest.is_empty() {
                match segment_payload(segment, names::NO_VALUE) {
                    Some(ty) => Some(option_type(ty)),
                    None => None,
                }
            } else {
                None
            }
        },
        List::Nil => None,
    }
}

// Statics in global memory.

/// The first type among generic arguments.
pub open spec fn first_type(args: List<GenericArg>) -> Option<Type> {
    match type_args(args) {
        List::Cons(ty, _) => Some(*ty),
        List::Nil => None,
    }
}

/// The element type of a static.
pub open spec fn static_element(ty: Type) -> Option<Type> {
    match ty {
        Type::Path { qself: _, path } => match angle_args(path) {
            Some(args) => first_type(args),
            None => None,
        },
        _ => None,
    }
}

pub fn global_element_type(ty: &Type) -> (r: Option<Rc<Type>>)
    ensures
        r == shared(static_element(*ty)),
{
    match ty {
        Type::Path { qself: _, path } => match path_angle_args(path) {
            Some(args) => match generic_types(&args) {
                List::Cons(ty, _) => Some(ty),
                List::Nil => None,
            },
            None => None,
        },
        _ => None,
    }
}

/// The shape that the first constant argument that lists one lists.
pub open spec fn first_shape(args: List<GenericArg>) -> Result<Option<List<i32>>, JitError>
    decreases args,
{
    match args {
        List::Nil => Ok(None),
        List::Cons(arg, rest) => match *arg {
            GenericArg::Const(expr) => match exprs::static_shape(*expr) {
                Ok(Some(shape)) => Ok(Some(shape)),
                Ok(None) => first_shape(*rest),
                Err(error) => Err(error),
            },
            _ => first_shape(*rest),
        },
    }
}

fn find_shape(args: &List<GenericArg>) -> (r: Result<Option<List<i32>>, JitError>)
    ensures
        r == first_shape(*args),
    decreases args,
{
    match args {
        List::Nil => Ok(None),
        List::Cons(arg, rest) => match &**arg {
            GenericArg::Const(expr) => match global_const_shape_expr(expr) {
                Ok(Some(shape)) => Ok(Some(shape)),
                Ok(None) => find_shape(rest),
                Err(error) => Err(error),
            },
            _ => find_shape(rest),
        },
    }
}

/// The shape of a static.
pub open spec fn static_type_shape(ty: Type) -> Result<Option<List<i32>>, JitError> {
    match ty {
        Type::Path { qself: _, path } => match angle_args(path) {
            Some(args) => first_shape(args),
            None => Ok(None),
        },
        _ => Ok(None),
    }
}

pub fn global_shape(ty: &Type) -> (r: Result<Option<List<i32>>, JitError>)
    ensures
        r == static_type_shape(*ty),
{
    match ty {
        Type::Path { qself: _, path } => match path_angle_args(path) {
            Some(args) => find_shape(&args),
            None => Ok(None),
        },
        _ => Ok(None),
    }
}

/// `Name<{ [dims] }>`
pub open spec fn shaped_type(name: Symbol, dims: List<Expr>) -> Type {
    applied_type(
        name,
        List::Cons(
            Rc::new(GenericArg::Const(Rc::new(exprs::braced_array(dims)))),
            Rc::new(List::Nil),
        ),
    )
}

pub fn shape_type(name: Symbol, dims: List<Expr>) -> (r: Rc<Type>)
    ensures
        *r == shaped_type(name, dims),
{
    apply_type(name, List::one(Rc::new(GenericArg::Const(braced(dims)))))
}

/// `Tile<element, { [shape] }>`
pub open spec fn tile_of(element: Type, shape: List<i32>) -> Type {
    applied_type(
        names::TILE,
        List::Cons(
            Rc::new(GenericArg::Type(Rc::new(element))),
            Rc::new(
                List::Cons(
                    Rc::new(GenericArg::Const(Rc::new(exprs::braced_array(exprs::dim_exprs(shape))))),
                    Rc::new(List::Nil),
                ),
            ),
        ),
    )
}

pub fn global_tile_syn_type(element: &Rc<Type>, shape: &List<i32>) -> (r: Rc<Type>)
    ensures
        *r == tile_of(**element, *shape),
{
    apply_type(
        names::TILE,
        List::prepend(
            Rc::new(GenericArg::Type(share(element))),
            List::one(Rc::new(GenericArg::Const(braced(dim_literals(shape))))),
        ),
    )
}

/// A static's element type and shape are those of the tile that is made of them.
pub proof fn tile_keeps_element_and_shape(element: Type, shape: List<i32>)
    requires
        forall|i: int| 0 <= i < shape@.len() ==> #[trigger] shape@[i] > i32::MIN,
    ensures
        static_element(tile_of(element, shape)) == Some(element),
        static_type_shape(tile_of(element, shape)) == Ok::<Option<List<i32>>, JitError>(Some(shape)),
{
    exprs::written_shape_reads_back(shape);
    reveal_with_fuel(first_shape, 3);
    reveal_with_fuel(type_args, 3);
    let dims = exprs::braced_array(exprs::dim_exprs(shape));
    let args = List::Cons(
        Rc::new(GenericArg::Type(Rc::new(element))),
        Rc::new(
            List::Cons(Rc::new(GenericArg::Const(Rc::new(dims))), Rc::new(List::<GenericArg>::Nil)),
        ),
    );
    let segment = Segment { ident: names::TILE, args: PathArgs::Angle(args) };
    let segments = List::Cons(Rc::new(segment), Rc::new(List::<Segment>::Nil));
    assert(List::<Segment>::Nil@ == Seq::<Segment>::empty());
    assert(segments@ =~= seq![segment]);
}

// Types made from types.

/// The type with every `Self` that is looked through to replaced.
pub open spec fn with_self(ty: Type, self_ty: Type) -> Type
    decreases ty,
{
    match ty {
        Type::Path { qself, path } => if qself is None && exprs::single_name(path) == Some(
            names::SELF_TYPE,
        ) {
            self_ty
        } else {
            ty
        },
        Type::Reference { lifetime, mutable, elem } => Type::Reference {
            lifetime,
            mutable,
            elem: Rc::new(with_self(*elem, self_ty)),
        },
        Type::Ptr { mutable, elem } => Type::Ptr {
            mutable,
            elem: Rc::new(with_self(*elem, self_ty)),
        },
        Type::Tuple(elems) => Type::Tuple(all_with_self(elems, self_ty)),
        Type::Array { elem, len } => Type::Array { elem: Rc::new(with_self(*elem, self_ty)), len },
        Type::Slice(elem) => Type::Slice(Rc::new(with_self(*elem, self_ty))),
        Type::Paren(elem) => Type::Paren(Rc::new(with_self(*elem, self_ty))),
        Type::Group(elem) => Type::Group(Rc::new(with_self(*elem, self_ty))),
        _ => ty,
    }
}

pub open spec fn all_with_self(types: List<Type>, self_ty: Type) -> List<Type>
    decreases types,
{
    match types {
        List::Nil => List::Nil,
        List::Cons(ty, rest) => List::Cons(
            Rc::new(with_self(*ty, self_ty)),
            Rc::new(all_with_self(*rest, self_ty)),
        ),
    }
}

pub fn substitute_self_type(ty: &Rc<Type>, self_ty: &Rc<Type>) -> (r: Rc<Type>)
    ensures
        *r == with_self(**ty, **self_ty),
    decreases ty,
{
    match &**ty {
        Type::Path { qself, path } => {
            if qself.is_none() {
                if let Some(name) = path_single_name(path) {
                    if name == names::SELF_TYPE {
                        return share(self_ty);
                    }
                }
            }
            share(ty)
        },
        Type::Reference { lifetime, mutable, elem } => Rc::new(
            Type::Reference {
                lifetime: *lifetime,
                mutable: *mutable,
                elem: substitute_self_type(elem, self_ty),
            },
        ),
        Type::Ptr { mutable, elem } => Rc::new(
            Type::Ptr { mutable: *mutable, elem: substitute_self_type(elem, self_ty) },
        ),
        Type::Tuple(elems) => Rc::new(Type::Tuple(substitute_self_types(elems, self_ty))),
        Type::Array { elem, len } => Rc::new(
            Type::Array { elem: substitute_self_type(elem, self_ty), len: share(len) },
        ),
        Type::Slice(elem) => Rc::new(Type::Slice(substitute_self_type(elem, self_ty))),
        Type::Paren(elem) => Rc::new(Type::Paren(substitute_self_type(elem, self_ty))),
        Type::Group(elem) => Rc::new(Type::Group(substitute_self_type(elem, self_ty))),
        _ => share(ty),
    }
}

fn substitute_self_types(types: &List<Type>, self_ty: &Rc<Type>) -> (r: List<Type>)
    ensures
        r == all_with_self(*types, **self_ty),
    decreases types,
{
    match types {
        List::Nil => List::Nil,
        List::Cons(ty, rest) => List::prepend(
            substitute_self_type(ty, self_ty),
            substitute_self_types(rest, self_ty),
        ),
    }
}

/// Replacing `Self` a second time changes nothing more, where the type put in for it names no
/// `Self` of its own.
pub proof fn self_is_replaced_once(ty: Type, self_ty: Type)
    requires
        with_self(self_ty, self_ty) == self_ty,
    ensures
        with_self(with_self(ty, self_ty), self_ty) == with_self(ty, self_ty),
    decreases ty,
{
    match ty {
        Type::Reference { lifetime: _, mutable: _, elem } => self_is_replaced_once(
            list::held(&elem),
            self_ty,
        ),
        Type::Ptr { mutable: _, elem } => self_is_replaced_once(list::held(&elem), self_ty),
        Type::Tuple(elems) => all_self_is_replaced_once(elems, self_ty),
        Type::Array { elem, len: _ } => self_is_replaced_once(list::held(&elem), self_ty),
        Type::Slice(elem) => self_is_replaced_once(list::held(&elem), self_ty),
        Type::Paren(elem) => self_is_replaced_once(list::held(&elem), self_ty),
        Type::Group(elem) => self_is_replaced_once(list::held(&elem), self_ty),
        _ => {},
    }
}

proof fn all_self_is_replaced_once(types: List<Type>, self_ty: Type)
    requires
        with_self(self_ty, self_ty) == self_ty,
    ensures
        all_with_self(all_with_self(types, self_ty), self_ty) == all_with_self(types, self_ty),
    decreases types,
{
    if let List::Cons(ty, rest) = types {
        self_is_replaced_once(list::held(&ty), self_ty);
        all_self_is_replaced_once(list::held(&rest), self_ty);
    }
}

/// The type with the lengths of arrays that are paths replaced by a number.
pub open spec fn with_rank(ty: Type, rank: usize) -> Type
    decreases ty,
{
    match ty {
        Type::Array { elem, len } => if len.kind is Path {
            Type::Array { elem, len: Rc::new(exprs::count_expr(rank)) }
        } else {
            ty
        },
        Type::Reference { lifetime, mutable, elem } => Type::Reference {
            lifetime,
            mutable,
            elem: Rc::new(with_rank(*elem, rank)),
        },
        Type::Tuple(elems) => Type::Tuple(all_with_rank(elems, rank)),
        _ => ty,
    }
}

pub open spec fn all_with_rank(types: List<Type>, rank: usize) -> List<Type>
    decreases types,
{
    match types {
        List::Nil => List::Nil,
        List::Cons(ty, rest) => List::Cons(
            Rc::new(with_rank(*ty, rank)),
            Rc::new(all_with_rank(*rest, rank)),
        ),
    }
}

pub fn replace_array_len_with_rank(ty: &Rc<Type>, rank: usize) -> (r: Rc<Type>)
    ensures
        *r == with_rank(**ty, rank),
    decreases ty,
{
    match &**ty {
        Type::Array { elem, len } => {
            if matches!(len.kind, ExprKind::Path { qself: _, path: _ }) {
                Rc::new(Type::Array { elem: share(elem), len: count_literal(rank) })
            } else {
                share(ty)
            }
        },
        Type::Reference { lifetime, mutable, elem } => Rc::new(
            Type::Reference {
                lifetime: *lifetime,
                mutable: *mutable,
                elem: replace_array_len_with_rank(elem, rank),
            },
        ),
        Type::Tuple(elems) => Rc::new(Type::Tuple(replace_array_lens_with_rank(elems, rank))),
        _ => share(ty),
    }
}

fn replace_array_lens_with_rank(types: &List<Type>, rank: usize) -> (r: List<Type>)
    ensures
        r == all_with_rank(*types, rank),
    decreases types,
{
    match types {
        List::Nil => List::Nil,
        List::Cons(ty, rest) => List::prepend(
            replace_array_len_with_rank(ty, rank),
            replace_array_lens_with_rank(rest, rank),
        ),
    }
}

/// The number of dimensions that the first argument with a shape gives a type.
pub open spec fn args_rank(vars: GenericVars, args: List<GenericArg>) -> Option<usize>
    decreases args,
{
    match args {
        List::Nil => None,
        List::Cons(arg, rest) => match *arg {
            GenericArg::Const(expr) => match exprs::shape_rank(vars, *expr) {
                Some(rank) => Some(rank),
                None => args_rank(vars, *rest),
            },
            GenericArg::Type(ty) => match *ty {
                Type::Path { qself, path } => if qself is None {
                    match exprs::last_name(path) {
                        Some(name) => match env::array_of(vars.inst_array, name) {
                            Some(shape) => Some(exprs::length(shape)),
                            None => args_rank(vars, *rest),
                        },
                        None => None,
                    }
                } else {
                    args_rank(vars, *rest)
                },
                _ => args_rank(vars, *rest),
            },
            _ => args_rank(vars, *rest),
        },
    }
}

fn rank_from_args(args: &List<GenericArg>, vars: &GenericVars) -> (r: Option<usize>)
    ensures
        r == args_rank(*vars, *args),
    decreases args,
{
    match args {
        List::Nil => None,
        List::Cons(arg, rest) => match &**arg {
            GenericArg::Const(expr) => match rank_from_const_shape_expr(expr, vars) {
                Some(rank) => Some(rank),
                None => rank_from_args(rest, vars),
            },
            GenericArg::Type(ty) => match &**ty {
                Type::Path { qself, path } => {
                    if qself.is_none() {
                        match path_last_name(path) {
                            Some(name) => match find_array(&vars.inst_array, name) {
                                Some(shape) => Some(shape.count()),
                                None => rank_from_args(rest, vars),
                            },
                            None => None,
                        }
                    } else {
                        rank_from_args(rest, vars)
                    }
                },
                _ => rank_from_args(rest, vars),
            },
            _ => rank_from_args(rest, vars),
        },
    }
}

/// The number of dimensions that a type's arguments give it.
pub open spec fn type_rank(vars: GenericVars, ty: Type) -> Option<usize> {
    match ty {
        Type::Path { qself: _, path } => match angle_args(path) {
            Some(args) => args_rank(vars, args),
            None => None,
        },
        _ => None,
    }
}

pub fn rank_from_type_shape_arg(ty: &Type, vars: &GenericVars) -> (r: Option<usize>)
    ensures
        r == type_rank(*vars, *ty),
{
    match ty {
        Type::Path { qself: _, path } => match path_angle_args(path) {
            Some(args) => rank_from_args(&args, vars),
            None => None,
        },
        _ => None,
    }
}

/// A path segment as a type.
pub open spec fn segment_type(segment: Segment) -> Type {
    Type::Path {
        qself: None,
        path: Path { global: false, segments: List::Cons(Rc::new(segment), Rc::new(List::Nil)) },
    }
}

pub fn type_from_path_segment(segment: &Rc<Segment>) -> (r: Rc<Type>)
    ensures
        *r == segment_type(**segment),
{
    Rc::new(
        Type::Path {
            qself: None,
            path: Path { global: false, segments: List::one(share(segment)) },
        },
    )
}

/// A path as a type.
pub fn path_type(path: &Path) -> (r: Rc<Type>)
    ensures
        *r == (Type::Path { qself: None, path: *path }),
{
    Rc::new(Type::Path { qself: None, path: dup_segments(path) })
}

// References.

pub open spec fn reference_to(mutable: bool, ty: Type) -> Type {
    Type::Reference { lifetime: None, mutable, elem: Rc::new(ty) }
}

pub fn make_reference(mutable: bool, ty: Rc<Type>) -> (r: Rc<Type>)
    ensures
        *r == reference_to(mutable, *ty),
{
    Rc::new(Type::Reference { lifetime: None, mutable, elem: ty })
}

/// Whether a type is a mutable reference, below parentheses.
pub open spec fn mut_reference(ty: Type) -> bool
    decreases ty,
{
    match ty {
        Type::Reference { lifetime: _, mutable, elem: _ } => mutable,
        Type::Paren(elem) => mut_reference(*elem),
        Type::Group(elem) => mut_reference(*elem),
        _ => false,
    }
}

pub fn type_is_mut_reference(ty: &Type) -> (r: bool)
    ensures
        r == mut_reference(*ty),
    decreases ty,
{
    match ty {
        Type::Reference { lifetime: _, mutable, elem: _ } => *mutable,
        Type::Paren(elem) => type_is_mut_reference(elem),
        Type::Group(elem) => type_is_mut_reference(elem),
        _ => false,
    }
}

/// A type, then what is left of it as references and parentheses are taken off one by one.
pub open spec fn deref_chain(ty: Type) -> List<Type>
    decreases ty,
{
    List::Cons(
        Rc::new(ty),
        Rc::new(
            match ty {
                Type::Reference { lifetime: _, mutable: _, elem } => deref_chain(*elem),
                Type::Paren(elem) => deref_chain(*elem),
                Type::Group(elem) => deref_chain(*elem),
                _ => List::Nil,
            },
        ),
    )
}

pub fn autoderef_type_chain(ty: &Rc<Type>) -> (r: List<Type>)
    ensures
        r == deref_chain(**ty),
    decreases ty,
{
    let rest = match &**ty {
        Type::Reference { lifetime: _, mutable: _, elem } => autoderef_type_chain(elem),
        Type::Paren(elem) => autoderef_type_chain(elem),
        Type::Group(elem) => autoderef_type_chain(elem),
        _ => List::Nil,
    };
    List::prepend(share(ty), rest)
}

// `impl Trait` and constraints.

/// Whether an `impl Trait` stands in a type.
pub open spec fn mentions_impl(ty: Type) -> bool
    decreases ty,
{
    match ty {
        Type::ImplTrait(_) => true,
        Type::Reference { lifetime: _, mutable: _, elem } => mentions_impl(*elem),
        Type::Tuple(elems) => any_mentions_impl(elems),
        Type::Array { elem, len: _ } => mentions_impl(*elem),
        Type::Ptr { mutable: _, elem } => mentions_impl(*elem),
        Type::Path { qself: _, path } => segments_mention_impl(path.segments),
        _ => false,
    }
}

pub open spec fn any_mentions_impl(types: List<Type>) -> bool
    decreases types,
{
    match types {
        List::Nil => false,
        List::Cons(ty, rest) => mentions_impl(*ty) || any_mentions_impl(*rest),
    }
}

pub open spec fn segments_mention_impl(segments: List<Segment>) -> bool
    decreases segments,
{
    match segments {
        List::Nil => false,
        List::Cons(segment, rest) => (match segment.args {
            PathArgs::Angle(args) => args_mention_impl(args),
            _ => false,
        }) || segments_mention_impl(*rest),
    }
}

pub open spec fn args_mention_impl(args: List<GenericArg>) -> bool
    decreases args,
{
    match args {
        List::Nil => false,
        List::Cons(arg, rest) => (match *arg {
            GenericArg::Type(ty) => mentions_impl(*ty),
            _ => false,
        }) || args_mention_impl(*rest),
    }
}

pub fn type_has_impl_trait(ty: &Type) -> (r: bool)
    ensures
        r == mentions_impl(*ty),
    decreases ty,
{
    match ty {
        Type::ImplTrait(_) => true,
        Type::Reference { lifetime: _, mutable: _, elem } => type_has_impl_trait(elem),
        Type::Tuple(elems) => any_type_has_impl_trait(elems),
        Type::Array { elem, len: _ } => type_has_impl_trait(elem),
        Type::Ptr { mutable: _, elem } => type_has_impl_trait(elem),
        Type::Path { qself: _, path } => segments_have_impl_trait(&path.segments),
        _ => false,
    }
}

pub fn any_type_has_impl_trait(types: &List<Type>) -> (r: bool)
    ensures
        r == any_mentions_impl(*types),
    decreases types,
{
    match types {
        List::Nil => false,
        List::Cons(ty, rest) => type_has_impl_trait(ty) || any_type_has_impl_trait(rest),
    }
}

fn segments_have_impl_trait(segments: &List<Segment>) -> (r: bool)
    ensures
        r == segments_mention_impl(*segments),
    decreases segments,
{
    match segments {
        List::Nil => false,
        List::Cons(segment, rest) => {
            let here = match &segment.args {
                PathArgs::Angle(args) => args_have_impl_trait(args),
                _ => false,
            };
            here || segments_have_impl_trait(rest)
        },
    }
}

fn args_have_impl_trait(args: &List<GenericArg>) -> (r: bool)
    ensures
        r == args_mention_impl(*args),
    decreases args,
{
    match args {
        List::Nil => false,
        List::Cons(arg, rest) => {
            let here = match &**arg {
                GenericArg::Type(ty) => type_has_impl_trait(ty),
                _ => false,
            };
            here || args_have_impl_trait(rest)
        },
    }
}

/// Whether the form of an argument's type allows it to constrain a parameter's type.
pub open spec fn constrains(param: Type, arg: Type) -> bool
    decreases param,
{
    !mentions_impl(param) && match (param, arg) {
        (Type::Path { qself: q1, path: p1 }, Type::Path { qself: q2, path: p2 }) => {
            if q1 is Some || q2 is Some {
                false
            } else {
                segments_constrain(p1.segments, p2)
            }
        },
        (
            Type::Reference { lifetime: _, mutable: _, elem: e1 },
            Type::Reference { lifetime: _, mutable: _, elem: e2 },
        ) => constrains(*e1, *e2),
        (Type::Ptr { mutable: _, elem: e1 }, Type::Ptr { mutable: _, elem: e2 }) => constrains(
            *e1,
            *e2,
        ),
        (Type::Tuple(t1), Type::Tuple(t2)) => all_constrain(t1, t2),
        (Type::Array { elem: e1, len: _ }, Type::Array { elem: e2, len: _ }) => constrains(
            *e1,
            *e2,
        ),
        (Type::Slice(e1), Type::Slice(e2)) => constrains(*e1, *e2),
        _ => true,
    }
}

/// The same of paths, by their last segments.
pub open spec fn segments_constrain(segments: List<Segment>, arg: Path) -> bool
    decreases segments,
{
    match segments {
        List::Nil => false,
        List::Cons(segment, rest) => if *rest is Nil {
            match arg.segments.end() {
                Some(other) => match segment.args {
                    PathArgs::Bare => true,
                    PathArgs::Angle(a1) => match other.args {
                        PathArgs::Angle(a2) => args_constrain(a1, a2),
                        _ => false,
                    },
                    _ => true,
                },
                None => false,
            }
        } else {
            segments_constrain(*rest, arg)
        },
    }
}

/// The same of tuples: as many items, each of which constrains.
pub open spec fn all_constrain(params: List<Type>, args: List<Type>) -> bool
    decreases params,
{
    match (params, args) {
        (List::Nil, List::Nil) => true,
        (List::Cons(p, ps), List::Cons(a, rest)) => constrains(*p, *a) && all_constrain(
            *ps,
            *rest,
        ),
        _ => false,
    }
}

/// The same of generic arguments: as many, each of the same sort.
pub open spec fn args_constrain(params: List<GenericArg>, args: List<GenericArg>) -> bool
    decreases params,
{
    match (params, args) {
        (List::Nil, List::Nil) => true,
        (List::Cons(p, ps), List::Cons(a, rest)) => (match (*p, *a) {
            (GenericArg::Type(t1), GenericArg::Type(t2)) => constrains(*t1, *t2),
            (GenericArg::Const(_), GenericArg::Const(_)) => true,
            (GenericArg::Lifetime(_), GenericArg::Lifetime(_)) => true,
            _ => false,
        }) && args_constrain(*ps, *rest),
        _ => false,
    }
}

pub fn can_add_type_constraint(param: &Type, arg: &Type) -> (r: bool)
    ensures
        r == constrains(*param, *arg),
    decreases param,
{
    if type_has_impl_trait(param) {
        return false;
    }
    match (param, arg) {
        (Type::Path { qself: q1, path: p1 }, Type::Path { qself: q2, path: p2 }) => {
            if q1.is_some() || q2.is_some() {
                false
            } else {
                path_segments_constrain(&p1.segments, p2)
            }
        },
        (
            Type::Reference { lifetime: _, mutable: _, elem: e1 },
            Type::Reference { lifetime: _, mutable: _, elem: e2 },
        ) => can_add_type_constraint(e1, e2),
        (Type::Ptr { mutable: _, elem: e1 }, Type::Ptr { mutable: _, elem: e2 }) => {
            can_add_type_constraint(e1, e2)
        },
        (Type::Tuple(t1), Type::Tuple(t2)) => all_types_constrain(t1, t2),
        (Type::Array { elem: e1, len: _ }, Type::Array { elem: e2, len: _ }) => {
            can_add_type_constraint(e1, e2)
        },
        (Type::Slice(e1), Type::Slice(e2)) => can_add_type_constraint(e1, e2),
        _ => true,
    }
}

fn path_segments_constrain(segments: &List<Segment>, arg: &Path) -> (r: bool)
    ensures
        r == segments_constrain(*segments, *arg),
    decreases segments,
{
    match segments {
        List::Nil => false,
        List::Cons(segment, rest) => {
            if rest.is_empty() {
                match arg.segments.last() {
                    Some(other) => match &segment.args {
                        PathArgs::Bare => true,
                        PathArgs::Angle(a1) => match &other.args {
                            PathArgs::Angle(a2) => generic_arguments_are_compatible(a1, a2),
                            _ => false,
                        },
                        _ => true,
                    },
                    None => false,
                }
            } else {
                path_segments_constrain(rest, arg)
            }
        },
    }
}

fn all_types_constrain(params: &List<Type>, args: &List<Type>) -> (r: bool)
    ensures
        r == all_constrain(*params, *args),
    decreases params,
{
    match (params, args) {
        (List::Nil, List::Nil) => true,
        (List::Cons(p, ps), List::Cons(a, rest)) => can_add_type_constraint(p, a)
            && all_types_constrain(ps, rest),
        _ => false,
    }
}

pub fn generic_arguments_are_compatible(
    params: &List<GenericArg>,
    args: &List<GenericArg>,
) -> (r: bool)
    ensures
        r == args_constrain(*params, *args),
    decreases params,
{
    match (params, args) {
        (List::Nil, List::Nil) => true,
        (List::Cons(p, ps), List::Cons(a, rest)) => {
            let here = match (&**p, &**a) {
                (GenericArg::Type(t1), GenericArg::Type(t2)) => can_add_type_constraint(t1, t2),
                (GenericArg::Const(_), GenericArg::Const(_)) => true,
                (GenericArg::Lifetime(_), GenericArg::Lifetime(_)) => true,
                _ => false,
            };
            here && generic_arguments_are_compatible(ps, rest)
        },
        _ => false,
    }
}

// Bounds.

/// The name of the trait that a bound demands.
pub open spec fn bound_name(bound: Bound) -> Option<Symbol> {
    match bound {
        Bound::Trait(path) => exprs::last_name(path),
        Bound::Other(_) => None,
    }
}

pub fn trait_bound_name(bound: &Bound) -> (r: Option<Symbol>)
    ensures
        r == bound_name(*bound),
{
    match bound {
        Bound::Trait(path) => path_last_name(path),
        Bound::Other(_) => None,
    }
}

} // verus!

//! Binding the names of patterns.
use crate::ask::{self, compile};
use crate::env::{self, find_field, find_fields, Fields, Stop, TileType};
use crate::infer::sound;
use crate::infer::state::{self, Frame, Outcome, StateView, TypeInferenceCx};
use crate::list::{share, List};
use crate::syntax::{FieldPat, Member, Pat, Type};
use crate::types::{
    self, array_or_slice_element_syn_type, tuple_element_syn_types, type_path_ident,
};
use crate::unify::{self, InferredTy};
use std::rc::Rc;
use vstd::prelude::*;

verus! {

broadcast use crate::infer::sound::group_sound;

/// The type of a struct's field.
pub open spec fn member_type(f: Frame, ty: Type, member: Member) -> Option<Type> {
    match types::path_name_of(ty) {
        Some(name) => match env::fields_of(f.env.structs, name) {
            Some(fields) => match (fields, member) {
                (Fields::Named(fields), Member::Named(name)) => env::field_type(fields, name),
                (Fields::Unnamed(types), Member::Unnamed(index)) => types.at(index as int),
                _ => None,
            },
            None => None,
        },
        None => None,
    }
}

/// The types of the fields of a struct without field names.
pub open spec fn unnamed_field_types(f: Frame, ty: Type) -> Option<List<Type>> {
    match types::path_name_of(ty) {
        Some(name) => match env::fields_of(f.env.structs, name) {
            Some(Fields::Unnamed(types)) => Some(types),
            _ => None,
        },
        None => None,
    }
}

/// The names of a pattern bound to a type and, where there is one, to what it compiles to.
pub open spec fn pattern_typed(
    f: Frame,
    s: StateView,
    pat: Pat,
    ty: Rc<Type>,
    tile: Option<Rc<TileType>>,
) -> Outcome<()>
    decreases pat, 0int,
{
    match pat {
        Pat::Ident { name, mutable, subpat } => {
            let s = state::marked(s, name, mutable);
            let s = match tile {
                Some(tile) => state::bound(s, name, tile),
                None => state::bound_as_written(s, name, ty),
            };
            match subpat {
                Some(inner) => pattern_as_written(f, s, *inner, ty),
                None => Ok((s, ())),
            }
        },
        Pat::Type { pat: inner, ty: written } => pattern_as_written(f, s, *inner, written),
        Pat::Paren(inner) => pattern_typed(f, s, *inner, ty, tile),
        Pat::Reference(inner) => match *ty {
            Type::Reference { lifetime: _, mutable: _, elem } => pattern_as_written(
                f,
                s,
                *inner,
                elem,
            ),
            _ => Ok((s, ())),
        },
        Pat::Tuple(pats) => match types::tuple_items(*ty) {
            Some(types) => patterns_typed(f, s, pats, types),
            None => Ok((s, ())),
        },
        Pat::Slice(pats) => match types::item_type(*ty) {
            Some(elem) => items_typed(f, s, pats, Rc::new(elem)),
            None => Ok((s, ())),
        },
        Pat::Struct(fields) => fields_typed(f, s, fields, ty),
        Pat::TupleStruct(pats) => match unnamed_field_types(f, *ty) {
            Some(types) => patterns_typed(f, s, pats, types),
            None => Ok((s, ())),
        },
        Pat::Or(cases) => cases_typed(f, s, cases, ty, tile),
        _ => Ok((s, ())),
    }
}

/// The names of a pattern bound to a type as written, which must compile.
pub open spec fn pattern_as_written(f: Frame, s: StateView, pat: Pat, ty: Rc<Type>) -> Outcome<()>
    decreases pat, 1int,
{
    match ask::compiled(f.env, *ty) {
        Ok(tile) => pattern_typed(f, s, pat, ty, tile),
        Err(stop) => Err(stop),
    }
}

/// Patterns and types, as far as there are both.
pub open spec fn patterns_typed(
    f: Frame,
    s: StateView,
    pats: List<Pat>,
    types: List<Type>,
) -> Outcome<()>
    decreases pats, 0int,
{
    match (pats, types) {
        (List::Cons(pat, pats), List::Cons(ty, types)) => match pattern_as_written(f, s, *pat, ty) {
            Ok((s, _)) => patterns_typed(f, s, *pats, *types),
            Err(stop) => Err(stop),
        },
        _ => Ok((s, ())),
    }
}

/// Patterns for items of one type; `..` takes none.
pub open spec fn items_typed(f: Frame, s: StateView, pats: List<Pat>, ty: Rc<Type>) -> Outcome<()>
    decreases pats, 0int,
{
    match pats {
        List::Nil => Ok((s, ())),
        List::Cons(pat, rest) => if *pat is Rest {
            items_typed(f, s, *rest, ty)
        } else {
            match pattern_as_written(f, s, *pat, ty) {
                Ok((s, _)) => items_typed(f, s, *rest, ty),
                Err(stop) => Err(stop),
            }
        },
    }
}

/// Patterns for fields of a struct; one for a field that is not there binds nothing.
pub open spec fn fields_typed(
    f: Frame,
    s: StateView,
    fields: List<FieldPat>,
    ty: Rc<Type>,
) -> Outcome<()>
    decreases fields, 0int,
{
    match fields {
        List::Nil => Ok((s, ())),
        List::Cons(field, rest) => match member_type(f, *ty, field.member) {
            Some(field_ty) => match pattern_as_written(f, s, *field.pat, Rc::new(field_ty)) {
                Ok((s, _)) => fields_typed(f, s, *rest, ty),
                Err(stop) => Err(stop),
            },
            None => fields_typed(f, s, *rest, ty),
        },
    }
}

pub open spec fn cases_typed(
    f: Frame,
    s: StateView,
    cases: List<Pat>,
    ty: Rc<Type>,
    tile: Option<Rc<TileType>>,
) -> Outcome<()>
    decreases cases, 0int,
{
    match cases {
        List::Nil => Ok((s, ())),
        List::Cons(pat, rest) => match pattern_typed(f, s, *pat, ty, tile) {
            Ok((s, _)) => cases_typed(f, s, *rest, ty, tile),
            Err(stop) => Err(stop),
        },
    }
}

/// The names of a pattern bound to a compiled type.
pub open spec fn pattern_compiled(
    f: Frame,
    s: StateView,
    pat: Pat,
    ty: Rc<TileType>,
) -> Outcome<()> {
    pattern_typed(f, s, pat, ty.rust_ty, Some(ty))
}

/// The names of a pattern bound to a term.
pub open spec fn pattern_termed(f: Frame, s: StateView, pat: Pat, term: InferredTy) -> Outcome<()>
    decreases pat,
{
    match pat {
        Pat::Ident { name, mutable, subpat } => {
            let s = state::bound_to_term(state::marked(s, name, mutable), name, term);
            match subpat {
                Some(inner) => pattern_termed(f, s, *inner, term),
                None => Ok((s, ())),
            }
        },
        Pat::Type { pat: inner, ty } => match ask::compiled(f.env, *ty) {
            Ok(expected) => {
                let s = match expected {
                    Some(expected) => state::unified_with_known(f, s, term, expected).0,
                    None => s,
                };
                pattern_as_written(f, s, *inner, ty)
            },
            Err(stop) => Err(stop),
        },
        Pat::Paren(inner) => pattern_termed(f, s, *inner, term),
        Pat::Or(cases) => cases_termed(f, s, cases, term),
        Pat::Wild => Ok((s, ())),
        Pat::Rest => Ok((s, ())),
        _ => match unify::known_type(s.inference.vars, term) {
            Some(ty) => pattern_compiled(f, s, pat, ty),
            None => Ok((s, ())),
        },
    }
}

pub open spec fn cases_termed(
    f: Frame,
    s: StateView,
    cases: List<Pat>,
    term: InferredTy,
) -> Outcome<()>
    decreases cases,
{
    match cases {
        List::Nil => Ok((s, ())),
        List::Cons(pat, rest) => match pattern_termed(f, s, *pat, term) {
            Ok((s, _)) => cases_termed(f, s, *rest, term),
            Err(stop) => Err(stop),
        },
    }
}

impl<'a> TypeInferenceCx<'a> {
    pub fn struct_field_syn_type(&self, ty: &Type, member: Member) -> (r: Option<Rc<Type>>)
        ensures
            r == types::shared(member_type(self.frame(), *ty, member)),
    {
        match type_path_ident(ty) {
            Some(name) => match find_fields(&self.env.structs, name) {
                Some(fields) => match (fields, member) {
                    (Fields::Named(fields), Member::Named(name)) => find_field(fields, name),
                    (Fields::Unnamed(types), Member::Unnamed(index)) => types.nth(index as usize),
                    _ => None,
                },
                None => None,
            },
            None => None,
        }
    }

    pub fn tuple_struct_element_syn_types(&self, ty: &Type) -> (r: Option<List<Type>>)
        ensures
            r == unnamed_field_types(self.frame(), *ty),
    {
        match type_path_ident(ty) {
            Some(name) => match find_fields(&self.env.structs, name) {
                Some(Fields::Unnamed(types)) => Some(types.dup()),
                _ => None,
            },
            None => None,
        }
    }

    pub fn bind_pattern_with_tile_type(
        &mut self,
        pat: &Pat,
        ty: &Rc<TileType>,
    ) -> (r: Result<(), Stop>)
        ensures
            state::agrees(
                r,
                final(self)@,
                pattern_compiled(old(self).frame(), old(self)@, *pat, *ty),
            ),
            final(self).frame() == old(self).frame(),
            sound::sound(old(self)@) ==> sound::advances(old(self)@, final(self)@),
    {
        self.bind_pattern_with_type(pat, &ty.rust_ty, &Some(share(ty)))
    }

    pub fn bind_pattern_with_syn_type(&mut self, pat: &Pat, ty: &Rc<Type>) -> (r: Result<(), Stop>)
        ensures
            state::agrees(
                r,
                final(self)@,
                pattern_as_written(old(self).frame(), old(self)@, *pat, *ty),
            ),
            final(self).frame() == old(self).frame(),
            sound::sound(old(self)@) ==> sound::advances(old(self)@, final(self)@),
        decreases pat, 1int,
    {
        let tile = compile(self.env, ty)?;
        self.bind_pattern_with_type(pat, ty, &tile)
    }

    pub fn bind_pattern_with_type(
        &mut self,
        pat: &Pat,
        ty: &Rc<Type>,
        tile: &Option<Rc<TileType>>,
    ) -> (r: Result<(), Stop>)
        ensures
            state::agrees(
                r,
                final(self)@,
                pattern_typed(old(self).frame(), old(self)@, *pat, *ty, *tile),
            ),
            final(self).frame() == old(self).frame(),
            sound::sound(old(self)@) ==> sound::advances(old(self)@, final(self)@),
        decreases pat, 0int,
    {
        match pat {
            Pat::Ident { name, mutable, subpat } => {
                self.mark_mutable(*name, *mutable);
                match tile {
                    Some(tile) => self.bind_tile_var(*name, tile),
                    None => self.bind_syn_var(*name, ty),
                }
                match subpat {
                    Some(inner) => self.bind_pattern_with_syn_type(inner, ty),
                    None => Ok(()),
                }
            },
            Pat::Type { pat: inner, ty: written } => self.bind_pattern_with_syn_type(
                inner,
                written,
            ),
            Pat::Paren(inner) => self.bind_pattern_with_type(inner, ty, tile),
            Pat::Reference(inner) => match &**ty {
                Type::Reference { lifetime: _, mutable: _, elem } => {
                    self.bind_pattern_with_syn_type(inner, elem)
                },
                _ => Ok(()),
            },
            Pat::Tuple(pats) => match tuple_element_syn_types(ty) {
                Some(types) => self.bind_patterns_with_types(pats, &types),
                None => Ok(()),
            },
            Pat::Slice(pats) => match array_or_slice_element_syn_type(ty) {
                Some(elem) => self.bind_item_patterns(pats, &elem),
                None => Ok(()),
            },
            Pat::Struct(fields) => self.bind_field_patterns(fields, ty),
            Pat::TupleStruct(pats) => match self.tuple_struct_element_syn_types(ty) {
                Some(types) => self.bind_patterns_with_types(pats, &types),
                None => Ok(()),
            },
            Pat::Or(cases) => self.bind_cases_with_type(cases, ty, tile),
            _ => Ok(()),
        }
    }

    fn bind_patterns_with_types(
        &mut self,
        pats: &List<Pat>,
        types: &List<Type>,
    ) -> (r: Result<(), Stop>)
        ensures
            state::agrees(
                r,
                final(self)@,
                patterns_typed(old(self).frame(), old(self)@, *pats, *types),
            ),
            final(self).frame() == old(self).frame(),
            sound::sound(old(self)@) ==> sound::advances(old(self)@, final(self)@),
        decreases pats, 0int,
    {
        match (pats, types) {
            (List::Cons(pat, pats), List::Cons(ty, types)) => {
                self.bind_pattern_with_syn_type(pat, ty)?;
                self.bind_patterns_with_types(pats, types)
            },
            _ => Ok(()),
        }
    }

    fn bind_item_patterns(&mut self, pats: &List<Pat>, ty: &Rc<Type>) -> (r: Result<(), Stop>)
        ensures
            state::agrees(r, final(self)@, items_typed(old(self).frame(), old(self)@, *pats, *ty)),
            final(self).frame() == old(self).frame(),
            sound::sound(old(self)@) ==> sound::advances(old(self)@, final(self)@),
        decreases pats, 0int,
    {
        match pats {
            List::Nil => Ok(()),
            List::Cons(pat, rest) => {
                if !matches!(&**pat, Pat::Rest) {
                    self.bind_pattern_with_syn_type(pat, ty)?;
                }
                self.bind_item_patterns(rest, ty)
            },
        }
    }

    fn bind_field_patterns(
        &mut self,
        fields: &List<FieldPat>,
        ty: &Rc<Type>,
    ) -> (r: Result<(), Stop>)
        ensures
            state::agrees(
                r,
                final(self)@,
                fields_typed(old(self).frame(), old(self)@, *fields, *ty),
            ),
            final(self).frame() == old(self).frame(),
            sound::sound(old(self)@) ==> sound::advances(old(self)@, final(self)@),
        decreases fields, 0int,
    {
        match fields {
            List::Nil => Ok(()),
            List::Cons(field, rest) => {
                if let Some(field_ty) = self.struct_field_syn_type(ty, field.member) {
                    self.bind_pattern_with_syn_type(&field.pat, &field_ty)?;
                }
                self.bind_field_patterns(rest, ty)
            },
        }
    }

    fn bind_cases_with_type(
        &mut self,
        cases: &List<Pat>,
        ty: &Rc<Type>,
        tile: &Option<Rc<TileType>>,
    ) -> (r: Result<(), Stop>)
        ensures
            state::agrees(
                r,
                final(self)@,
                cases_typed(old(self).frame(), old(self)@, *cases, *ty, *tile),
            ),
            final(self).frame() == old(self).frame(),
            sound::sound(old(self)@) ==> sound::advances(old(self)@, final(self)@),
        decreases cases, 0int,
    {
        match cases {
            List::Nil => Ok(()),
            List::Cons(pat, rest) => {
                self.bind_pattern_with_type(pat, ty, tile)?;
                self.bind_cases_with_type(rest, ty, tile)
            },
        }
    }

    pub fn bind_pattern_with_term(&mut self, pat: &Pat, term: &InferredTy) -> (r: Result<(), Stop>)
        ensures
            state::agrees(
                r,
                final(self)@,
                pattern_termed(old(self).frame(), old(self)@, *pat, *term),
            ),
            final(self).frame() == old(self).frame(),
            sound::sound(old(self)@) && sound::owns(old(self)@, *term) ==> sound::advances(
                old(self)@,
                final(self)@,
            ),
        decreases pat,
    {
        match pat {
            Pat::Ident { name, mutable, subpat } => {
                self.mark_mutable(*name, *mutable);
                self.bind_inferred_var(*name, term);
                match subpat {
                    Some(inner) => self.bind_pattern_with_term(inner, term),
                    None => Ok(()),
                }
            },
            Pat::Type { pat: inner, ty } => {
                let expected = compile(self.env, ty)?;
                if let Some(expected) = expected {
                    let _ = self.unify_with_known(term, &expected);
                }
                self.bind_pattern_with_syn_type(inner, ty)
            },
            Pat::Paren(inner) => self.bind_pattern_with_term(inner, term),
            Pat::Or(cases) => self.bind_cases_with_term(cases, term),
            Pat::Wild => Ok(()),
            Pat::Rest => Ok(()),
            _ => match self.inference.term_known_type(term) {
                Some(ty) => self.bind_pattern_with_tile_type(pat, &ty),
                None => Ok(()),
            },
        }
    }

    fn bind_cases_with_term(
        &mut self,
        cases: &List<Pat>,
        term: &InferredTy,
    ) -> (r: Result<(), Stop>)
        ensures
            state::agrees(
                r,
                final(self)@,
                cases_termed(old(self).frame(), old(self)@, *cases, *term),
            ),
            final(self).frame() == old(self).frame(),
            sound::sound(old(self)@) && sound::owns(old(self)@, *term) ==> sound::advances(
                old(self)@,
                final(self)@,
            ),
        decreases cases,
    {
        match cases {
            List::Nil => Ok(()),
            List::Cons(pat, rest) => {
                self.bind_pattern_with_term(pat, term)?;
                self.bind_cases_with_term(rest, term)
            },
        }
    }
}

} // verus!

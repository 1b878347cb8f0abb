//! What patterns bind stays.
use crate::ask;
use crate::env::TileType;
use crate::infer::patterns;
use crate::infer::state::{self, Frame, StateView};
use crate::infer::steady;
use crate::list::{self, List};
use crate::syntax::{FieldPat, Pat, Type};
use crate::types;
use crate::unify::{self, InferredTy};
use std::rc::Rc;
use vstd::prelude::*;

verus! {

proof fn pattern_typed_stays(
    f: Frame,
    g: Frame,
    s: StateView,
    pat: Pat,
    ty: Rc<Type>,
    tile: Option<Rc<TileType>>,
)
    requires
        steady::learns(f, g),
    ensures
        steady::stays(
            patterns::pattern_typed(f, s, pat, ty, tile),
            patterns::pattern_typed(g, s, pat, ty, tile),
        ),
    decreases pat, 0int,
{
    match pat {
        Pat::Ident { name, mutable, subpat } => {
            let s = state::marked(s, name, mutable);
            let s = match tile {
                Some(tile) => state::bound(s, name, tile),
                None => state::bound_as_written(s, name, ty),
            };
            if let Some(inner) = subpat {
                pattern_as_written_stays(f, g, s, list::held(&inner), ty);
            }
        },
        Pat::Type { pat: inner, ty: written } => {
            pattern_as_written_stays(f, g, s, list::held(&inner), written);
        },
        Pat::Paren(inner) => {
            pattern_typed_stays(f, g, s, list::held(&inner), ty, tile);
        },
        Pat::Reference(inner) => {
            if let Type::Reference { lifetime: _, mutable: _, elem } = list::held(&ty) {
                pattern_as_written_stays(f, g, s, list::held(&inner), elem);
            }
        },
        Pat::Tuple(pats) => {
            if let Some(types) = types::tuple_items(list::held(&ty)) {
                patterns_typed_stays(f, g, s, pats, types);
            }
        },
        Pat::Slice(pats) => {
            if let Some(elem) = types::item_type(list::held(&ty)) {
                items_typed_stays(f, g, s, pats, Rc::new(elem));
            }
        },
        Pat::Struct(fields) => {
            fields_typed_stays(f, g, s, fields, ty);
        },
        Pat::TupleStruct(pats) => {
            if let Some(types) = patterns::unnamed_field_types(f, list::held(&ty)) {
                patterns_typed_stays(f, g, s, pats, types);
            }
        },
        Pat::Or(cases) => {
            cases_typed_stays(f, g, s, cases, ty, tile);
        },
        _ => {},
    }
}

pub(crate) proof fn pattern_as_written_stays(
    f: Frame,
    g: Frame,
    s: StateView,
    pat: Pat,
    ty: Rc<Type>,
)
    requires
        steady::learns(f, g),
    ensures
        steady::stays(
            patterns::pattern_as_written(f, s, pat, ty),
            patterns::pattern_as_written(g, s, pat, ty),
        ),
    decreases pat, 1int,
{
    if let Ok(tile) = ask::compiled(f.env, list::held(&ty)) {
        pattern_typed_stays(f, g, s, pat, ty, tile);
    }
}

proof fn patterns_typed_stays(f: Frame, g: Frame, s: StateView, pats: List<Pat>, types: List<Type>)
    requires
        steady::learns(f, g),
    ensures
        steady::stays(
            patterns::patterns_typed(f, s, pats, types),
            patterns::patterns_typed(g, s, pats, types),
        ),
    decreases pats, 0int,
{
    if let (List::Cons(pat, pats), List::Cons(ty, types)) = (pats, types) {
        pattern_as_written_stays(f, g, s, list::held(&pat), ty);
        if let Ok((s, _)) = patterns::pattern_as_written(f, s, list::held(&pat), ty) {
            patterns_typed_stays(f, g, s, list::held(&pats), list::held(&types));
        }
    }
}

proof fn items_typed_stays(f: Frame, g: Frame, s: StateView, pats: List<Pat>, ty: Rc<Type>)
    requires
        steady::learns(f, g),
    ensures
        steady::stays(patterns::items_typed(f, s, pats, ty), patterns::items_typed(g, s, pats, ty)),
    decreases pats, 0int,
{
    if let List::Cons(pat, rest) = pats {
        if list::held(&pat) is Rest {
            items_typed_stays(f, g, s, list::held(&rest), ty);
        } else {
            pattern_as_written_stays(f, g, s, list::held(&pat), ty);
            if let Ok((s, _)) = patterns::pattern_as_written(f, s, list::held(&pat), ty) {
                items_typed_stays(f, g, s, list::held(&rest), ty);
            }
        }
    }
}

proof fn fields_typed_stays(f: Frame, g: Frame, s: StateView, fields: List<FieldPat>, ty: Rc<Type>)
    requires
        steady::learns(f, g),
    ensures
        steady::stays(
            patterns::fields_typed(f, s, fields, ty),
            patterns::fields_typed(g, s, fields, ty),
        ),
    decreases fields, 0int,
{
    if let List::Cons(field, rest) = fields {
        match patterns::member_type(f, list::held(&ty), field.member) {
            Some(field_ty) => {
                pattern_as_written_stays(f, g, s, list::held(&field.pat), Rc::new(field_ty));
                if let Ok((s, _)) = patterns::pattern_as_written(
                    f,
                    s,
                    list::held(&field.pat),
                    Rc::new(field_ty),
                ) {
                    fields_typed_stays(f, g, s, list::held(&rest), ty);
                }
            },
            None => {
                fields_typed_stays(f, g, s, list::held(&rest), ty);
            },
        }
    }
}

proof fn cases_typed_stays(
    f: Frame,
    g: Frame,
    s: StateView,
    cases: List<Pat>,
    ty: Rc<Type>,
    tile: Option<Rc<TileType>>,
)
    requires
        steady::learns(f, g),
    ensures
        steady::stays(
            patterns::cases_typed(f, s, cases, ty, tile),
            patterns::cases_typed(g, s, cases, ty, tile),
        ),
    decreases cases, 0int,
{
    if let List::Cons(pat, rest) = cases {
        pattern_typed_stays(f, g, s, list::held(&pat), ty, tile);
        if let Ok((s, _)) = patterns::pattern_typed(f, s, list::held(&pat), ty, tile) {
            cases_typed_stays(f, g, s, list::held(&rest), ty, tile);
        }
    }
}

pub(crate) proof fn pattern_compiled_stays(
    f: Frame,
    g: Frame,
    s: StateView,
    pat: Pat,
    ty: Rc<TileType>,
)
    requires
        steady::learns(f, g),
    ensures
        steady::stays(
            patterns::pattern_compiled(f, s, pat, ty),
            patterns::pattern_compiled(g, s, pat, ty),
        ),
{
    pattern_typed_stays(f, g, s, pat, list::held(&ty).rust_ty, Some(ty));
}

pub(crate) proof fn pattern_termed_stays(
    f: Frame,
    g: Frame,
    s: StateView,
    pat: Pat,
    term: InferredTy,
)
    requires
        steady::learns(f, g),
    ensures
        steady::stays(
            patterns::pattern_termed(f, s, pat, term),
            patterns::pattern_termed(g, s, pat, term),
        ),
    decreases pat,
{
    match pat {
        Pat::Ident { name, mutable, subpat } => {
            let s = state::bound_to_term(state::marked(s, name, mutable), name, term);
            if let Some(inner) = subpat {
                pattern_termed_stays(f, g, s, list::held(&inner), term);
            }
        },
        Pat::Type { pat: inner, ty } => {
            if let Ok(expected) = ask::compiled(f.env, list::held(&ty)) {
                let s = match expected {
                    Some(expected) => state::unified_with_known(f, s, term, expected).0,
                    None => s,
                };
                pattern_as_written_stays(f, g, s, list::held(&inner), ty);
            }
        },
        Pat::Paren(inner) => {
            pattern_termed_stays(f, g, s, list::held(&inner), term);
        },
        Pat::Or(cases) => {
            cases_termed_stays(f, g, s, cases, term);
        },
        Pat::Wild => {},
        Pat::Rest => {},
        _ => {
            if let Some(ty) = unify::known_type(s.inference.vars, term) {
                pattern_compiled_stays(f, g, s, pat, ty);
            }
        },
    }
}

proof fn cases_termed_stays(f: Frame, g: Frame, s: StateView, cases: List<Pat>, term: InferredTy)
    requires
        steady::learns(f, g),
    ensures
        steady::stays(
            patterns::cases_termed(f, s, cases, term),
            patterns::cases_termed(g, s, cases, term),
        ),
    decreases cases,
{
    if let List::Cons(pat, rest) = cases {
        pattern_termed_stays(f, g, s, list::held(&pat), term);
        if let Ok((s, _)) = patterns::pattern_termed(f, s, list::held(&pat), term) {
            cases_termed_stays(f, g, s, list::held(&rest), term);
        }
    }
}

} // verus!

//! Scalar types and what their names say.
use crate::list::List;
use crate::names::{self, text_eq, Names};
use crate::syntax::{Path, PathArgs, Segment, Symbol, Type};
use std::rc::Rc;
use vstd::prelude::*;

verus! {

#[derive(Clone, Copy, Debug, PartialEq, Eq, Structural)]
pub enum ResolvedScalarType {
    Bool,
    I8,
    I16,
    I32,
    I64,
    I128,
    Isize,
    U8,
    U16,
    U32,
    U64,
    U128,
    Usize,
    F32,
    F64,
}

/// The scalar type that a text names.
pub open spec fn scalar_named(text: Seq<char>) -> Option<ResolvedScalarType> {
    if text == "bool"@ {
        Some(ResolvedScalarType::Bool)
    } else if text == "i8"@ {
        Some(ResolvedScalarType::I8)
    } else if text == "i16"@ {
        Some(ResolvedScalarType::I16)
    } else if text == "i32"@ {
        Some(ResolvedScalarType::I32)
    } else if text == "i64"@ {
        Some(ResolvedScalarType::I64)
    } else if text == "i128"@ {
        Some(ResolvedScalarType::I128)
    } else if text == "isize"@ {
        Some(ResolvedScalarType::Isize)
    } else if text == "u8"@ {
        Some(ResolvedScalarType::U8)
    } else if text == "u16"@ {
        Some(ResolvedScalarType::U16)
    } else if text == "u32"@ {
        Some(ResolvedScalarType::U32)
    } else if text == "u64"@ {
        Some(ResolvedScalarType::U64)
    } else if text == "u128"@ {
        Some(ResolvedScalarType::U128)
    } else if text == "usize"@ {
        Some(ResolvedScalarType::Usize)
    } else if text == "f32"@ {
        Some(ResolvedScalarType::F32)
    } else if text == "f64"@ {
        Some(ResolvedScalarType::F64)
    } else {
        None
    }
}

/// The name of a scalar type.
pub open spec fn scalar_symbol(scalar: ResolvedScalarType) -> Symbol {
    match scalar {
        ResolvedScalarType::Bool => names::BOOL,
        ResolvedScalarType::I8 => names::I8,
        ResolvedScalarType::I16 => names::I16,
        ResolvedScalarType::I32 => names::I32,
        ResolvedScalarType::I64 => names::I64,
        ResolvedScalarType::I128 => names::I128,
        ResolvedScalarType::Isize => names::ISIZE,
        ResolvedScalarType::U8 => names::U8,
        ResolvedScalarType::U16 => names::U16,
        ResolvedScalarType::U32 => names::U32,
        ResolvedScalarType::U64 => names::U64,
        ResolvedScalarType::U128 => names::U128,
        ResolvedScalarType::Usize => names::USIZE,
        ResolvedScalarType::F32 => names::F32,
        ResolvedScalarType::F64 => names::F64,
    }
}

/// The type that is a bare name.
pub open spec fn named_type(name: Symbol) -> Type {
    Type::Path {
        qself: None,
        path: Path {
            global: false,
            segments: List::Cons(
                Rc::new(Segment { ident: name, args: PathArgs::Bare }),
                Rc::new(List::Nil),
            ),
        },
    }
}

pub fn bare_type(name: Symbol) -> (r: Rc<Type>)
    ensures
        *r == named_type(name),
{
    Rc::new(
        Type::Path {
            qself: None,
            path: Path {
                global: false,
                segments: List::one(Rc::new(Segment { ident: name, args: PathArgs::Bare })),
            },
        },
    )
}

impl ResolvedScalarType {
    /// The scalar type of that name, if it is one.
    pub fn from_ident(ident: &str) -> (r: Option<ResolvedScalarType>)
        ensures
            r == scalar_named(ident@),
    {
        if text_eq(ident, "bool") {
            Some(ResolvedScalarType::Bool)
        } else if text_eq(ident, "i8") {
            Some(ResolvedScalarType::I8)
        } else if text_eq(ident, "i16") {
            Some(ResolvedScalarType::I16)
        } else if text_eq(ident, "i32") {
            Some(ResolvedScalarType::I32)
        } else if text_eq(ident, "i64") {
            Some(ResolvedScalarType::I64)
        } else if text_eq(ident, "i128") {
            Some(ResolvedScalarType::I128)
        } else if text_eq(ident, "isize") {
            Some(ResolvedScalarType::Isize)
        } else if text_eq(ident, "u8") {
            Some(ResolvedScalarType::U8)
        } else if text_eq(ident, "u16") {
            Some(ResolvedScalarType::U16)
        } else if text_eq(ident, "u32") {
            Some(ResolvedScalarType::U32)
        } else if text_eq(ident, "u64") {
            Some(ResolvedScalarType::U64)
        } else if text_eq(ident, "u128") {
            Some(ResolvedScalarType::U128)
        } else if text_eq(ident, "usize") {
            Some(ResolvedScalarType::Usize)
        } else if text_eq(ident, "f32") {
            Some(ResolvedScalarType::F32)
        } else if text_eq(ident, "f64") {
            Some(ResolvedScalarType::F64)
        } else {
            None
        }
    }

    /// The scalar type as a type of the syntax tree.
    pub fn to_syn_type(&self) -> (r: Rc<Type>)
        ensures
            *r == named_type(scalar_symbol(*self)),
    {
        bare_type(
            match self {
                ResolvedScalarType::Bool => names::BOOL,
                ResolvedScalarType::I8 => names::I8,
                ResolvedScalarType::I16 => names::I16,
                ResolvedScalarType::I32 => names::I32,
                ResolvedScalarType::I64 => names::I64,
                ResolvedScalarType::I128 => names::I128,
                ResolvedScalarType::Isize => names::ISIZE,
                ResolvedScalarType::U8 => names::U8,
                ResolvedScalarType::U16 => names::U16,
                ResolvedScalarType::U32 => names::U32,
                ResolvedScalarType::U64 => names::U64,
                ResolvedScalarType::U128 => names::U128,
                ResolvedScalarType::Usize => names::USIZE,
                ResolvedScalarType::F32 => names::F32,
                ResolvedScalarType::F64 => names::F64,
            },
        )
    }
}

pub open spec fn integer_name(text: Seq<char>) -> bool {
    ||| text == "i8"@
    ||| text == "i16"@
    ||| text == "i32"@
    ||| text == "i64"@
    ||| text == "i128"@
    ||| text == "isize"@
    ||| text == "u8"@
    ||| text == "u16"@
    ||| text == "u32"@
    ||| text == "u64"@
    ||| text == "u128"@
    ||| text == "usize"@
}

pub open spec fn float_name(text: Seq<char>) -> bool {
    ||| text == "f16"@
    ||| text == "bf16"@
    ||| text == "f32"@
    ||| text == "f64"@
    ||| text == "tf32"@
    ||| text == "f8e4m3fn"@
    ||| text == "f8e5m2"@
}

pub open spec fn builtin_scalar_name(text: Seq<char>) -> bool {
    text == "bool"@ || integer_name(text) || float_name(text)
}

pub fn is_integer_scalar_name(name: &str) -> (r: bool)
    ensures
        r == integer_name(name@),
{
    text_eq(name, "i8")
        || text_eq(name, "i16")
        || text_eq(name, "i32")
        || text_eq(name, "i64")
        || text_eq(name, "i128")
        || text_eq(name, "isize")
        || text_eq(name, "u8")
        || text_eq(name, "u16")
        || text_eq(name, "u32")
        || text_eq(name, "u64")
        || text_eq(name, "u128")
        || text_eq(name, "usize")
}

pub fn is_float_scalar_name(name: &str) -> (r: bool)
    ensures
        r == float_name(name@),
{
    text_eq(name, "f16")
        || text_eq(name, "bf16")
        || text_eq(name, "f32")
        || text_eq(name, "f64")
        || text_eq(name, "tf32")
        || text_eq(name, "f8e4m3fn")
        || text_eq(name, "f8e5m2")
}

pub fn is_builtin_scalar_name(name: &str) -> (r: bool)
    ensures
        r == builtin_scalar_name(name@),
{
    text_eq(name, "bool") || is_integer_scalar_name(name) || is_float_scalar_name(name)
}

/// A name that reads as a type parameter: its first character is `_` or an ASCII capital.
pub open spec fn looks_like_type_param(text: Seq<char>) -> bool {
    text.len() > 0 && (text[0] == '_' || 'A' <= text[0] <= 'Z')
}

pub fn is_likely_unresolved_type_param(name: &str) -> (r: bool)
    ensures
        r == looks_like_type_param(name@),
{
    if name.unicode_len() == 0 {
        return false;
    }
    let first = name.get_char(0);
    first == '_' || ('A' <= first && first <= 'Z')
}

/// The names of integers and of floating-point numbers are names of numbers: a scalar type that is an
/// integer has the name of one, one that is a float has the name of one, and no integer has a name
/// that no scalar type has.
pub proof fn numbers_are_named_as_their_scalars(text: Seq<char>)
    ensures
        scalar_named(text) matches Some(scalar) ==> match scalar {
            ResolvedScalarType::Bool => text == "bool"@,
            ResolvedScalarType::F32 => float_name(text),
            ResolvedScalarType::F64 => float_name(text),
            _ => integer_name(text),
        },
        scalar_named(text) is Some ==> builtin_scalar_name(text),
        integer_name(text) ==> scalar_named(text) is Some && builtin_scalar_name(text),
        float_name(text) ==> builtin_scalar_name(text),
        text == "f16"@ || text == "bf16"@ || text == "tf32"@ || text == "f8e4m3fn"@ || text
            == "f8e5m2"@ ==> float_name(text),
{
}

/// What starts with a capital letter or an underscore reads as a type parameter, and nothing else
/// does.
pub proof fn parameters_start_with_a_capital(first: char, rest: Seq<char>)
    ensures
        'A' <= first <= 'Z' || first == '_' ==> looks_like_type_param(seq![first] + rest),
        first > 'Z' && first != '_' ==> !looks_like_type_param(seq![first] + rest),
        first < 'A' ==> !looks_like_type_param(seq![first] + rest),
        !looks_like_type_param(Seq::empty()),
{
}

/// In a table of names, the name of a scalar type reads back as that scalar type.
pub proof fn scalar_name_reads_back(table: Names, scalar: ResolvedScalarType)
    requires
        table.wf(),
    ensures
        scalar_named(table.text_of(scalar_symbol(scalar))) == Some(scalar),
{
    reveal_strlit("bool");
    reveal_strlit("i8");
    reveal_strlit("i16");
    reveal_strlit("i32");
    reveal_strlit("i64");
    reveal_strlit("i128");
    reveal_strlit("isize");
    reveal_strlit("u8");
    reveal_strlit("u16");
    reveal_strlit("u32");
    reveal_strlit("u64");
    reveal_strlit("u128");
    reveal_strlit("usize");
    reveal_strlit("f32");
    reveal_strlit("f64");
    let name = scalar_symbol(scalar);
    assert(table@[name as int] == names::known_text(name as int));
    assert("bool"@.len() == 4 && "bool"@[0] == 'b' && "bool"@[1] == 'o' && "bool"@[2] == 'o'
        && "bool"@[3] == 'l');
    assert("i8"@.len() == 2 && "i8"@[0] == 'i' && "i8"@[1] == '8');
    assert("i16"@.len() == 3 && "i16"@[0] == 'i' && "i16"@[1] == '1' && "i16"@[2] == '6');
    assert("i32"@.len() == 3 && "i32"@[0] == 'i' && "i32"@[1] == '3' && "i32"@[2] == '2');
    assert("i64"@.len() == 3 && "i64"@[0] == 'i' && "i64"@[1] == '6' && "i64"@[2] == '4');
    assert("i128"@.len() == 4 && "i128"@[0] == 'i' && "i128"@[1] == '1' && "i128"@[2] == '2'
        && "i128"@[3] == '8');
    assert("isize"@.len() == 5 && "isize"@[0] == 'i' && "isize"@[1] == 's' && "isize"@[2] == 'i'
        && "isize"@[3] == 'z' && "isize"@[4] == 'e');
    assert("u8"@.len() == 2 && "u8"@[0] == 'u' && "u8"@[1] == '8');
    assert("u16"@.len() == 3 && "u16"@[0] == 'u' && "u16"@[1] == '1' && "u16"@[2] == '6');
    assert("u32"@.len() == 3 && "u32"@[0] == 'u' && "u32"@[1] == '3' && "u32"@[2] == '2');
    assert("u64"@.len() == 3 && "u64"@[0] == 'u' && "u64"@[1] == '6' && "u64"@[2] == '4');
    assert("u128"@.len() == 4 && "u128"@[0] == 'u' && "u128"@[1] == '1' && "u128"@[2] == '2'
        && "u128"@[3] == '8');
    assert("usize"@.len() == 5 && "usize"@[0] == 'u' && "usize"@[1] == 's' && "usize"@[2] == 'i'
        && "usize"@[3] == 'z' && "usize"@[4] == 'e');
    assert("f32"@.len() == 3 && "f32"@[0] == 'f' && "f32"@[1] == '3' && "f32"@[2] == '2');
    assert("f64"@.len() == 3 && "f64"@[0] == 'f' && "f64"@[1] == '6' && "f64"@[2] == '4');
}

} // verus!

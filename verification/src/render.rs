//! The text of types and of the constant expressions in them.
//!
//! Every token stands apart, so that the text reads as exactly the tokens that the tree is made of.
//! Expressions that never stand in a type have no text.
use crate::list::List;
use crate::names::Names;
use crate::syntax::{
    Expr, ExprKind, GenericArg, Lit, PathArgs, Segment, Stmt, Symbol, Type, UnOp,
};
use std::rc::Rc;
use vstd::prelude::*;

verus! {

// Numbers.

/// The character of a digit.
pub open spec fn digit(value: int) -> char {
    (48 + value) as char
}

/// A number in decimal notation.
pub open spec fn decimal(value: nat) -> Seq<char>
    decreases value,
{
    if value < 10 {
        seq![digit(value as int)]
    } else {
        decimal(value / 10).push(digit((value % 10) as int))
    }
}

fn digit_text(value: u128) -> (r: &'static str)
    requires
        value < 10,
    ensures
        r@ == seq![digit(value as int)],
{
    proof {
        reveal_strlit("0");
        reveal_strlit("1");
        reveal_strlit("2");
        reveal_strlit("3");
        reveal_strlit("4");
        reveal_strlit("5");
        reveal_strlit("6");
        reveal_strlit("7");
        reveal_strlit("8");
        reveal_strlit("9");
    }
    let r = match value {
        0 => "0",
        1 => "1",
        2 => "2",
        3 => "3",
        4 => "4",
        5 => "5",
        6 => "6",
        7 => "7",
        8 => "8",
        _ => "9",
    };
    assert(r@ =~= seq![digit(value as int)]);
    r
}

pub fn write_decimal(value: u128, out: &mut String)
    ensures
        final(out)@ == old(out)@ + decimal(value as nat),
    decreases value,
{
    if value >= 10 {
        write_decimal(value / 10, out);
    }
    out.append(digit_text(value % 10));
    assert(out@ =~= old(out)@ + decimal(value as nat));
}

/// A whole number in decimal notation.
pub open spec fn signed_decimal(value: int) -> Seq<char> {
    if value < 0 {
        "-"@ + decimal((-value) as nat)
    } else {
        decimal(value as nat)
    }
}

pub fn write_signed(value: i64, out: &mut String)
    ensures
        final(out)@ == old(out)@ + signed_decimal(value as int),
{
    if value < 0 {
        out.append("-");
        write_decimal((-(value as i128)) as u128, out);
        assert(out@ =~= old(out)@ + signed_decimal(value as int));
    } else {
        write_decimal(value as u128, out);
    }
}

/// The value of decimal digits.
pub open spec fn decimal_value(text: Seq<char>) -> nat
    decreases text.len(),
{
    if text.len() == 0 {
        0
    } else {
        decimal_value(text.drop_last()) * 10 + (text.last() as int - 48) as nat
    }
}

/// Decimal notation reads back as the number.
pub proof fn decimal_reads_back(value: nat)
    ensures
        decimal_value(decimal(value)) == value,
        decimal(value).len() > 0,
        forall|i: int| 0 <= i < decimal(value).len() ==> '0' <= #[trigger] decimal(value)[i] <= '9',
    decreases value,
{
    if value >= 10 {
        decimal_reads_back(value / 10);
        let text = decimal(value);
        assert(text.drop_last() =~= decimal(value / 10));
        assert(text.last() as int - 48 == value % 10);
        assert forall|i: int| 0 <= i < text.len() implies '0' <= #[trigger] text[i] <= '9' by {
            if i < text.len() - 1 {
                assert(text[i] == decimal(value / 10)[i]);
            }
        }
    } else {
        let text = decimal(value);
        assert(text.drop_last() =~= Seq::<char>::empty());
        assert(decimal_value(text.drop_last()) == 0);
        assert(text.last() as int - 48 == value);
    }
}

/// Different numbers have different decimal notations.
pub proof fn decimal_tells_numbers_apart(a: nat, b: nat)
    ensures
        decimal(a) == decimal(b) <==> a == b,
{
    decimal_reads_back(a);
    decimal_reads_back(b);
}

// Literals.

pub open spec fn suffix_text(names: Names, suffix: Option<Symbol>) -> Seq<char> {
    match suffix {
        Some(suffix) => names.text_of(suffix),
        None => Seq::empty(),
    }
}

pub open spec fn lit_text(names: Names, lit: Lit) -> Seq<char> {
    match lit {
        Lit::Int { value, spelling, suffix } => (match (spelling, value) {
            (Some(spelling), _) => names.text_of(spelling),
            (None, Some(value)) => decimal(value as nat),
            (None, None) => Seq::empty(),
        }) + suffix_text(names, suffix),
        Lit::Float { digits, suffix } => names.text_of(digits) + suffix_text(names, suffix),
        Lit::Str(value) => "\""@ + names.text_of(value) + "\""@,
        Lit::Bool(true) => "true"@,
        Lit::Bool(false) => "false"@,
        Lit::Other(text) => names.text_of(text),
    }
}

fn write_suffix(names: &Names, suffix: Option<Symbol>, out: &mut String)
    ensures
        final(out)@ == old(out)@ + suffix_text(*names, suffix),
{
    match suffix {
        Some(suffix) => out.append(names.text(suffix)),
        None => {},
    }
    assert(out@ =~= old(out)@ + suffix_text(*names, suffix));
}

fn write_lit(names: &Names, lit: &Lit, out: &mut String)
    ensures
        final(out)@ == old(out)@ + lit_text(*names, *lit),
{
    match lit {
        Lit::Int { value, spelling, suffix } => {
            match (spelling, value) {
                (Some(spelling), _) => out.append(names.text(*spelling)),
                (None, Some(value)) => write_decimal(*value, out),
                (None, None) => {},
            }
            write_suffix(names, *suffix, out);
        },
        Lit::Float { digits, suffix } => {
            out.append(names.text(*digits));
            write_suffix(names, *suffix, out);
        },
        Lit::Str(value) => {
            out.append("\"");
            out.append(names.text(*value));
            out.append("\"");
        },
        Lit::Bool(value) => {
            if *value {
                out.append("true");
            } else {
                out.append("false");
            }
        },
        Lit::Other(text) => out.append(names.text(*text)),
    }
    assert(out@ =~= old(out)@ + lit_text(*names, *lit));
}

// Types.

pub open spec fn type_text(names: Names, ty: Type) -> Seq<char>
    decreases ty,
{
    match ty {
        Type::Path { qself, path } => match qself {
            None => (if path.global {
                ":: "@
            } else {
                Seq::empty()
            }) + segments_text(names, path.segments, 0, true),
            Some(qself) => "< "@ + type_text(names, *qself.ty) + (if qself.position > 0 {
                " as "@
            } else {
                " > :: "@
            }) + segments_text(names, path.segments, qself.position as nat, true),
        },
        Type::Reference { lifetime, mutable, elem } => "& "@ + lifetime_text(names, lifetime) + (
        if mutable {
            "mut "@
        } else {
            Seq::empty()
        }) + type_text(names, *elem),
        Type::Ptr { mutable, elem } => (if mutable {
            "* mut "@
        } else {
            "* const "@
        }) + type_text(names, *elem),
        Type::Tuple(elems) => "( "@ + types_text(names, elems) + (match elems {
            List::Cons(_, rest) => if *rest is Nil {
                " , "@
            } else {
                Seq::empty()
            },
            List::Nil => Seq::empty(),
        }) + " )"@,
        Type::Array { elem, len } => "[ "@ + type_text(names, *elem) + " ; "@ + expr_text(
            names,
            *len,
        ) + " ]"@,
        Type::Slice(elem) => "[ "@ + type_text(names, *elem) + " ]"@,
        Type::Paren(elem) => "( "@ + type_text(names, *elem) + " )"@,
        Type::Group(elem) => type_text(names, *elem),
        Type::Never => "!"@,
        Type::Infer => "_"@,
        Type::ImplTrait(text) => names.text_of(text),
        Type::Other(text) => names.text_of(text),
    }
}

pub open spec fn lifetime_text(names: Names, lifetime: Option<Symbol>) -> Seq<char> {
    match lifetime {
        Some(name) => "'"@ + names.text_of(name) + " "@,
        None => Seq::empty(),
    }
}

/// Types with commas between them.
pub open spec fn types_text(names: Names, types: List<Type>) -> Seq<char>
    decreases types,
{
    match types {
        List::Nil => Seq::empty(),
        List::Cons(ty, rest) => type_text(names, *ty) + (if *rest is Nil {
            Seq::empty()
        } else {
            " , "@
        }) + types_text(names, *rest),
    }
}

/// Segments with `::` between them; behind so many of them the bracket that names a trait closes.
pub open spec fn segments_text(
    names: Names,
    segments: List<Segment>,
    close: nat,
    first: bool,
) -> Seq<char>
    decreases segments,
{
    match segments {
        List::Nil => Seq::empty(),
        List::Cons(segment, rest) => (if first {
            Seq::empty()
        } else {
            " :: "@
        }) + names.text_of(segment.ident) + args_text(names, segment.args) + (if close == 1 {
            " >"@
        } else {
            Seq::empty()
        }) + segments_text(
            names,
            *rest,
            if close > 0 {
                (close - 1) as nat
            } else {
                0
            },
            false,
        ),
    }
}

pub open spec fn args_text(names: Names, args: PathArgs) -> Seq<char>
    decreases args,
{
    match args {
        PathArgs::Bare => Seq::empty(),
        PathArgs::Angle(args) => " < "@ + generic_args_text(names, args) + " >"@,
        PathArgs::Call { inputs, output } => " ( "@ + types_text(names, inputs) + " )"@ + (
        match output {
            Some(ty) => " -> "@ + type_text(names, *ty),
            None => Seq::empty(),
        }),
    }
}

pub open spec fn generic_args_text(names: Names, args: List<GenericArg>) -> Seq<char>
    decreases args,
{
    match args {
        List::Nil => Seq::empty(),
        List::Cons(arg, rest) => (match *arg {
            GenericArg::Type(ty) => type_text(names, *ty),
            GenericArg::Const(expr) => if stands_as_argument(*expr) {
                expr_text(names, *expr)
            } else {
                "{ "@ + expr_text(names, *expr) + " }"@
            },
            GenericArg::Lifetime(name) => "'"@ + names.text_of(name),
            GenericArg::Other(text) => names.text_of(text),
        }) + (if *rest is Nil {
            Seq::empty()
        } else {
            " , "@
        }) + generic_args_text(names, *rest),
    }
}

/// Whether an expression stands as a generic argument without braces of its own around it.
pub open spec fn stands_as_argument(expr: Expr) -> bool {
    match expr.kind {
        ExprKind::Lit { lit: _, ty: _ } => true,
        ExprKind::Block(_) => true,
        ExprKind::Path { qself, path } => qself is None && !path.global && (match path.segments {
            List::Cons(segment, rest) => *rest is Nil && segment.args is Bare,
            List::Nil => false,
        }),
        _ => false,
    }
}

pub open spec fn expr_text(names: Names, expr: Expr) -> Seq<char>
    decreases expr,
{
    match expr.kind {
        ExprKind::Path { qself: _, path } => (if path.global {
            ":: "@
        } else {
            Seq::empty()
        }) + segments_text(names, path.segments, 0, true),
        ExprKind::Lit { lit, ty: _ } => lit_text(names, lit),
        ExprKind::Array(elems) => "[ "@ + exprs_text(names, elems) + " ]"@,
        ExprKind::Repeat { expr: value, len } => "[ "@ + expr_text(names, *value) + " ; "@
            + expr_text(names, *len) + " ]"@,
        ExprKind::Unary { op, expr: inner } => (match op {
            UnOp::Deref => "* "@,
            UnOp::Not => "! "@,
            UnOp::Neg => "- "@,
        }) + expr_text(names, *inner),
        ExprKind::Paren(inner) => "( "@ + expr_text(names, *inner) + " )"@,
        ExprKind::Block(block) => "{ "@ + stmts_text(names, block.stmts) + "}"@,
        ExprKind::Index { expr: array, index } => expr_text(names, *array) + " [ "@ + expr_text(
            names,
            *index,
        ) + " ]"@,
        ExprKind::Other(text) => names.text_of(text),
        _ => Seq::empty(),
    }
}

pub open spec fn exprs_text(names: Names, exprs: List<Expr>) -> Seq<char>
    decreases exprs,
{
    match exprs {
        List::Nil => Seq::empty(),
        List::Cons(expr, rest) => expr_text(names, *expr) + (if *rest is Nil {
            Seq::empty()
        } else {
            " , "@
        }) + exprs_text(names, *rest),
    }
}

pub open spec fn stmts_text(names: Names, stmts: List<Stmt>) -> Seq<char>
    decreases stmts,
{
    match stmts {
        List::Nil => Seq::empty(),
        List::Cons(stmt, rest) => (match *stmt {
            Stmt::Expr { expr, semi } => expr_text(names, *expr) + (if semi {
                " ; "@
            } else {
                " "@
            }),
            _ => Seq::empty(),
        }) + stmts_text(names, *rest),
    }
}

pub fn write_type(names: &Names, ty: &Type, out: &mut String)
    ensures
        final(out)@ == old(out)@ + type_text(*names, *ty),
    decreases ty,
{
    match ty {
        Type::Path { qself, path } => match qself {
            None => {
                if path.global {
                    out.append(":: ");
                }
                write_segments(names, &path.segments, 0, true, out);
            },
            Some(qself) => {
                out.append("< ");
                write_type(names, &qself.ty, out);
                if qself.position > 0 {
                    out.append(" as ");
                } else {
                    out.append(" > :: ");
                }
                write_segments(names, &path.segments, qself.position, true, out);
            },
        },
        Type::Reference { lifetime, mutable, elem } => {
            out.append("& ");
            match lifetime {
                Some(name) => {
                    out.append("'");
                    out.append(names.text(*name));
                    out.append(" ");
                },
                None => {},
            }
            assert(out@ =~= old(out)@ + "& "@ + lifetime_text(*names, *lifetime));
            if *mutable {
                out.append("mut ");
            }
            write_type(names, elem, out);
        },
        Type::Ptr { mutable, elem } => {
            if *mutable {
                out.append("* mut ");
            } else {
                out.append("* const ");
            }
            write_type(names, elem, out);
        },
        Type::Tuple(elems) => {
            out.append("( ");
            write_types(names, elems, out);
            if let List::Cons(_, rest) = elems {
                if rest.is_empty() {
                    out.append(" , ");
                }
            }
            out.append(" )");
        },
        Type::Array { elem, len } => {
            out.append("[ ");
            write_type(names, elem, out);
            out.append(" ; ");
            write_expr(names, len, out);
            out.append(" ]");
        },
        Type::Slice(elem) => {
            out.append("[ ");
            write_type(names, elem, out);
            out.append(" ]");
        },
        Type::Paren(elem) => {
            out.append("( ");
            write_type(names, elem, out);
            out.append(" )");
        },
        Type::Group(elem) => write_type(names, elem, out),
        Type::Never => out.append("!"),
        Type::Infer => out.append("_"),
        Type::ImplTrait(text) => out.append(names.text(*text)),
        Type::Other(text) => out.append(names.text(*text)),
    }
    assert(out@ =~= old(out)@ + type_text(*names, *ty));
}

fn write_types(names: &Names, types: &List<Type>, out: &mut String)
    ensures
        final(out)@ == old(out)@ + types_text(*names, *types),
    decreases types,
{
    match types {
        List::Nil => {},
        List::Cons(ty, rest) => {
            write_type(names, ty, out);
            if !rest.is_empty() {
                out.append(" , ");
            }
            write_types(names, rest, out);
        },
    }
    assert(out@ =~= old(out)@ + types_text(*names, *types));
}

fn write_segments(
    names: &Names,
    segments: &List<Segment>,
    close: usize,
    first: bool,
    out: &mut String,
)
    ensures
        final(out)@ == old(out)@ + segments_text(*names, *segments, close as nat, first),
    decreases segments,
{
    match segments {
        List::Nil => {},
        List::Cons(segment, rest) => {
            if !first {
                out.append(" :: ");
            }
            out.append(names.text(segment.ident));
            write_args(names, &segment.args, out);
            if close == 1 {
                out.append(" >");
            }
            let left: usize = if close > 0 {
                close - 1
            } else {
                0
            };
            write_segments(names, rest, left, false, out);
        },
    }
    assert(out@ =~= old(out)@ + segments_text(*names, *segments, close as nat, first));
}

fn write_args(names: &Names, args: &PathArgs, out: &mut String)
    ensures
        final(out)@ == old(out)@ + args_text(*names, *args),
    decreases args,
{
    match args {
        PathArgs::Bare => {},
        PathArgs::Angle(args) => {
            out.append(" < ");
            write_generic_args(names, args, out);
            out.append(" >");
        },
        PathArgs::Call { inputs, output } => {
            out.append(" ( ");
            write_types(names, inputs, out);
            out.append(" )");
            if let Some(ty) = output {
                out.append(" -> ");
                write_type(names, ty, out);
            }
        },
    }
    assert(out@ =~= old(out)@ + args_text(*names, *args));
}

fn is_plain_argument(expr: &Expr) -> (r: bool)
    ensures
        r == stands_as_argument(*expr),
{
    match &expr.kind {
        ExprKind::Lit { lit: _, ty: _ } => true,
        ExprKind::Block(_) => true,
        ExprKind::Path { qself, path } => match &path.segments {
            List::Cons(segment, rest) => qself.is_none() && !path.global && rest.is_empty()
                && matches!(segment.args, PathArgs::Bare),
            List::Nil => false,
        },
        _ => false,
    }
}

fn write_generic_args(names: &Names, args: &List<GenericArg>, out: &mut String)
    ensures
        final(out)@ == old(out)@ + generic_args_text(*names, *args),
    decreases args,
{
    match args {
        List::Nil => {},
        List::Cons(arg, rest) => {
            match &**arg {
                GenericArg::Type(ty) => write_type(names, ty, out),
                GenericArg::Const(expr) => {
                    if is_plain_argument(expr) {
                        write_expr(names, expr, out);
                    } else {
                        out.append("{ ");
                        write_expr(names, expr, out);
                        out.append(" }");
                    }
                },
                GenericArg::Lifetime(name) => {
                    out.append("'");
                    out.append(names.text(*name));
                },
                GenericArg::Other(text) => out.append(names.text(*text)),
            }
            if !rest.is_empty() {
                out.append(" , ");
            }
            write_generic_args(names, rest, out);
        },
    }
    assert(out@ =~= old(out)@ + generic_args_text(*names, *args));
}

fn write_expr(names: &Names, expr: &Expr, out: &mut String)
    ensures
        final(out)@ == old(out)@ + expr_text(*names, *expr),
    decreases expr,
{
    match &expr.kind {
        ExprKind::Path { qself: _, path } => {
            if path.global {
                out.append(":: ");
            }
            write_segments(names, &path.segments, 0, true, out);
        },
        ExprKind::Lit { lit, ty: _ } => write_lit(names, lit, out),
        ExprKind::Array(elems) => {
            out.append("[ ");
            write_exprs(names, elems, out);
            out.append(" ]");
        },
        ExprKind::Repeat { expr: value, len } => {
            out.append("[ ");
            write_expr(names, value, out);
            out.append(" ; ");
            write_expr(names, len, out);
            out.append(" ]");
        },
        ExprKind::Unary { op, expr: inner } => {
            match op {
                UnOp::Deref => out.append("* "),
                UnOp::Not => out.append("! "),
                UnOp::Neg => out.append("- "),
            }
            write_expr(names, inner, out);
        },
        ExprKind::Paren(inner) => {
            out.append("( ");
            write_expr(names, inner, out);
            out.append(" )");
        },
        ExprKind::Block(block) => {
            out.append("{ ");
            write_stmts(names, &block.stmts, out);
            out.append("}");
        },
        ExprKind::Index { expr: array, index } => {
            write_expr(names, array, out);
            out.append(" [ ");
            write_expr(names, index, out);
            out.append(" ]");
        },
        ExprKind::Other(text) => out.append(names.text(*text)),
        _ => {},
    }
    assert(out@ =~= old(out)@ + expr_text(*names, *expr));
}

fn write_exprs(names: &Names, exprs: &List<Expr>, out: &mut String)
    ensures
        final(out)@ == old(out)@ + exprs_text(*names, *exprs),
    decreases exprs,
{
    match exprs {
        List::Nil => {},
        List::Cons(expr, rest) => {
            write_expr(names, expr, out);
            if !rest.is_empty() {
                out.append(" , ");
            }
            write_exprs(names, rest, out);
        },
    }
    assert(out@ =~= old(out)@ + exprs_text(*names, *exprs));
}

fn write_stmts(names: &Names, stmts: &List<Stmt>, out: &mut String)
    ensures
        final(out)@ == old(out)@ + stmts_text(*names, *stmts),
    decreases stmts,
{
    match stmts {
        List::Nil => {},
        List::Cons(stmt, rest) => {
            match &**stmt {
                Stmt::Expr { expr, semi } => {
                    write_expr(names, expr, out);
                    if *semi {
                        out.append(" ; ");
                    } else {
                        out.append(" ");
                    }
                },
                _ => {},
            }
            write_stmts(names, rest, out);
        },
    }
    assert(out@ =~= old(out)@ + stmts_text(*names, *stmts));
}

// Tokens.

/// The text that `proc_macro2` prints for the tokens of a source text.
pub uninterp spec fn printed_tokens(source: Seq<char>) -> Seq<char>;

/// Calls `proc_macro2::TokenStream`'s `FromStr` and `Display`: the source text is split into
/// tokens, and these are printed with that crate's spacing. A text that does not lex is given back
/// as it is. The result is claimed to depend on the source text alone, which holds outside of
/// procedural macros, where the crate uses its own lexer; nothing else is claimed of it.
#[verifier::external_body]
fn print_tokens(source: &str) -> (r: String)
    ensures
        r@ == printed_tokens(source@),
{
    match source.parse::<proc_macro2::TokenStream>() {
        Ok(tokens) => tokens.to_string(),
        Err(_) => source.to_owned(),
    }
}

/// The text of a type as a stream of tokens.
pub open spec fn token_text(names: Names, ty: Type) -> Seq<char> {
    printed_tokens(type_text(names, ty))
}

pub fn to_token_string(names: &Names, ty: &Type) -> (r: String)
    ensures
        r@ == token_text(*names, *ty),
{
    let mut source = String::new();
    write_type(names, ty, &mut source);
    assert(source@ =~= type_text(*names, *ty));
    print_tokens(source.as_str())
}

/// Delimiters that are not written have no text.
pub proof fn groups_have_no_text(names: Names, ty: Type)
    ensures
        token_text(names, Type::Group(Rc::new(ty))) == token_text(names, ty),
{
}

} // verus!

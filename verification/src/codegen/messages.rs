//! What errors say.
use crate::codegen::tape::{CompileError, ConstKind, Place};
use crate::env::JitError;
use crate::list::List;
use crate::render::{self, write_signed};
use vstd::prelude::*;

verus! {

/// What an error is about, as text.
pub struct Subject<'a> {
    /// The module, the function, the method, the type or the expression that the error quotes; an
    /// argument in quotation marks.
    pub name: &'a str,
    /// The type of a method's receiver.
    pub receiver: &'a str,
    /// Whether a call is that of a method.
    pub is_method: bool,
}

/// The message of an error in inference; none for an error that the compiler reported, which has a
/// message of its own.
pub open spec fn jit_message(error: JitError) -> Option<Seq<char>> {
    match error {
        JitError::MissingTypeckEntry => Some("missing typeck entry for expression"@),
        JitError::UncompilableType => Some("failed to compile typeck expression type"@),
        JitError::MalformedShape => Some("malformed shape"@),
        JitError::Unparsed(message) => Some(message@),
        JitError::Reported(_) => None,
    }
}

/// `String::push` appends the character to the text.
pub assume_specification[ String::push ](text: &mut String, ch: char)
    ensures
        final(text)@ == old(text)@.push(ch),
;

fn add_chars(chars: &List<char>, text: &mut String)
    ensures
        final(text)@ == old(text)@ + chars@,
    decreases chars,
{
    if let List::Cons(ch, rest) = chars {
        text.push(**ch);
        add_chars(rest, text);
    }
    assert(text@ =~= old(text)@ + chars@);
}

pub fn jit_error_text(error: &JitError) -> (r: Option<String>)
    ensures
        match jit_message(*error) {
            Some(message) => r matches Some(text) && text@ == message,
            None => r is None,
        },
{
    match error {
        JitError::MissingTypeckEntry => Some("missing typeck entry for expression".to_owned()),
        JitError::UncompilableType => Some("failed to compile typeck expression type".to_owned()),
        JitError::MalformedShape => Some("malformed shape".to_owned()),
        JitError::Unparsed(message) => {
            let mut text = String::new();
            add_chars(message, &mut text);
            assert(text@ =~= message@);
            Some(text)
        },
        JitError::Reported(_) => None,
    }
}

/// The message where the type of a constant does not compile.
pub open spec fn const_type_message(place: Place, kind: ConstKind) -> Seq<char> {
    if place is OfType {
        match kind {
            ConstKind::Bool => "failed to compile bool constant"@,
            _ => "failed to compile constant"@,
        }
    } else {
        match kind {
            ConstKind::Number => "unable to compile const generic i32 type"@,
            ConstKind::Bool => "unable to compile const generic bool type"@,
            ConstKind::Array => "unable to compile const generic array type"@,
        }
    }
}

fn const_type_text(place: Place, kind: ConstKind) -> (r: &'static str)
    ensures
        r@ == const_type_message(place, kind),
{
    let of_type = match place {
        Place::OfType => true,
        _ => false,
    };
    if of_type {
        match kind {
            ConstKind::Bool => "failed to compile bool constant",
            _ => "failed to compile constant",
        }
    } else {
        match kind {
            ConstKind::Number => "unable to compile const generic i32 type",
            ConstKind::Bool => "unable to compile const generic bool type",
            ConstKind::Array => "unable to compile const generic array type",
        }
    }
}

/// The message of an error in code generation; none for an error that the backend reported, which
/// has a message of its own.
pub open spec fn compile_message(
    error: CompileError,
    name: Seq<char>,
    receiver: Seq<char>,
    is_method: bool,
) -> Option<Seq<char>> {
    match error {
        CompileError::MissingPayload(_) => Some("inlined `Some` argument is missing its payload"@),
        CompileError::UncompiledPayload(_) => Some("failed to compile inlined `Some` payload"@),
        CompileError::UncompiledArgument(_) => Some("Failed to compile argument: "@ + name),
        CompileError::MethodNotFound(_) => Some(
            "method `"@ + name + "` not found for receiver type `"@ + receiver + "`"@,
        ),
        CompileError::NoReturnType(_) => if is_method {
            Some(
                "Failed to determine typeck return type for inlined method call `"@ + name + "`"@,
            )
        } else {
            Some(
                "Failed to determine typeck return type for inlined function call `"@ + name + "`"@,
            )
        },
        CompileError::UncompiledParam(_) => Some(
            "unable to compile parameter type `"@ + name + "`"@,
        ),
        CompileError::UncompiledConstType { place, kind } => Some(const_type_message(place, kind)),
        CompileError::UncompiledArray(_) => Some("Failed to compile CGA as var."@),
        CompileError::ReturnsValue(_) => Some(
            "returning a value from this function is not supported"@,
        ),
        CompileError::NotConstant { place: _, bounds } => Some(
            "expected a compile-time constant, but got a value with bounds ["@
                + render::signed_decimal(bounds.start as int) + ", "@ + render::signed_decimal(
                bounds.end as int,
            ) + "]"@,
        ),
        CompileError::NotScalar(_) => Some("expected a scalar element type"@),
        CompileError::UndefinedModule => Some("Undefined module: "@ + name),
        CompileError::UndefinedFunction => Some("Undefined function: "@ + name),
        CompileError::MissingEntryAttribute => Some(
            "function `"@ + name + "` is missing a required `#[entry(...)]` attribute"@,
        ),
        CompileError::NotUnsafe => Some(
            "kernel must be declared `unsafe` when `unchecked_accesses` is enabled"@,
        ),
        CompileError::NameCollision => Some("Entry point namespace collision: "@ + name),
        CompileError::TooFewArguments(_) => Some("too few arguments"@),
        CompileError::Untyped(error) => jit_message(error),
        CompileError::TooDeep => Some("nested too deep"@),
        CompileError::Reported(_) => None,
    }
}

fn around(before: &str, name: &str, behind: &str) -> (r: String)
    ensures
        r@ == before@ + name@ + behind@,
{
    let mut text = before.to_owned();
    text.append(name);
    text.append(behind);
    text
}

fn after(before: &str, name: &str) -> (r: String)
    ensures
        r@ == before@ + name@,
{
    let mut text = before.to_owned();
    text.append(name);
    text
}

/// The message of an error in code generation.
pub fn compile_error_text(error: &CompileError, subject: &Subject) -> (r: Option<String>)
    ensures
        match compile_message(*error, subject.name@, subject.receiver@, subject.is_method) {
            Some(message) => r matches Some(text) && text@ == message,
            None => r is None,
        },
{
    let text = match error {
        CompileError::MissingPayload(_) => {
            "inlined `Some` argument is missing its payload".to_owned()
        },
        CompileError::UncompiledPayload(_) => {
            "failed to compile inlined `Some` payload".to_owned()
        },
        CompileError::UncompiledArgument(_) => after("Failed to compile argument: ", subject.name),
        CompileError::MethodNotFound(_) => {
            let mut text = around("method `", subject.name, "` not found for receiver type `");
            text.append(subject.receiver);
            text.append("`");
            text
        },
        CompileError::NoReturnType(_) => if subject.is_method {
            around(
                "Failed to determine typeck return type for inlined method call `",
                subject.name,
                "`",
            )
        } else {
            around(
                "Failed to determine typeck return type for inlined function call `",
                subject.name,
                "`",
            )
        },
        CompileError::UncompiledParam(_) => around(
            "unable to compile parameter type `",
            subject.name,
            "`",
        ),
        CompileError::UncompiledConstType { place, kind } => {
            const_type_text(*place, *kind).to_owned()
        },
        CompileError::UncompiledArray(_) => "Failed to compile CGA as var.".to_owned(),
        CompileError::ReturnsValue(_) => {
            "returning a value from this function is not supported".to_owned()
        },
        CompileError::NotConstant { place: _, bounds } => {
            let mut text = "expected a compile-time constant, but got a value with bounds [".to_owned();
            write_signed(bounds.start, &mut text);
            text.append(", ");
            write_signed(bounds.end, &mut text);
            text.append("]");
            text
        },
        CompileError::NotScalar(_) => "expected a scalar element type".to_owned(),
        CompileError::UndefinedModule => after("Undefined module: ", subject.name),
        CompileError::UndefinedFunction => after("Undefined function: ", subject.name),
        CompileError::MissingEntryAttribute => around(
            "function `",
            subject.name,
            "` is missing a required `#[entry(...)]` attribute",
        ),
        CompileError::NotUnsafe => {
            "kernel must be declared `unsafe` when `unchecked_accesses` is enabled".to_owned()
        },
        CompileError::NameCollision => after("Entry point namespace collision: ", subject.name),
        CompileError::TooFewArguments(_) => "too few arguments".to_owned(),
        CompileError::Untyped(error) => match jit_error_text(error) {
            Some(text) => text,
            None => return None,
        },
        CompileError::TooDeep => "nested too deep".to_owned(),
        CompileError::Reported(_) => return None,
    };
    Some(text)
}

} // verus!

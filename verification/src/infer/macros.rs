//! Macros that list the dimensions of a shape or of an array.
use crate::ask::{self, compile};
use crate::env::{self, find_array, JitError, Stop, TileType};
use crate::exprs::{self, dim_literals, path_last_name};
use crate::infer::state::{Frame, TypeInferenceCx};
use crate::list::{share, List};
use crate::names;
use crate::render::{self, write_signed};
use crate::syntax::{Expr, Path, Symbol, Token};
use crate::types::{self, shape_type};
use std::rc::Rc;
use vstd::prelude::*;

verus! {

/// The message with which `syn` refuses a text as a type; none where it reads a type.
pub uninterp spec fn type_refusal(text: Seq<char>) -> Option<Seq<char>>;

/// Calls `syn::parse_str` for a `syn::Type`, and `to_string` on the error that it gives. Which texts
/// are refused, and with which message, is left to the name of the result; it is claimed to depend
/// on the text alone, which holds outside of procedural macros, where the crate underneath uses its
/// own lexer.
#[verifier::external_body]
fn refuse_type(text: &str) -> (r: Option<String>)
    ensures
        match r {
            Some(message) => type_refusal(text@) == Some(message@),
            None => type_refusal(text@) is None,
        },
{
    match syn::parse_str::<syn::Type>(text) {
        Ok(_) => None,
        Err(error) => Some(error.to_string()),
    }
}

/// The characters of a text as a list.
pub open spec fn text_list(text: Seq<char>) -> List<char>
    decreases text.len(),
{
    if text.len() == 0 {
        List::Nil
    } else {
        List::Cons(Rc::new(text[0]), Rc::new(text_list(text.skip(1))))
    }
}

/// The list of a text's characters holds the text.
pub proof fn list_holds_the_text(text: Seq<char>)
    ensures
        text_list(text)@ == text,
    decreases text.len(),
{
    if text.len() > 0 {
        list_holds_the_text(text.skip(1));
        assert(seq![text[0]] + text.skip(1) =~= text);
    } else {
        assert(text =~= Seq::<char>::empty());
    }
}

fn list_of_text(text: &str) -> (r: List<char>)
    ensures
        r == text_list(text@),
{
    let mut left: usize = text.unicode_len();
    let mut list = List::Nil;
    assert(text@.skip(left as int) =~= Seq::<char>::empty());
    while left > 0
        invariant
            left <= text@.len(),
            list == text_list(text@.skip(left as int)),
        decreases left,
    {
        left -= 1;
        assert(text@.skip(left as int).skip(1) =~= text@.skip(left + 1));
        list = List::prepend(Rc::new(text.get_char(left)), list);
    }
    assert(text@.skip(0) =~= text@);
    list
}

/// The type that a macro of shapes makes.
pub open spec fn macro_shape_name(path: Path) -> Option<Symbol> {
    match exprs::last_name(path) {
        Some(name) => if name == names::CONST_SHAPE {
            Some(names::SHAPE)
        } else if name == names::CONST_ARRAY {
            Some(names::ARRAY)
        } else {
            None
        },
        None => None,
    }
}

/// Numbers in decimal notation.
pub open spec fn decimals(dims: List<i32>) -> Seq<Seq<char>>
    decreases dims,
{
    match dims {
        List::Nil => Seq::empty(),
        List::Cons(dim, rest) => seq![render::signed_decimal(*dim as int)] + decimals(*rest),
    }
}

/// The dimensions that a macro lists, as they are written, with those of an array of constants in
/// place of its name; none where the macro holds what is no list of dimensions.
pub open spec fn macro_texts(f: Frame, tokens: List<Token>) -> Option<Seq<Seq<char>>>
    decreases tokens,
{
    match tokens {
        List::Nil => Some(Seq::empty()),
        List::Cons(token, rest) => match macro_texts(f, *rest) {
            None => None,
            Some(more) => match *token {
                Token::Literal { text, expr: _ } => Some(seq![f.env.names.text_of(text)] + more),
                Token::Ident { name, expr: _ } => match env::array_of(
                    f.env.generic_vars.inst_array,
                    name,
                ) {
                    Some(dims) => Some(decimals(dims) + more),
                    None => Some(seq![f.env.names.text_of(name)] + more),
                },
                Token::Comma => Some(more),
                Token::Other(_) => None,
            },
        },
    }
}

/// Texts with commas between them.
pub open spec fn listed(texts: Seq<Seq<char>>) -> Seq<char>
    decreases texts.len(),
{
    if texts.len() == 0 {
        Seq::empty()
    } else if texts.len() == 1 {
        texts[0]
    } else {
        listed(texts.drop_last()) + ", "@ + texts.last()
    }
}

/// The text of the type of a shape or of an array.
pub open spec fn shape_text(shape: Symbol, texts: Seq<Seq<char>>) -> Seq<char> {
    (if shape == names::SHAPE {
        "Shape"@
    } else {
        "Array"@
    }) + "<{ ["@ + listed(texts) + "] }>"@
}

/// The dimensions that a macro lists, as expressions.
pub open spec fn macro_dims(f: Frame, tokens: List<Token>) -> List<Expr>
    decreases tokens,
{
    match tokens {
        List::Nil => List::Nil,
        List::Cons(token, rest) => {
            let more = macro_dims(f, *rest);
            match *token {
                Token::Literal { text: _, expr } => List::Cons(expr, Rc::new(more)),
                Token::Ident { name, expr } => match env::array_of(
                    f.env.generic_vars.inst_array,
                    name,
                ) {
                    Some(dims) => exprs::dim_exprs(dims).joined(more),
                    None => List::Cons(expr, Rc::new(more)),
                },
                Token::Comma => more,
                Token::Other(_) => more,
            }
        },
    }
}

/// The type that a macro makes, unless the text of that type is refused with a message.
pub open spec fn shape_unless(
    f: Frame,
    shape: Symbol,
    tokens: List<Token>,
    refusal: Option<Seq<char>>,
) -> Result<Option<Rc<TileType>>, Stop> {
    match refusal {
        Some(message) => Err(Stop::Failed(JitError::Unparsed(text_list(message)))),
        None => ask::compiled(f.env, types::shaped_type(shape, macro_dims(f, tokens))),
    }
}

/// The type of a macro call.
pub open spec fn macro_type(
    f: Frame,
    path: Path,
    tokens: List<Token>,
) -> Result<Option<Rc<TileType>>, Stop> {
    match macro_shape_name(path) {
        Some(shape) => match macro_texts(f, tokens) {
            Some(texts) => shape_unless(f, shape, tokens, type_refusal(shape_text(shape, texts))),
            None => Ok(None),
        },
        None => Ok(None),
    }
}

/// Texts, one after the other.
spec fn seen(texts: Seq<String>) -> Seq<Seq<char>> {
    Seq::new(texts.len(), |i: int| texts[i]@)
}

fn add_decimals(dims: &List<i32>, texts: &mut Vec<String>)
    ensures
        seen(final(texts)@) == seen(old(texts)@) + decimals(*dims),
    decreases dims,
{
    if let List::Cons(dim, rest) = dims {
        let mut text = String::new();
        write_signed(**dim as i64, &mut text);
        assert(text@ =~= render::signed_decimal(**dim as int));
        texts.push(text);
        add_decimals(rest, texts);
    }
    assert(seen(texts@) =~= seen(old(texts)@) + decimals(*dims));
}

fn list_texts(texts: &Vec<String>) -> (r: String)
    ensures
        r@ == listed(seen(texts@)),
{
    let mut text = String::new();
    let mut i: usize = 0;
    assert(seen(texts@).take(0) =~= Seq::<Seq<char>>::empty());
    while i < texts.len()
        invariant
            i <= texts@.len(),
            text@ == listed(seen(texts@).take(i as int)),
        decreases texts@.len() - i,
    {
        let ghost next = seen(texts@).take(i + 1);
        assert(next.drop_last() =~= seen(texts@).take(i as int));
        assert(next.last() == texts@[i as int]@);
        if i > 0 {
            text.append(", ");
        }
        text.append(texts[i].as_str());
        i += 1;
        assert(text@ =~= listed(next));
    }
    assert(seen(texts@).take(i as int) =~= seen(texts@));
    text
}

impl<'a> TypeInferenceCx<'a> {
    fn add_texts(&self, tokens: &List<Token>, texts: &mut Vec<String>) -> (r: bool)
        ensures
            match macro_texts(self.frame(), *tokens) {
                Some(more) => r && seen(final(texts)@) == seen(old(texts)@) + more,
                None => !r,
            },
        decreases tokens,
    {
        match tokens {
            List::Nil => {
                assert(seen(texts@) =~= seen(old(texts)@) + Seq::<Seq<char>>::empty());
                true
            },
            List::Cons(token, rest) => {
                match &**token {
                    Token::Literal { text, expr: _ } => {
                        texts.push(self.env.names.text(*text).to_owned());
                    },
                    Token::Ident { name, expr: _ } => match find_array(
                        &self.env.generic_vars.inst_array,
                        *name,
                    ) {
                        Some(dims) => add_decimals(&dims, texts),
                        None => texts.push(self.env.names.text(*name).to_owned()),
                    },
                    Token::Comma => {},
                    Token::Other(_) => return false,
                }
                let ok = self.add_texts(rest, texts);
                proof {
                    if let Some(more) = macro_texts(self.frame(), *tokens) {
                        assert(seen(texts@) =~= seen(old(texts)@) + more);
                    }
                }
                ok
            },
        }
    }

    fn dims_of_macro(&self, tokens: &List<Token>) -> (r: List<Expr>)
        ensures
            r == macro_dims(self.frame(), *tokens),
        decreases tokens,
    {
        match tokens {
            List::Nil => List::Nil,
            List::Cons(token, rest) => {
                let more = self.dims_of_macro(rest);
                match &**token {
                    Token::Literal { text: _, expr } => List::prepend(share(expr), more),
                    Token::Ident { name, expr } => match find_array(
                        &self.env.generic_vars.inst_array,
                        *name,
                    ) {
                        Some(dims) => dim_literals(&dims).join(&more),
                        None => List::prepend(share(expr), more),
                    },
                    Token::Comma => more,
                    Token::Other(_) => more,
                }
            },
        }
    }

    /// The type that a macro makes, unless the text of that type is refused with a message.
    pub fn shape_of_macro(
        &self,
        shape: Symbol,
        tokens: &List<Token>,
        refusal: Option<&str>,
    ) -> (r: Result<Option<Rc<TileType>>, Stop>)
        ensures
            r == shape_unless(
                self.frame(),
                shape,
                *tokens,
                match refusal {
                    Some(message) => Some(message@),
                    None => None,
                },
            ),
    {
        match refusal {
            Some(message) => Err(Stop::Failed(JitError::Unparsed(list_of_text(message)))),
            None => compile(self.env, &shape_type(shape, self.dims_of_macro(tokens))),
        }
    }

    pub fn infer_macro(
        &self,
        path: &Path,
        tokens: &List<Token>,
    ) -> (r: Result<Option<Rc<TileType>>, Stop>)
        ensures
            r == macro_type(self.frame(), *path, *tokens),
    {
        let shape = match path_last_name(path) {
            Some(name) => {
                if name == names::CONST_SHAPE {
                    names::SHAPE
                } else if name == names::CONST_ARRAY {
                    names::ARRAY
                } else {
                    return Ok(None);
                }
            },
            None => return Ok(None),
        };
        let mut texts: Vec<String> = Vec::new();
        let ghost none = seen(texts@);
        if !self.add_texts(tokens, &mut texts) {
            return Ok(None);
        }
        assert(none + macro_texts(self.frame(), *tokens)->0 =~= macro_texts(
            self.frame(),
            *tokens,
        )->0);
        let mut text = (if shape == names::SHAPE {
            "Shape"
        } else {
            "Array"
        }).to_owned();
        text.append("<{ [");
        text.append(list_texts(&texts).as_str());
        text.append("] }>");
        match refuse_type(text.as_str()) {
            Some(message) => self.shape_of_macro(shape, tokens, Some(message.as_str())),
            None => self.shape_of_macro(shape, tokens, None),
        }
    }
}

} // verus!

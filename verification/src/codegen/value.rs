//! Values of a kernel under compilation, and the names bound to them.
use crate::env::TileType;
use crate::list::{share, share_opt, List};
use crate::names::text_eq;
use crate::syntax::{Expr, Symbol, Type};
use std::rc::Rc;
use vstd::prelude::*;

verus! {

/// What is known of an integer: it lies between two numbers, both included.
#[derive(Clone, Copy, PartialEq, Eq, Structural, Debug)]
pub struct Bounds {
    pub start: i64,
    pub end: i64,
}

impl Bounds {
    /// The bounds of a number that is known.
    pub fn exact(value: i64) -> (r: Bounds)
        ensures
            r.start == value,
            r.end == value,
    {
        Bounds { start: value, end: value }
    }

    pub fn is_exact(&self) -> (r: bool)
        ensures
            r == (self.start == self.end),
    {
        self.start == self.end
    }
}

/// A value: what the backend calls it, and what the rules need to know of it.
pub struct Value {
    pub handle: u64,
    pub ty: Rc<TileType>,
    pub mutable: bool,
    /// The variant, where the value is one of an enum.
    pub variant: Option<Symbol>,
    /// What the variant holds.
    pub payload: Option<Rc<Expr>>,
    /// What the type of the value carries along, such as a token.
    pub meta: u64,
    pub bounds: Option<Bounds>,
}

/// A name and the value that it stands for.
pub struct Var {
    pub name: Symbol,
    pub value: Rc<Value>,
}

/// The names in scope: an entry hides those of the same name behind it.
pub struct Context {
    pub vars: List<Var>,
    /// The modules that the code stands in.
    pub modules: List<Symbol>,
    /// Whether a block that ends without a terminator returns.
    pub returns_at_end: bool,
}

/// The value that a name stands for.
pub open spec fn value_of(vars: List<Var>, name: Symbol) -> Option<Rc<Value>>
    decreases vars,
{
    match vars {
        List::Nil => None,
        List::Cons(var, rest) => if var.name == name {
            Some(var.value)
        } else {
            value_of(*rest, name)
        },
    }
}

pub fn find_value(vars: &List<Var>, name: Symbol) -> (r: Option<Rc<Value>>)
    ensures
        r == value_of(*vars, name),
    decreases vars,
{
    match vars {
        List::Nil => None,
        List::Cons(var, rest) => {
            if var.name == name {
                Some(share(&var.value))
            } else {
                find_value(rest, name)
            }
        },
    }
}

/// The names with one more in front.
pub open spec fn with_value(vars: List<Var>, name: Symbol, value: Rc<Value>) -> List<Var> {
    List::Cons(Rc::new(Var { name, value }), Rc::new(vars))
}

/// A name stands for what it was bound to last.
pub proof fn bound_value_is_found(vars: List<Var>, name: Symbol, value: Rc<Value>, other: Symbol)
    ensures
        value_of(with_value(vars, name, value), other) == (if other == name {
            Some(value)
        } else {
            value_of(vars, other)
        }),
{
}

impl Context {
    /// A scope with no names, in a module.
    pub fn within(module: Symbol) -> (r: Context)
        ensures
            r == scope_in(module),
    {
        Context { vars: List::Nil, modules: List::one(Rc::new(module)), returns_at_end: false }
    }

    pub fn dup(&self) -> (r: Context)
        ensures
            r == *self,
    {
        Context {
            vars: self.vars.dup(),
            modules: self.modules.dup(),
            returns_at_end: self.returns_at_end,
        }
    }

    pub fn insert(&mut self, name: Symbol, value: Rc<Value>)
        ensures
            *final(self) == binding(*old(self), name, value),
    {
        self.vars = List::prepend(Rc::new(Var { name, value }), self.vars.dup());
    }
}

/// The scope of a module before any name is bound.
pub open spec fn scope_in(module: Symbol) -> Context {
    Context {
        vars: List::Nil,
        modules: List::Cons(Rc::new(module), Rc::new(List::Nil)),
        returns_at_end: false,
    }
}

/// The scope with one more name.
pub open spec fn binding(scope: Context, name: Symbol, value: Rc<Value>) -> Context {
    Context { vars: with_value(scope.vars, name, value), ..scope }
}

impl Value {
    pub fn dup(&self) -> (r: Value)
        ensures
            r == *self,
    {
        Value {
            handle: self.handle,
            ty: share(&self.ty),
            mutable: self.mutable,
            variant: self.variant,
            payload: share_opt(&self.payload),
            meta: self.meta,
            bounds: self.bounds,
        }
    }
}

/// A compiled type under another type as written.
pub open spec fn written_as(tile: TileType, ty: Rc<Type>) -> TileType {
    TileType { rust_ty: ty, ..tile }
}

pub fn write_as(tile: &TileType, ty: &Rc<Type>) -> (r: Rc<TileType>)
    ensures
        *r == written_as(*tile, *ty),
{
    Rc::new(TileType { rust_ty: share(ty), params: tile.params.dup(), handle: tile.handle })
}

// What an inlined body changes in the names of its caller.

/// A name of the caller and the parameter that it was passed as.
pub struct Passed {
    pub outer: Symbol,
    pub inner: Symbol,
}

/// The parameter that a name was passed as; the last one where there are several.
pub open spec fn passed_as(passed: List<Passed>, name: Symbol) -> Option<Symbol>
    decreases passed,
{
    match passed {
        List::Nil => None,
        List::Cons(pair, rest) => if pair.outer == name {
            Some(pair.inner)
        } else {
            passed_as(*rest, name)
        },
    }
}

fn find_passed(passed: &List<Passed>, name: Symbol) -> (r: Option<Symbol>)
    ensures
        r == passed_as(*passed, name),
    decreases passed,
{
    match passed {
        List::Nil => None,
        List::Cons(pair, rest) => {
            if pair.outer == name {
                Some(pair.inner)
            } else {
                find_passed(rest, name)
            }
        },
    }
}

/// A value after an inlined body: a mutable one that was passed as a mutable parameter takes over
/// what that parameter's type carries at the end.
pub open spec fn after_body(
    inner: List<Var>,
    passed: List<Passed>,
    name: Symbol,
    value: Value,
) -> Value {
    match passed_as(passed, name) {
        Some(param) => match value_of(inner, param) {
            Some(end) => if value.mutable && end.mutable {
                Value { meta: end.meta, ..value }
            } else {
                value
            },
            None => value,
        },
        None => value,
    }
}

/// The names of the caller after an inlined body.
pub open spec fn vars_after_body(inner: List<Var>, passed: List<Passed>, outer: List<Var>) -> List<
    Var,
>
    decreases outer,
{
    match outer {
        List::Nil => List::Nil,
        List::Cons(var, rest) => List::Cons(
            Rc::new(
                Var {
                    name: var.name,
                    value: Rc::new(after_body(inner, passed, var.name, *var.value)),
                },
            ),
            Rc::new(vars_after_body(inner, passed, *rest)),
        ),
    }
}

pub fn update_type_meta(
    inner: &List<Var>,
    outer: &List<Var>,
    passed: &List<Passed>,
) -> (r: List<Var>)
    ensures
        r == vars_after_body(*inner, *passed, *outer),
    decreases outer,
{
    match outer {
        List::Nil => List::Nil,
        List::Cons(var, rest) => {
            let mut value = var.value.dup();
            if value.mutable {
                if let Some(param) = find_passed(passed, var.name) {
                    if let Some(end) = find_value(inner, param) {
                        if end.mutable {
                            value.meta = end.meta;
                        }
                    }
                }
            }
            List::prepend(
                Rc::new(Var { name: var.name, value: Rc::new(value) }),
                update_type_meta(inner, rest, passed),
            )
        },
    }
}

/// An inlined body gives no name to its caller and takes none away; of a value it changes nothing
/// but what its type carries, and that only where the value is mutable and was passed.
pub proof fn body_changes_only_what_was_passed(
    inner: List<Var>,
    passed: List<Passed>,
    outer: List<Var>,
    name: Symbol,
)
    ensures
        value_of(vars_after_body(inner, passed, outer), name) == (match value_of(outer, name) {
            Some(value) => Some(Rc::new(after_body(inner, passed, name, *value))),
            None => None,
        }),
        value_of(outer, name) matches Some(value) ==> {
            let after = after_body(inner, passed, name, *value);
            &&& after == (Value { meta: after.meta, ..*value })
            &&& !value.mutable || passed_as(passed, name) is None ==> after == *value
        },
    decreases outer,
{
    if let List::Cons(var, rest) = outer {
        if var.name != name {
            body_changes_only_what_was_passed(inner, passed, crate::list::held(&rest), name);
        }
    }
}

// Modules.

/// Where the last segment of a path of modules starts, looking no further than a position.
pub open spec fn segment_start(text: Seq<char>, before: nat) -> nat
    decreases before,
{
    if before < 2 {
        0
    } else if text[before - 2] == ':' && text[before - 1] == ':' {
        before
    } else {
        segment_start(text, (before - 1) as nat)
    }
}

/// The last segment of a path of modules: what stands behind the last `::`, or all of it.
pub open spec fn last_segment(text: Seq<char>) -> Seq<char> {
    text.skip(segment_start(text, text.len()) as int)
}

/// Whether two paths name the same module: they are equal, or their last segments are.
pub open spec fn same_module(a: Seq<char>, b: Seq<char>) -> bool {
    a == b || last_segment(a) == last_segment(b)
}

fn find_last_segment<'a>(text: &'a str) -> (r: &'a str)
    ensures
        r@ == last_segment(text@),
{
    let n: usize = text.unicode_len();
    let mut before: usize = n;
    while before >= 2
        invariant
            n == text@.len(),
            before <= n,
            segment_start(text@, text@.len()) == segment_start(text@, before as nat),
        decreases before,
    {
        if text.get_char(before - 2) == ':' && text.get_char(before - 1) == ':' {
            assert(text@.subrange(before as int, n as int) =~= text@.skip(before as int));
            return text.substring_char(before, n);
        }
        before -= 1;
    }
    assert(text@.skip(0) =~= text@);
    text
}

pub fn same_module_identity(a: &str, b: &str) -> (r: bool)
    ensures
        r == same_module(a@, b@),
{
    text_eq(a, b) || text_eq(find_last_segment(a), find_last_segment(b))
}

/// The last segment of a path has no segments of its own.
pub proof fn last_segment_is_one(text: Seq<char>)
    ensures
        last_segment(last_segment(text)) == last_segment(text),
{
    let start = segment_start(text, text.len());
    segment_start_is_last(text, text.len());
    let tail = last_segment(text);
    no_segment_no_start(tail, tail.len());
    assert(tail.skip(0) =~= tail);
}

proof fn segment_start_is_last(text: Seq<char>, before: nat)
    requires
        before <= text.len(),
    ensures
        segment_start(text, before) <= before,
        forall|i: int|
            segment_start(text, before) <= i && i + 2 <= before ==> !(#[trigger] text[i] == ':'
                && text[i + 1] == ':'),
    decreases before,
{
    if before >= 2 && !(text[before - 2] == ':' && text[before - 1] == ':') {
        segment_start_is_last(text, (before - 1) as nat);
    }
}

proof fn no_segment_no_start(text: Seq<char>, before: nat)
    requires
        before <= text.len(),
        forall|i: int| 0 <= i && i + 2 <= text.len() ==> !(#[trigger] text[i] == ':' && text[i + 1] == ':'),
    ensures
        segment_start(text, before) == 0,
    decreases before,
{
    if before >= 2 {
        assert(text[before - 2] != ':' || text[before - 2 + 1] != ':');
        no_segment_no_start(text, (before - 1) as nat);
    }
}

/// The last segment of a path is what stands behind its last `::`.
pub proof fn last_segment_stands_behind(front: Seq<char>, segment: Seq<char>)
    requires
        forall|i: int|
            0 <= i && i + 2 <= segment.len() ==> !(#[trigger] segment[i] == ':' && segment[i + 1]
                == ':'),
        segment.len() > 0 ==> segment[0] != ':',
    ensures
        last_segment(front + seq![':', ':'] + segment) == segment,
        last_segment(segment) == segment,
{
    let text = front + seq![':', ':'] + segment;
    let at = front.len() + 2;
    segment_starts_at(text, at as nat, text.len());
    assert(text.skip(at as int) =~= segment);
    no_segment_no_start(segment, segment.len());
    assert(segment.skip(0) =~= segment);
}

proof fn segment_starts_at(text: Seq<char>, at: nat, before: nat)
    requires
        2 <= at <= before <= text.len(),
        text[at - 2] == ':',
        text[at - 1] == ':',
        forall|i: int| at <= i && i + 2 <= text.len() ==> !(#[trigger] text[i] == ':' && text[i + 1] == ':'),
        at < text.len() ==> text[at as int] != ':',
    ensures
        segment_start(text, before) == at,
    decreases before,
{
    if before > at {
        if before >= at + 2 {
            assert(!(text[before - 2] == ':' && text[before - 2 + 1] == ':'));
        }
        segment_starts_at(text, at, (before - 1) as nat);
    }
}

/// Paths name the same module where their last segments are the same, and only there.
pub proof fn modules_are_told_by_their_last_segment(
    a: Seq<char>,
    b: Seq<char>,
    first: Seq<char>,
    second: Seq<char>,
)
    requires
        last_segment(a) == first,
        last_segment(b) == second,
    ensures
        same_module(a, b) <==> first == second,
{
}

} // verus!

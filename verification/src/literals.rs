//! Integer literals, from their text.
use crate::names::{text_eq, Names};
use crate::render::{self, write_decimal};
use crate::syntax::{Lit, Symbol};
use vstd::prelude::*;

verus! {

/// The parts that `syn` reads of the text of an integer literal: its digits in decimal notation, and
/// its suffix; none where the text is no integer literal.
pub uninterp spec fn int_literal_parts(text: Seq<char>) -> Option<(Seq<char>, Seq<char>)>;

/// Calls `syn::parse_str` for a `syn::LitInt`, and `base10_digits` and `suffix` on what it gives. How
/// a literal is read is left to the name of the result.
#[verifier::external_body]
fn split_int_literal(text: &str) -> (r: Option<(String, String)>)
    ensures
        match r {
            Some((digits, suffix)) => int_literal_parts(text@) == Some((digits@, suffix@)),
            None => int_literal_parts(text@) is None,
        },
{
    match syn::parse_str::<syn::LitInt>(text) {
        Ok(lit) => Some((lit.base10_digits().to_owned(), lit.suffix().to_owned())),
        Err(_) => None,
    }
}

/// Whether a text is made of decimal digits.
pub open spec fn all_digits(text: Seq<char>) -> bool {
    text.len() > 0 && forall|i: int| 0 <= i < text.len() ==> '0' <= #[trigger] text[i] <= '9'
}

/// The number that decimal digits stand for, where 128 bits hold it.
pub open spec fn digits_value(digits: Seq<char>) -> Option<u128> {
    if all_digits(digits) && render::decimal_value(digits) <= u128::MAX {
        Some(render::decimal_value(digits) as u128)
    } else {
        None
    }
}

proof fn more_digits_are_no_less(digits: Seq<char>, count: int)
    requires
        0 <= count <= digits.len(),
        forall|i: int| 0 <= i < digits.len() ==> '0' <= #[trigger] digits[i] <= '9',
    ensures
        render::decimal_value(digits.take(count)) <= render::decimal_value(digits),
    decreases digits.len(),
{
    if count < digits.len() {
        let front = digits.drop_last();
        assert forall|i: int| 0 <= i < front.len() implies '0' <= #[trigger] front[i] <= '9' by {
            assert(front[i] == digits[i]);
        }
        more_digits_are_no_less(front, count);
        assert(front.take(count) =~= digits.take(count));
    } else {
        assert(digits.take(count) =~= digits);
    }
}

fn read_digits(digits: &str) -> (r: Option<u128>)
    ensures
        r == digits_value(digits@),
{
    let n: usize = digits.unicode_len();
    if n == 0 {
        return None;
    }
    let mut i: usize = 0;
    while i < n
        invariant
            n == digits@.len(),
            i <= n,
            forall|k: int| 0 <= k < i ==> '0' <= #[trigger] digits@[k] <= '9',
        decreases n - i,
    {
        let c = digits.get_char(i);
        if c < '0' || c > '9' {
            assert(!('0' <= digits@[i as int] <= '9'));
            return None;
        }
        i += 1;
    }
    let mut value: u128 = 0;
    let mut i: usize = 0;
    assert(digits@.take(0) =~= Seq::<char>::empty());
    while i < n
        invariant
            n == digits@.len(),
            i <= n,
            all_digits(digits@),
            value == render::decimal_value(digits@.take(i as int)),
        decreases n - i,
    {
        let c = digits.get_char(i);
        assert('0' <= digits@[i as int] <= '9');
        let ghost next = digits@.take(i + 1);
        assert(next.drop_last() =~= digits@.take(i as int));
        assert(next.last() == c);
        proof {
            more_digits_are_no_less(digits@, i + 1);
        }
        let digit: u128 = (c as u32 - 48) as u128;
        let tens = match value.checked_mul(10) {
            Some(tens) => tens,
            None => return None,
        };
        value = match tens.checked_add(digit) {
            Some(sum) => sum,
            None => return None,
        };
        i += 1;
    }
    assert(digits@.take(n as int) =~= digits@);
    Some(value)
}

/// Whether a text ends with another.
pub open spec fn ends_with(text: Seq<char>, end: Seq<char>) -> bool {
    end.len() <= text.len() && text.skip(text.len() - end.len()) == end
}

/// The text of a literal without its suffix.
pub open spec fn without_suffix(text: Seq<char>, suffix: Seq<char>) -> Seq<char> {
    if ends_with(text, suffix) {
        text.take(text.len() - suffix.len())
    } else {
        text
    }
}

fn cut_suffix<'a>(text: &'a str, suffix: &str) -> (r: &'a str)
    ensures
        r@ == without_suffix(text@, suffix@),
{
    let n: usize = text.unicode_len();
    let m: usize = suffix.unicode_len();
    if m > n {
        return text;
    }
    assert(text@.subrange(n - m, n as int) =~= text@.skip(n - m));
    if text_eq(text.substring_char(n - m, n), suffix) {
        assert(text@.subrange(0, n - m) =~= text@.take(n - m));
        text.substring_char(0, n - m)
    } else {
        text
    }
}

/// Whether a literal is the one of a text, its digits and its suffix: it holds the number, how the
/// digits are written where that is not the plain notation of the number, and the suffix where there
/// is one.
pub open spec fn is_int_literal(
    names: Names,
    text: Seq<char>,
    digits: Seq<char>,
    suffix: Seq<char>,
    lit: Lit,
) -> bool {
    match lit {
        Lit::Int { value, spelling, suffix: marked } => {
            let written = without_suffix(text, suffix);
            let plain = digits_value(digits) matches Some(number) && render::decimal(number as nat)
                == written;
            &&& value == digits_value(digits)
            &&& match spelling {
                Some(name) => !plain && names.text_of(name) == written,
                None => plain,
            }
            &&& match marked {
                Some(name) => suffix.len() > 0 && names.text_of(name) == suffix,
                None => suffix.len() == 0,
            }
        },
        _ => false,
    }
}

/// Makes the literal of a text from its digits and its suffix; none where the table of names is
/// full.
pub fn make_int_literal(
    names: &mut Names,
    text: &str,
    digits: &str,
    suffix: &str,
) -> (r: Option<Lit>)
    requires
        old(names).wf(),
    ensures
        final(names).wf(),
        old(names)@.is_prefix_of(final(names)@),
        match r {
            Some(lit) => is_int_literal(*final(names), text@, digits@, suffix@, lit),
            None => final(names)@.len() == u32::MAX,
        },
{
    let value = read_digits(digits);
    let written = cut_suffix(text, suffix);
    let plain = match value {
        Some(number) => {
            let mut notation = String::new();
            write_decimal(number, &mut notation);
            assert(notation@ =~= render::decimal(number as nat));
            text_eq(notation.as_str(), written)
        },
        None => false,
    };
    let ghost before = names@;
    let spelling: Option<Symbol> = if plain {
        None
    } else {
        match names.intern(written) {
            Some(name) => Some(name),
            None => return None,
        }
    };
    let ghost mid = names@;
    let marked: Option<Symbol> = if suffix.unicode_len() == 0 {
        None
    } else {
        match names.intern(suffix) {
            Some(name) => Some(name),
            None => return None,
        }
    };
    proof {
        assert(mid.is_prefix_of(names@));
        assert(before.is_prefix_of(names@)) by {
            assert forall|i: int| 0 <= i < before.len() implies before[i] == names@[i] by {
                assert(mid[i] == before[i]);
            }
        }
    }
    Some(Lit::Int { value, spelling, suffix: marked })
}

/// What came of the text of an integer literal.
pub enum ReadLiteral {
    Literal(Lit),
    /// The text is no integer literal.
    NotAnInteger,
    /// The table of names is full.
    NamesFull,
}

/// Reads the text of an integer literal.
pub fn read_int_literal(names: &mut Names, text: &str) -> (r: ReadLiteral)
    requires
        old(names).wf(),
    ensures
        final(names).wf(),
        old(names)@.is_prefix_of(final(names)@),
        match int_literal_parts(text@) {
            Some((digits, suffix)) => match r {
                ReadLiteral::Literal(lit) => is_int_literal(
                    *final(names),
                    text@,
                    digits,
                    suffix,
                    lit,
                ),
                ReadLiteral::NotAnInteger => false,
                ReadLiteral::NamesFull => final(names)@.len() == u32::MAX,
            },
            None => r is NotAnInteger && final(names)@ == old(names)@,
        },
{
    match split_int_literal(text) {
        Some((digits, suffix)) => {
            match make_int_literal(names, text, digits.as_str(), suffix.as_str()) {
                Some(lit) => ReadLiteral::Literal(lit),
                None => ReadLiteral::NamesFull,
            }
        },
        None => ReadLiteral::NotAnInteger,
    }
}

/// The digits of a number stand for it, where 128 bits hold it; a text with another character, and an
/// empty one, stand for none.
pub proof fn digits_stand_for_their_number(value: nat, text: Seq<char>, i: int)
    ensures
        value <= u128::MAX ==> (digits_value(render::decimal(value)) matches Some(number) && number
            == value),
        value > u128::MAX ==> digits_value(render::decimal(value)) is None,
        0 <= i < text.len() && !('0' <= text[i] <= '9') ==> digits_value(text) is None,
        text.len() == 0 ==> digits_value(text) is None,
{
    render::decimal_reads_back(value);
}

/// A suffix is cut off where the text ends with it.
pub proof fn suffix_is_cut_off(front: Seq<char>, suffix: Seq<char>)
    ensures
        without_suffix(front + suffix, suffix) == front,
{
    let text = front + suffix;
    assert(text.skip(text.len() - suffix.len()) =~= suffix);
    assert(text.take(text.len() - suffix.len()) =~= front);
}

/// A literal is written as it was read.
pub proof fn literal_is_written_as_read(
    names: Names,
    text: Seq<char>,
    digits: Seq<char>,
    suffix: Seq<char>,
    lit: Lit,
)
    requires
        is_int_literal(names, text, digits, suffix, lit),
        ends_with(text, suffix),
    ensures
        render::lit_text(names, lit) == text,
{
    let written = without_suffix(text, suffix);
    assert(written + suffix =~= text) by {
        let k = text.len() - suffix.len();
        assert forall|i: int| 0 <= i < text.len() implies (written + suffix)[i] == text[i] by {
            if i >= k {
                assert(text.skip(k)[i - k] == text[i]);
            }
        }
    }
    if suffix.len() == 0 {
        assert(suffix =~= Seq::<char>::empty());
    }
    if let Lit::Int { value, spelling, suffix: marked } = lit {
        let head = match (spelling, value) {
            (Some(spelling), _) => names.text_of(spelling),
            (None, Some(value)) => render::decimal(value as nat),
            (None, None) => Seq::empty(),
        };
        assert(head == written);
        assert(render::suffix_text(names, marked) =~= suffix);
    }
}

} // verus!

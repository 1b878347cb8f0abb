//! Names: the table that holds their texts, and the names that the rules of inference speak of.
use crate::syntax::Symbol;
use vstd::prelude::*;

verus! {

/// `bool`
pub const BOOL: Symbol = 0;

/// `i8`
pub const I8: Symbol = 1;

/// `i16`
pub const I16: Symbol = 2;

/// `i32`
pub const I32: Symbol = 3;

/// `i64`
pub const I64: Symbol = 4;

/// `i128`
pub const I128: Symbol = 5;

/// `isize`
pub const ISIZE: Symbol = 6;

/// `u8`
pub const U8: Symbol = 7;

/// `u16`
pub const U16: Symbol = 8;

/// `u32`
pub const U32: Symbol = 9;

/// `u64`
pub const U64: Symbol = 10;

/// `u128`
pub const U128: Symbol = 11;

/// `usize`
pub const USIZE: Symbol = 12;

/// `f32`
pub const F32: Symbol = 13;

/// `f64`
pub const F64: Symbol = 14;

/// `Option`
pub const OPTION: Symbol = 15;

/// `Some`
pub const WITH_VALUE: Symbol = 16;

/// `None`
pub const NO_VALUE: Symbol = 17;

/// `Self`
pub const SELF_TYPE: Symbol = 18;

/// `Dim`
pub const DIM: Symbol = 19;

/// `new`
pub const NEW: Symbol = 20;

/// `Shape`
pub const SHAPE: Symbol = 21;

/// `Array`
pub const ARRAY: Symbol = 22;

/// `Tile`
pub const TILE: Symbol = 23;

/// `Token`
pub const TOKEN: Symbol = 24;

/// `PartitionIndex`
pub const PARTITION_INDEX: Symbol = 25;

/// `Global`
pub const GLOBAL: Symbol = 26;

/// `iter_indices`
pub const ITER_INDICES: Symbol = 27;

/// `step_by`
pub const STEP_BY: Symbol = 28;

/// `const_shape`
pub const CONST_SHAPE: Symbol = 29;

/// `const_array`
pub const CONST_ARRAY: Symbol = 30;

/// `load`
pub const LOAD: Symbol = 31;

/// `store`
pub const STORE: Symbol = 32;

/// `atomic_add`
pub const ATOMIC_ADD: Symbol = 33;

/// `Fn`
pub const FN: Symbol = 34;

/// `FnMut`
pub const FN_MUT: Symbol = 35;

/// `FnOnce`
pub const FN_ONCE: Symbol = 36;

/// `ElementType`
pub const ELEMENT_TYPE: Symbol = 37;

/// `Scalar`
pub const SCALAR: Symbol = 38;

/// `padding_value`
pub const PADDING_VALUE: Symbol = 39;

/// `dim_map`
pub const DIM_MAP: Symbol = 40;

/// `Identity`
pub const IDENTITY: Symbol = 41;

/// How many names every table starts with.
pub const KNOWN: Symbol = 42;

/// The text of a name that every table starts with.
pub open spec fn known_text(name: int) -> Seq<char> {
    if name == BOOL {
        "bool"@
    } else if name == I8 {
        "i8"@
    } else if name == I16 {
        "i16"@
    } else if name == I32 {
        "i32"@
    } else if name == I64 {
        "i64"@
    } else if name == I128 {
        "i128"@
    } else if name == ISIZE {
        "isize"@
    } else if name == U8 {
        "u8"@
    } else if name == U16 {
        "u16"@
    } else if name == U32 {
        "u32"@
    } else if name == U64 {
        "u64"@
    } else if name == U128 {
        "u128"@
    } else if name == USIZE {
        "usize"@
    } else if name == F32 {
        "f32"@
    } else if name == F64 {
        "f64"@
    } else if name == OPTION {
        "Option"@
    } else if name == WITH_VALUE {
        "Some"@
    } else if name == NO_VALUE {
        "None"@
    } else if name == SELF_TYPE {
        "Self"@
    } else if name == DIM {
        "Dim"@
    } else if name == NEW {
        "new"@
    } else if name == SHAPE {
        "Shape"@
    } else if name == ARRAY {
        "Array"@
    } else if name == TILE {
        "Tile"@
    } else if name == TOKEN {
        "Token"@
    } else if name == PARTITION_INDEX {
        "PartitionIndex"@
    } else if name == GLOBAL {
        "Global"@
    } else if name == ITER_INDICES {
        "iter_indices"@
    } else if name == STEP_BY {
        "step_by"@
    } else if name == CONST_SHAPE {
        "const_shape"@
    } else if name == CONST_ARRAY {
        "const_array"@
    } else if name == LOAD {
        "load"@
    } else if name == STORE {
        "store"@
    } else if name == ATOMIC_ADD {
        "atomic_add"@
    } else if name == FN {
        "Fn"@
    } else if name == FN_MUT {
        "FnMut"@
    } else if name == FN_ONCE {
        "FnOnce"@
    } else if name == ELEMENT_TYPE {
        "ElementType"@
    } else if name == SCALAR {
        "Scalar"@
    } else if name == PADDING_VALUE {
        "padding_value"@
    } else if name == DIM_MAP {
        "dim_map"@
    } else if name == IDENTITY {
        "Identity"@
    } else {
        Seq::empty()
    }
}

/// Whether two texts are the same.
pub fn text_eq(a: &str, b: &str) -> (r: bool)
    ensures
        r == (a@ == b@),
{
    a.to_owned() == b.to_owned()
}

/// Whether a text starts with another.
pub open spec fn starts(text: Seq<char>, prefix: Seq<char>) -> bool {
    prefix.len() <= text.len() && text.subrange(0, prefix.len() as int) == prefix
}

pub fn starts_with(text: &str, prefix: &str) -> (r: bool)
    ensures
        r == starts(text@, prefix@),
{
    let n: usize = prefix.unicode_len();
    if text.unicode_len() < n {
        return false;
    }
    text_eq(text.substring_char(0, n), prefix)
}

/// The texts of all names, each at the position that is its symbol.
pub struct Names {
    table: Vec<String>,
}

impl View for Names {
    type V = Seq<Seq<char>>;

    closed spec fn view(&self) -> Seq<Seq<char>> {
        Seq::new(self.table@.len(), |i: int| self.table@[i]@)
    }
}

impl Names {
    /// No text occurs twice, and the known names stand at their positions.
    pub open spec fn wf(self) -> bool {
        &&& KNOWN <= self@.len() <= u32::MAX
        &&& forall|i: int| 0 <= i < KNOWN ==> #[trigger] self@[i] == known_text(i)
        &&& forall|i: int, j: int|
            0 <= i < j < self@.len() ==> #[trigger] self@[i] != #[trigger] self@[j]
    }

    /// The text of a name; a name that the table does not hold has none.
    pub open spec fn text_of(self, name: Symbol) -> Seq<char> {
        if name < self@.len() {
            self@[name as int]
        } else {
            Seq::empty()
        }
    }

    /// The text of a name, empty where the table does not hold the name.
    pub fn text(&self, name: Symbol) -> (r: &str)
        ensures
            r@ == self.text_of(name),
    {
        if (name as usize) < self.table.len() {
            self.table[name as usize].as_str()
        } else {
            proof {
                reveal_strlit("");
            }
            assert(""@ =~= Seq::<char>::empty());
            ""
        }
    }

    /// A table of the known names alone.
    pub fn new() -> (r: Names)
        ensures
            r.wf(),
            r@.len() == KNOWN,
    {
        let mut table: Vec<String> = Vec::new();
        table.push("bool".to_owned());
        table.push("i8".to_owned());
        table.push("i16".to_owned());
        table.push("i32".to_owned());
        table.push("i64".to_owned());
        table.push("i128".to_owned());
        table.push("isize".to_owned());
        table.push("u8".to_owned());
        table.push("u16".to_owned());
        table.push("u32".to_owned());
        table.push("u64".to_owned());
        table.push("u128".to_owned());
        table.push("usize".to_owned());
        table.push("f32".to_owned());
        table.push("f64".to_owned());
        table.push("Option".to_owned());
        table.push("Some".to_owned());
        table.push("None".to_owned());
        table.push("Self".to_owned());
        table.push("Dim".to_owned());
        table.push("new".to_owned());
        table.push("Shape".to_owned());
        table.push("Array".to_owned());
        table.push("Tile".to_owned());
        table.push("Token".to_owned());
        table.push("PartitionIndex".to_owned());
        table.push("Global".to_owned());
        table.push("iter_indices".to_owned());
        table.push("step_by".to_owned());
        table.push("const_shape".to_owned());
        table.push("const_array".to_owned());
        table.push("load".to_owned());
        table.push("store".to_owned());
        table.push("atomic_add".to_owned());
        table.push("Fn".to_owned());
        table.push("FnMut".to_owned());
        table.push("FnOnce".to_owned());
        table.push("ElementType".to_owned());
        table.push("Scalar".to_owned());
        table.push("padding_value".to_owned());
        table.push("dim_map".to_owned());
        table.push("Identity".to_owned());
        let r = Names { table };
        proof {
            lemma_known_texts_differ();
            assert forall|i: int| 0 <= i < KNOWN implies #[trigger] r@[i] == known_text(i) by {}
            assert forall|i: int, j: int| 0 <= i < j < r@.len() implies #[trigger] r@[i]
                != #[trigger] r@[j] by {
                assert(r@[i] == known_text(i));
                assert(r@[j] == known_text(j));
            }
        }
        r
    }

    /// The symbol of a text: the one that it has, or a new one, or none where the table is full.
    pub fn intern(&mut self, text: &str) -> (r: Option<Symbol>)
        requires
            old(self).wf(),
        ensures
            final(self).wf(),
            old(self)@.is_prefix_of(final(self)@),
            r matches Some(name) ==> name < final(self)@.len() && final(self)@[name as int] == text@,
            old(self)@.contains(text@) ==> final(self)@ == old(self)@ && r is Some,
            !old(self)@.contains(text@) && r is Some ==> final(self)@ == old(self)@.push(text@),
            r is None <==> !old(self)@.contains(text@) && old(self)@.len() == u32::MAX,
            r is None ==> final(self)@ == old(self)@,
    {
        let mut i: usize = 0;
        while i < self.table.len()
            invariant
                i <= self.table@.len(),
                self@.len() == self.table@.len(),
                *self == *old(self),
                self.wf(),
                forall|j: int| 0 <= j < i ==> #[trigger] self@[j] != text@,
            decreases self.table@.len() - i,
        {
            if text_eq(self.table[i].as_str(), text) {
                assert(self@[i as int] == text@);
                return Some(i as u32);
            }
            assert(self@[i as int] != text@);
            i += 1;
        }
        if self.table.len() >= u32::MAX as usize {
            return None;
        }
        let name: u32 = self.table.len() as u32;
        self.table.push(text.to_owned());
        assert(self@ =~= old(self)@.push(text@));
        Some(name)
    }
}

/// What tells the texts of known names apart: length, first, last and second character.
spec fn features(text: Seq<char>) -> (nat, char, char, char) {
    (text.len(), text[0], text.last(), text[1])
}

/// The known names have different texts.
proof fn lemma_known_texts_differ()
    ensures
        forall|i: int, j: int|
            0 <= i < j < KNOWN ==> #[trigger] known_text(i) != #[trigger] known_text(j),
{
    reveal_strlit("bool");
    assert(features(known_text(0)) == (4nat, 'b', 'l', 'o'));
    reveal_strlit("i8");
    assert(features(known_text(1)) == (2nat, 'i', '8', '8'));
    reveal_strlit("i16");
    assert(features(known_text(2)) == (3nat, 'i', '6', '1'));
    reveal_strlit("i32");
    assert(features(known_text(3)) == (3nat, 'i', '2', '3'));
    reveal_strlit("i64");
    assert(features(known_text(4)) == (3nat, 'i', '4', '6'));
    reveal_strlit("i128");
    assert(features(known_text(5)) == (4nat, 'i', '8', '1'));
    reveal_strlit("isize");
    assert(features(known_text(6)) == (5nat, 'i', 'e', 's'));
    reveal_strlit("u8");
    assert(features(known_text(7)) == (2nat, 'u', '8', '8'));
    reveal_strlit("u16");
    assert(features(known_text(8)) == (3nat, 'u', '6', '1'));
    reveal_strlit("u32");
    assert(features(known_text(9)) == (3nat, 'u', '2', '3'));
    reveal_strlit("u64");
    assert(features(known_text(10)) == (3nat, 'u', '4', '6'));
    reveal_strlit("u128");
    assert(features(known_text(11)) == (4nat, 'u', '8', '1'));
    reveal_strlit("usize");
    assert(features(known_text(12)) == (5nat, 'u', 'e', 's'));
    reveal_strlit("f32");
    assert(features(known_text(13)) == (3nat, 'f', '2', '3'));
    reveal_strlit("f64");
    assert(features(known_text(14)) == (3nat, 'f', '4', '6'));
    reveal_strlit("Option");
    assert(features(known_text(15)) == (6nat, 'O', 'n', 'p'));
    reveal_strlit("Some");
    assert(features(known_text(16)) == (4nat, 'S', 'e', 'o'));
    reveal_strlit("None");
    assert(features(known_text(17)) == (4nat, 'N', 'e', 'o'));
    reveal_strlit("Self");
    assert(features(known_text(18)) == (4nat, 'S', 'f', 'e'));
    reveal_strlit("Dim");
    assert(features(known_text(19)) == (3nat, 'D', 'm', 'i'));
    reveal_strlit("new");
    assert(features(known_text(20)) == (3nat, 'n', 'w', 'e'));
    reveal_strlit("Shape");
    assert(features(known_text(21)) == (5nat, 'S', 'e', 'h'));
    reveal_strlit("Array");
    assert(features(known_text(22)) == (5nat, 'A', 'y', 'r'));
    reveal_strlit("Tile");
    assert(features(known_text(23)) == (4nat, 'T', 'e', 'i'));
    reveal_strlit("Token");
    assert(features(known_text(24)) == (5nat, 'T', 'n', 'o'));
    reveal_strlit("PartitionIndex");
    assert(features(known_text(25)) == (14nat, 'P', 'x', 'a'));
    reveal_strlit("Global");
    assert(features(known_text(26)) == (6nat, 'G', 'l', 'l'));
    reveal_strlit("iter_indices");
    assert(features(known_text(27)) == (12nat, 'i', 's', 't'));
    reveal_strlit("step_by");
    assert(features(known_text(28)) == (7nat, 's', 'y', 't'));
    reveal_strlit("const_shape");
    assert(features(known_text(29)) == (11nat, 'c', 'e', 'o'));
    reveal_strlit("const_array");
    assert(features(known_text(30)) == (11nat, 'c', 'y', 'o'));
    reveal_strlit("load");
    assert(features(known_text(31)) == (4nat, 'l', 'd', 'o'));
    reveal_strlit("store");
    assert(features(known_text(32)) == (5nat, 's', 'e', 't'));
    reveal_strlit("atomic_add");
    assert(features(known_text(33)) == (10nat, 'a', 'd', 't'));
    reveal_strlit("Fn");
    assert(features(known_text(34)) == (2nat, 'F', 'n', 'n'));
    reveal_strlit("FnMut");
    assert(features(known_text(35)) == (5nat, 'F', 't', 'n'));
    reveal_strlit("FnOnce");
    assert(features(known_text(36)) == (6nat, 'F', 'e', 'n'));
    reveal_strlit("ElementType");
    assert(features(known_text(37)) == (11nat, 'E', 'e', 'l'));
    reveal_strlit("Scalar");
    assert(features(known_text(38)) == (6nat, 'S', 'r', 'c'));
    reveal_strlit("padding_value");
    assert(features(known_text(39)) == (13nat, 'p', 'e', 'a'));
    reveal_strlit("dim_map");
    assert(features(known_text(40)) == (7nat, 'd', 'p', 'i'));
    reveal_strlit("Identity");
    assert(features(known_text(41)) == (8nat, 'I', 'y', 'd'));
}

/// In a table, a known name is the only one with its text.
pub proof fn known_name_is_its_text(names: Names, name: Symbol, known: Symbol)
    requires
        names.wf(),
        name < names@.len(),
        known < KNOWN,
    ensures
        name == known <==> names.text_of(name) == known_text(known as int),
{
    assert(names@[known as int] == known_text(known as int));
}

/// A text starts with another where it is that one, and something behind it.
pub proof fn start_and_what_is_behind(text: Seq<char>, prefix: Seq<char>, rest: Seq<char>)
    ensures
        starts(prefix + rest, prefix),
        starts(text, prefix) ==> text.len() >= prefix.len() && text == prefix + text.skip(
            prefix.len() as int,
        ),
{
    assert((prefix + rest).subrange(0, prefix.len() as int) =~= prefix);
    if starts(text, prefix) {
        assert(text =~= prefix + text.skip(prefix.len() as int)) by {
            assert forall|i: int| 0 <= i < prefix.len() implies text[i] == prefix[i] by {
                assert(text.subrange(0, prefix.len() as int)[i] == text[i]);
            }
        }
    }
}

} // verus!

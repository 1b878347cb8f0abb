//! Integers as elements of tiles: the number that an element stands for, and its bits.
use crate::dsl::element::ElementType;
use vstd::prelude::*;

verus! {

/// An element that is an integer of some number of bits.
pub trait IntElement: ElementType {
    /// The number that the element stands for.
    spec fn number(self) -> int;

    /// How many different elements there are.
    spec fn modulus_spec() -> int;

    /// Whether negative numbers are among them.
    spec fn signed_spec() -> bool;

    /// The element with these bits, read as an unsigned number.
    spec fn of_bits(bits: int) -> Self;

    fn to_wide(self) -> (r: i128)
        ensures
            r == self.number(),
    ;

    fn modulus() -> (r: u128)
        ensures
            r == Self::modulus_spec(),
    ;

    fn is_signed() -> (r: bool)
        ensures
            r == Self::signed_spec(),
    ;

    fn from_bits(bits: u64) -> (r: Self)
        requires
            bits < Self::modulus_spec(),
        ensures
            r == Self::of_bits(bits as int),
    ;

    /// There are not too many elements for a machine word, and an even number of them.
    proof fn modulus_is_in_range()
        ensures
            256 <= Self::modulus_spec() <= 0x1_0000_0000_0000_0000,
            Self::modulus_spec() % 2 == 0,
    ;

    /// An element is told by its bits.
    proof fn bits_tell_the_element(self)
        ensures
            Self::of_bits(self.number() % Self::modulus_spec()) == self,
    ;

    /// Of the numbers with the same bits, an element stands for the one in its range.
    proof fn bits_tell_the_number(bits: int)
        requires
            0 <= bits < Self::modulus_spec(),
        ensures
            Self::of_bits(bits).number() == (if Self::signed_spec() && bits * 2
                >= Self::modulus_spec() {
                bits - Self::modulus_spec()
            } else {
                bits
            }),
    ;

    /// What numbers there are.
    proof fn number_is_in_range(self)
        ensures
            Self::signed_spec() ==> -Self::modulus_spec() <= self.number() * 2
                < Self::modulus_spec(),
            !Self::signed_spec() ==> 0 <= self.number() < Self::modulus_spec(),
    ;
}

/// The element for a number, in the arithmetic of its bits.
pub open spec fn wrapped<E: IntElement>(number: int) -> E {
    E::of_bits(number % E::modulus_spec())
}

/// The bits of an element, read as an unsigned number.
pub open spec fn bits_of<E: IntElement>(element: E) -> int {
    element.number() % E::modulus_spec()
}

/// The bits of an element, read as a signed number.
pub open spec fn signed_of<E: IntElement>(element: E) -> int {
    if bits_of(element) * 2 >= E::modulus_spec() {
        bits_of(element) - E::modulus_spec()
    } else {
        bits_of(element)
    }
}

/// Whether an element stands for a number.
pub open spec fn is_number_of<E: IntElement>(number: int) -> bool {
    if E::signed_spec() {
        -E::modulus_spec() <= number * 2 < E::modulus_spec()
    } else {
        0 <= number < E::modulus_spec()
    }
}

/// A number in the range of the elements is kept.
pub proof fn number_in_range_is_kept<E: IntElement>(number: int)
    requires
        is_number_of::<E>(number),
    ensures
        wrapped::<E>(number).number() == number,
{
    let m = E::modulus_spec();
    E::modulus_is_in_range();
    E::bits_tell_the_number(number % m);
    if number >= 0 {
        vstd::arithmetic::div_mod::lemma_small_mod(number as nat, m as nat);
    } else {
        vstd::arithmetic::div_mod::lemma_mod_add_multiples_vanish(number, m);
        vstd::arithmetic::div_mod::lemma_small_mod((number + m) as nat, m as nat);
    }
}

/// The element for the number of an element is the element.
pub proof fn element_is_its_number<E: IntElement>(element: E)
    ensures
        wrapped::<E>(element.number()) == element,
{
    element.bits_tell_the_element();
}

/// The number of an element differs from the number that it was made for by a multiple of the
/// modulus.
pub proof fn wrapped_has_the_remainder<E: IntElement>(number: int)
    ensures
        wrapped::<E>(number).number() % E::modulus_spec() == number % E::modulus_spec(),
{
    let m = E::modulus_spec();
    E::modulus_is_in_range();
    let bits = number % m;
    E::bits_tell_the_number(bits);
    vstd::arithmetic::div_mod::lemma_small_mod(bits as nat, m as nat);
    vstd::arithmetic::div_mod::lemma_mod_sub_multiples_vanish(bits, m);
}

/// Numbers with the same remainder give the same element.
pub proof fn remainder_tells_the_element<E: IntElement>(a: int, b: int)
    requires
        a % E::modulus_spec() == b % E::modulus_spec(),
    ensures
        wrapped::<E>(a) == wrapped::<E>(b),
{
}

/// The bits of an element are in the range of a machine word, whichever way they are read.
pub proof fn readings_are_in_range<E: IntElement>(element: E)
    ensures
        0 <= bits_of(element) < E::modulus_spec(),
        -E::modulus_spec() <= signed_of(element) * 2 < E::modulus_spec(),
        E::modulus_spec() <= 0x1_0000_0000_0000_0000,
{
    E::modulus_is_in_range();
    vstd::arithmetic::div_mod::lemma_mod_division_less_than_divisor(
        element.number(),
        E::modulus_spec(),
    );
}

/// The element for a number that is given by its sign and its size.
pub fn wrap_parts<E: IntElement>(negative: bool, magnitude: u128) -> (r: E)
    ensures
        r == wrapped::<E>(
            if negative {
                -(magnitude as int)
            } else {
                magnitude as int
            },
        ),
{
    proof {
        E::modulus_is_in_range();
    }
    let modulus: u128 = E::modulus();
    let ghost m = E::modulus_spec();
    if !negative || magnitude == 0 {
        let bits: u128 = magnitude % modulus;
        return E::from_bits(bits as u64);
    }
    let back: u128 = (magnitude - 1) % modulus;
    let bits: u128 = modulus - 1 - back;
    proof {
        let q = magnitude - 1;
        let d = q / m;
        vstd::arithmetic::div_mod::lemma_fundamental_div_mod(q, m);
        assert(-(magnitude as int) == (-d - 1) * m + bits) by (nonlinear_arith)
            requires
                q == magnitude - 1,
                q == m * d + back,
                bits == m - 1 - back,
        ;
        vstd::arithmetic::div_mod::lemma_fundamental_div_mod_converse(
            -(magnitude as int),
            m,
            -d - 1,
            bits as int,
        );
    }
    E::from_bits(bits as u64)
}

/// The element for a number.
pub fn wrap_wide<E: IntElement>(number: i128) -> (r: E)
    ensures
        r == wrapped::<E>(number as int),
{
    if number >= 0 {
        wrap_parts(false, number as u128)
    } else {
        let magnitude: u128 = (-(number + 1)) as u128 + 1;
        wrap_parts(true, magnitude)
    }
}

/// The bits of an element, read as an unsigned number.
pub fn to_bits<E: IntElement>(element: E) -> (r: u64)
    ensures
        r == bits_of(element),
{
    proof {
        E::modulus_is_in_range();
        element.number_is_in_range();
    }
    let ghost m = E::modulus_spec();
    let wide: i128 = element.to_wide();
    if wide >= 0 {
        proof {
            vstd::arithmetic::div_mod::lemma_small_mod(wide as nat, m as nat);
        }
        wide as u64
    } else {
        let modulus: i128 = E::modulus() as i128;
        proof {
            vstd::arithmetic::div_mod::lemma_mod_add_multiples_vanish(wide as int, m);
            vstd::arithmetic::div_mod::lemma_small_mod((wide + m) as nat, m as nat);
        }
        (wide + modulus) as u64
    }
}

/// The sign and the size of the number of an element.
pub fn to_parts<E: IntElement>(element: E) -> (r: (bool, u64))
    ensures
        element.number() == (if r.0 {
            -(r.1 as int)
        } else {
            r.1 as int
        }),
        r.0 <==> element.number() < 0,
{
    proof {
        E::modulus_is_in_range();
        element.number_is_in_range();
    }
    let wide: i128 = element.to_wide();
    if wide < 0 {
        (true, (-wide) as u64)
    } else {
        (false, wide as u64)
    }
}

impl IntElement for i8 {
    open spec fn number(self) -> int {
        self as int
    }

    open spec fn modulus_spec() -> int {
        256
    }

    open spec fn signed_spec() -> bool {
        true
    }

    open spec fn of_bits(bits: int) -> i8 {
        if bits >= 128 {
            (bits - 256) as i8
        } else {
            bits as i8
        }
    }

    fn to_wide(self) -> i128 {
        self as i128
    }

    fn modulus() -> u128 {
        256
    }

    fn is_signed() -> bool {
        true
    }

    fn from_bits(bits: u64) -> i8 {
        if bits >= 128 {
            (bits as i128 - 256) as i8
        } else {
            bits as i8
        }
    }

    proof fn modulus_is_in_range() {
    }

    proof fn bits_tell_the_element(self) {
    }

    proof fn bits_tell_the_number(bits: int) {
    }

    proof fn number_is_in_range(self) {
    }
}

impl IntElement for u8 {
    open spec fn number(self) -> int {
        self as int
    }

    open spec fn modulus_spec() -> int {
        256
    }

    open spec fn signed_spec() -> bool {
        false
    }

    open spec fn of_bits(bits: int) -> u8 {
        bits as u8
    }

    fn to_wide(self) -> i128 {
        self as i128
    }

    fn modulus() -> u128 {
        256
    }

    fn is_signed() -> bool {
        false
    }

    fn from_bits(bits: u64) -> u8 {
        bits as u8
    }

    proof fn modulus_is_in_range() {
    }

    proof fn bits_tell_the_element(self) {
    }

    proof fn bits_tell_the_number(bits: int) {
    }

    proof fn number_is_in_range(self) {
    }
}

impl IntElement for i16 {
    open spec fn number(self) -> int {
        self as int
    }

    open spec fn modulus_spec() -> int {
        65536
    }

    open spec fn signed_spec() -> bool {
        true
    }

    open spec fn of_bits(bits: int) -> i16 {
        if bits >= 32768 {
            (bits - 65536) as i16
        } else {
            bits as i16
        }
    }

    fn to_wide(self) -> i128 {
        self as i128
    }

    fn modulus() -> u128 {
        65536
    }

    fn is_signed() -> bool {
        true
    }

    fn from_bits(bits: u64) -> i16 {
        if bits >= 32768 {
            (bits as i128 - 65536) as i16
        } else {
            bits as i16
        }
    }

    proof fn modulus_is_in_range() {
    }

    proof fn bits_tell_the_element(self) {
    }

    proof fn bits_tell_the_number(bits: int) {
    }

    proof fn number_is_in_range(self) {
    }
}

impl IntElement for u16 {
    open spec fn number(self) -> int {
        self as int
    }

    open spec fn modulus_spec() -> int {
        65536
    }

    open spec fn signed_spec() -> bool {
        false
    }

    open spec fn of_bits(bits: int) -> u16 {
        bits as u16
    }

    fn to_wide(self) -> i128 {
        self as i128
    }

    fn modulus() -> u128 {
        65536
    }

    fn is_signed() -> bool {
        false
    }

    fn from_bits(bits: u64) -> u16 {
        bits as u16
    }

    proof fn modulus_is_in_range() {
    }

    proof fn bits_tell_the_element(self) {
    }

    proof fn bits_tell_the_number(bits: int) {
    }

    proof fn number_is_in_range(self) {
    }
}

impl IntElement for i32 {
    open spec fn number(self) -> int {
        self as int
    }

    open spec fn modulus_spec() -> int {
        0x1_0000_0000
    }

    open spec fn signed_spec() -> bool {
        true
    }

    open spec fn of_bits(bits: int) -> i32 {
        if bits >= 0x8000_0000 {
            (bits - 0x1_0000_0000) as i32
        } else {
            bits as i32
        }
    }

    fn to_wide(self) -> i128 {
        self as i128
    }

    fn modulus() -> u128 {
        0x1_0000_0000
    }

    fn is_signed() -> bool {
        true
    }

    fn from_bits(bits: u64) -> i32 {
        if bits >= 0x8000_0000 {
            (bits as i128 - 0x1_0000_0000) as i32
        } else {
            bits as i32
        }
    }

    proof fn modulus_is_in_range() {
    }

    proof fn bits_tell_the_element(self) {
    }

    proof fn bits_tell_the_number(bits: int) {
    }

    proof fn number_is_in_range(self) {
    }
}

impl IntElement for u32 {
    open spec fn number(self) -> int {
        self as int
    }

    open spec fn modulus_spec() -> int {
        0x1_0000_0000
    }

    open spec fn signed_spec() -> bool {
        false
    }

    open spec fn of_bits(bits: int) -> u32 {
        bits as u32
    }

    fn to_wide(self) -> i128 {
        self as i128
    }

    fn modulus() -> u128 {
        0x1_0000_0000
    }

    fn is_signed() -> bool {
        false
    }

    fn from_bits(bits: u64) -> u32 {
        bits as u32
    }

    proof fn modulus_is_in_range() {
    }

    proof fn bits_tell_the_element(self) {
    }

    proof fn bits_tell_the_number(bits: int) {
    }

    proof fn number_is_in_range(self) {
    }
}

impl IntElement for i64 {
    open spec fn number(self) -> int {
        self as int
    }

    open spec fn modulus_spec() -> int {
        0x1_0000_0000_0000_0000
    }

    open spec fn signed_spec() -> bool {
        true
    }

    open spec fn of_bits(bits: int) -> i64 {
        if bits >= 0x8000_0000_0000_0000 {
            (bits - 0x1_0000_0000_0000_0000) as i64
        } else {
            bits as i64
        }
    }

    fn to_wide(self) -> i128 {
        self as i128
    }

    fn modulus() -> u128 {
        0x1_0000_0000_0000_0000
    }

    fn is_signed() -> bool {
        true
    }

    fn from_bits(bits: u64) -> i64 {
        if bits >= 0x8000_0000_0000_0000 {
            (bits as i128 - 0x1_0000_0000_0000_0000) as i64
        } else {
            bits as i64
        }
    }

    proof fn modulus_is_in_range() {
    }

    proof fn bits_tell_the_element(self) {
    }

    proof fn bits_tell_the_number(bits: int) {
    }

    proof fn number_is_in_range(self) {
    }
}

impl IntElement for u64 {
    open spec fn number(self) -> int {
        self as int
    }

    open spec fn modulus_spec() -> int {
        0x1_0000_0000_0000_0000
    }

    open spec fn signed_spec() -> bool {
        false
    }

    open spec fn of_bits(bits: int) -> u64 {
        bits as u64
    }

    fn to_wide(self) -> i128 {
        self as i128
    }

    fn modulus() -> u128 {
        0x1_0000_0000_0000_0000
    }

    fn is_signed() -> bool {
        false
    }

    fn from_bits(bits: u64) -> u64 {
        bits
    }

    proof fn modulus_is_in_range() {
    }

    proof fn bits_tell_the_element(self) {
    }

    proof fn bits_tell_the_number(bits: int) {
    }

    proof fn number_is_in_range(self) {
    }
}

} // verus!

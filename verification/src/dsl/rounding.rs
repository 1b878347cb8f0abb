//! How results that are not whole, or that do not fit, are rounded.
use vstd::prelude::*;

verus! {

/// One of the markers of this module.
pub trait Mode {

}

/// A rounding of quotients to whole numbers.
pub trait QuotientMode: Mode {
    /// The quotient of two numbers, the second other than zero.
    spec fn quotient(a: int, b: int) -> int;

    /// Whether unsigned numbers are divided so.
    spec fn takes_unsigned() -> bool;

    fn divide(a: i128, b: i128) -> (r: i128)
        requires
            b != 0,
            -0x1_0000_0000_0000_0000 <= a <= 0x1_0000_0000_0000_0000,
            -0x1_0000_0000_0000_0000 <= b <= 0x1_0000_0000_0000_0000,
        ensures
            r == Self::quotient(a as int, b as int),
            -0x1_0000_0000_0000_0000 <= r <= 0x1_0000_0000_0000_0000,
    ;
}

/// The quotient of two numbers, cut off towards zero.
pub open spec fn truncated(a: int, b: int) -> int {
    let size = magnitude(a) / magnitude(b);
    if (a < 0) == (b < 0) {
        size
    } else {
        -size
    }
}

/// A number without its sign.
pub open spec fn magnitude(n: int) -> int {
    if n < 0 {
        -n
    } else {
        n
    }
}

/// What is left of a number by the truncated quotient.
pub open spec fn left_over(a: int, b: int) -> int {
    a - b * truncated(a, b)
}

/// The greatest whole number that is no greater than the quotient.
pub open spec fn floor(a: int, b: int) -> int {
    if b > 0 {
        a / b
    } else {
        (-a) / (-b)
    }
}

/// The least whole number that is no less than the quotient.
pub open spec fn ceiling(a: int, b: int) -> int {
    -floor(-a, b)
}

/// What is left has the sign of the number that was divided, and is less than the other.
pub proof fn left_over_has_the_sign(a: int, b: int)
    requires
        b != 0,
    ensures
        magnitude(left_over(a, b)) == magnitude(a) % magnitude(b),
        magnitude(left_over(a, b)) < magnitude(b),
        a >= 0 ==> left_over(a, b) >= 0,
        a <= 0 ==> left_over(a, b) <= 0,
{
    let x = magnitude(a);
    let y = magnitude(b);
    let q = x / y;
    vstd::arithmetic::div_mod::lemma_fundamental_div_mod(x, y);
    vstd::arithmetic::div_mod::lemma_mod_division_less_than_divisor(x, y);
    assert(b * q == y * q || b * q == -(y * q)) by (nonlinear_arith)
        requires
            b == y || b == -y,
    ;
    assert(b * (-q) == -(b * q)) by (nonlinear_arith);
    assert((b > 0 ==> b * q == y * q) && (b < 0 ==> b * q == -(y * q))) by (nonlinear_arith)
        requires
            b > 0 ==> b == y,
            b < 0 ==> b == -y,
    ;
}

/// The floor and the ceiling lie about the quotient, and less than one apart from it.
pub proof fn floor_and_ceiling_are_near(a: int, b: int)
    requires
        b > 0,
    ensures
        floor(a, b) * b <= a < (floor(a, b) + 1) * b,
        (ceiling(a, b) - 1) * b < a <= ceiling(a, b) * b,
        floor(a, b) <= truncated(a, b) <= ceiling(a, b),
{
    vstd::arithmetic::div_mod::lemma_fundamental_div_mod(a, b);
    vstd::arithmetic::div_mod::lemma_fundamental_div_mod(-a, b);
    vstd::arithmetic::div_mod::lemma_mod_division_less_than_divisor(a, b);
    vstd::arithmetic::div_mod::lemma_mod_division_less_than_divisor(-a, b);
    let f = a / b;
    let g = (-a) / b;
    assert(f * b <= a < (f + 1) * b) by (nonlinear_arith)
        requires
            a == b * f + a % b,
            0 <= a % b < b,
    ;
    assert((-g - 1) * b < a <= (-g) * b) by (nonlinear_arith)
        requires
            -a == b * g + (-a) % b,
            0 <= (-a) % b < b,
    ;
    assert(f <= -g) by (nonlinear_arith)
        requires
            f * b <= a,
            a <= (-g) * b,
            b > 0,
    ;
}

proof fn floor_of_parts(a: int, b: int)
    requires
        b != 0,
    ensures
        floor(a, b) == (if (a < 0) == (b < 0) || magnitude(a) % magnitude(b) == 0 {
            truncated(a, b)
        } else {
            truncated(a, b) - 1
        }),
{
    let x = magnitude(a);
    let y = magnitude(b);
    let q = x / y;
    let r = x % y;
    vstd::arithmetic::div_mod::lemma_fundamental_div_mod(x, y);
    vstd::arithmetic::div_mod::lemma_mod_division_less_than_divisor(x, y);
    let n = if b > 0 {
        a
    } else {
        -a
    };
    assert(floor(a, b) == n / y);
    if n < 0 {
        assert(n == -x);
        if r == 0 {
            assert(-x == (-q) * y) by (nonlinear_arith)
                requires
                    x == y * q,
            ;
            vstd::arithmetic::div_mod::lemma_fundamental_div_mod_converse(-x, y, -q, 0);
        } else {
            assert(-x == (-q - 1) * y + (y - r)) by (nonlinear_arith)
                requires
                    x == y * q + r,
            ;
            vstd::arithmetic::div_mod::lemma_fundamental_div_mod_converse(-x, y, -q - 1, y - r);
        }
    } else if a == 0 {
        vstd::arithmetic::div_mod::lemma_div_basics(y);
    }
}

proof fn sizes_stay(x: int, y: int)
    requires
        0 <= x,
        1 <= y,
    ensures
        0 <= x / y <= x,
        x > 0 && x % y != 0 ==> x / y < x,
{
    vstd::arithmetic::div_mod::lemma_fundamental_div_mod(x, y);
    vstd::arithmetic::div_mod::lemma_mod_division_less_than_divisor(x, y);
    vstd::arithmetic::div_mod::lemma_div_pos_is_pos(x, y);
    let q = x / y;
    assert(q <= y * q) by (nonlinear_arith)
        requires
            q >= 0,
            y >= 1,
    ;
}

fn without_sign(n: i128) -> (r: u128)
    requires
        -0x1_0000_0000_0000_0000 <= n <= 0x1_0000_0000_0000_0000,
    ensures
        r == magnitude(n as int),
{
    if n < 0 {
        (-n) as u128
    } else {
        n as u128
    }
}

fn divide_truncated(a: i128, b: i128) -> (r: i128)
    requires
        b != 0,
        -0x1_0000_0000_0000_0000 <= a <= 0x1_0000_0000_0000_0000,
        -0x1_0000_0000_0000_0000 <= b <= 0x1_0000_0000_0000_0000,
    ensures
        r == truncated(a as int, b as int),
        magnitude(r as int) <= magnitude(a as int),
        magnitude(a as int) % magnitude(b as int) != 0 ==> magnitude(r as int) < magnitude(
            a as int,
        ),
{
    let x: u128 = without_sign(a);
    let y: u128 = without_sign(b);
    let size: u128 = x / y;
    proof {
        sizes_stay(x as int, y as int);
        if x == 0 {
            vstd::arithmetic::div_mod::lemma_small_mod(0, y as nat);
        }
    }
    if (a < 0) == (b < 0) {
        size as i128
    } else {
        -(size as i128)
    }
}

fn divide_floor(a: i128, b: i128) -> (r: i128)
    requires
        b != 0,
        -0x1_0000_0000_0000_0000 <= a <= 0x1_0000_0000_0000_0000,
        -0x1_0000_0000_0000_0000 <= b <= 0x1_0000_0000_0000_0000,
    ensures
        r == floor(a as int, b as int),
        -0x1_0000_0000_0000_0000 <= r <= 0x1_0000_0000_0000_0000,
{
    let quotient: i128 = divide_truncated(a, b);
    proof {
        floor_of_parts(a as int, b as int);
    }
    if (a < 0) == (b < 0) || without_sign(a) % without_sign(b) == 0 {
        quotient
    } else {
        quotient - 1
    }
}

/// What is left of a number by the truncated quotient.
pub fn divide_left_over(a: i128, b: i128) -> (r: i128)
    requires
        b != 0,
        -0x1_0000_0000_0000_0000 <= a <= 0x1_0000_0000_0000_0000,
        -0x1_0000_0000_0000_0000 <= b <= 0x1_0000_0000_0000_0000,
    ensures
        r == left_over(a as int, b as int),
{
    let size: u128 = without_sign(a) % without_sign(b);
    proof {
        left_over_has_the_sign(a as int, b as int);
    }
    if a < 0 {
        -(size as i128)
    } else {
        size as i128
    }
}

/// To the nearest, and to the even one of two.
#[derive(Clone, Copy, Debug)]
pub struct NearestEven;

impl Mode for NearestEven {

}

/// Upwards.
#[derive(Clone, Copy, Debug)]
pub struct PositiveInf;

impl Mode for PositiveInf {

}

impl QuotientMode for PositiveInf {
    open spec fn quotient(a: int, b: int) -> int {
        ceiling(a, b)
    }

    open spec fn takes_unsigned() -> bool {
        true
    }

    fn divide(a: i128, b: i128) -> i128 {
        -divide_floor(-a, b)
    }
}

/// Downwards.
#[derive(Clone, Copy, Debug)]
pub struct NegativeInf;

impl Mode for NegativeInf {

}

impl QuotientMode for NegativeInf {
    open spec fn quotient(a: int, b: int) -> int {
        floor(a, b)
    }

    open spec fn takes_unsigned() -> bool {
        false
    }

    fn divide(a: i128, b: i128) -> i128 {
        divide_floor(a, b)
    }
}

/// Towards zero.
#[derive(Clone, Copy, Debug)]
pub struct Zero;

impl Mode for Zero {

}

impl QuotientMode for Zero {
    open spec fn quotient(a: int, b: int) -> int {
        truncated(a, b)
    }

    open spec fn takes_unsigned() -> bool {
        true
    }

    fn divide(a: i128, b: i128) -> i128 {
        divide_truncated(a, b)
    }
}

/// By an approximation.
#[derive(Clone, Copy, Debug)]
pub struct Approx;

impl Mode for Approx {

}

/// By an approximation over the full range.
#[derive(Clone, Copy, Debug)]
pub struct Full;

impl Mode for Full {

}

} // verus!

//! Numbers as decimal text: whole numbers, and quotients rounded to one or
//! two places after the point.

use vstd::prelude::*;

verus! {

/// The character of the digit `d`, for `d` from 0 to 9.
pub open spec fn digit_char(d: nat) -> char {
    (48 + d) as u8 as char
}

/// The decimal digits of `n`, without leading zeros.
pub open spec fn decimal(n: nat) -> Seq<char>
    decreases n,
{
    if n < 10 {
        seq![digit_char(n)]
    } else {
        decimal(n / 10).push(digit_char(n % 10))
    }
}

/// The whole number nearest to `numerator / denominator`; of two that are
/// equally near, the even one.
pub open spec fn rounded(numerator: nat, denominator: nat) -> nat {
    let quotient = numerator / denominator;
    let rest = numerator % denominator;
    if 2 * rest > denominator || (2 * rest == denominator && quotient % 2 == 1) {
        quotient + 1
    } else {
        quotient
    }
}

/// `tenths / 10` with one place after the point.
pub open spec fn one_place(tenths: nat) -> Seq<char> {
    decimal(tenths / 10) + seq!['.', digit_char(tenths % 10)]
}

/// `hundredths / 100` with two places after the point.
pub open spec fn two_places(hundredths: nat) -> Seq<char> {
    decimal(hundredths / 100) + seq![
        '.',
        digit_char((hundredths / 10) % 10),
        digit_char(hundredths % 10),
    ]
}

/// The character of the digit `d`.
pub fn digit(d: u64) -> (c: char)
    requires
        d < 10,
    ensures
        c == digit_char(d as nat),
{
    ((48 + d) as u8) as char
}

/// The decimal digits of `n`.
pub fn decimal_digits(n: u64) -> (digits: Vec<char>)
    ensures
        digits@ == decimal(n as nat),
    decreases n,
{
    if n < 10 {
        let mut digits: Vec<char> = Vec::new();
        digits.push(digit(n));
        assert(digits@ =~= seq![digit_char(n as nat)]);
        digits
    } else {
        let mut digits = decimal_digits(n / 10);
        digits.push(digit(n % 10));
        digits
    }
}

/// The whole number nearest to `numerator / denominator`, ties to the even one.
pub fn round_div(numerator: u128, denominator: u64) -> (nearest: u128)
    requires
        denominator > 0,
    ensures
        nearest == rounded(numerator as nat, denominator as nat),
{
    let d: u128 = denominator as u128;
    let quotient: u128 = numerator / d;
    let rest: u128 = numerator % d;
    if 2 * rest > d || (2 * rest == d && quotient % 2 == 1) {
        assert(rest > 0);
        assert(quotient + 1 <= u128::MAX) by (nonlinear_arith)
            requires
                quotient == numerator / d,
                rest == numerator % d,
                rest > 0,
                d > 0,
                numerator <= u128::MAX,
        ;
        quotient + 1
    } else {
        quotient
    }
}

/// `tenths / 10` with one place after the point.
pub fn render_one_place(tenths: u64) -> (text: Vec<char>)
    ensures
        text@ == one_place(tenths as nat),
{
    let mut text = decimal_digits(tenths / 10);
    let ghost whole = text@;
    text.push('.');
    text.push(digit(tenths % 10));
    assert(text@ =~= whole + seq!['.', digit_char((tenths % 10) as nat)]);
    text
}

/// `hundredths / 100` with two places after the point.
pub fn render_two_places(hundredths: u64) -> (text: Vec<char>)
    ensures
        text@ == two_places(hundredths as nat),
{
    let mut text = decimal_digits(hundredths / 100);
    let ghost whole = text@;
    text.push('.');
    text.push(digit((hundredths / 10) % 10));
    text.push(digit(hundredths % 10));
    assert(text@ =~= whole + seq![
        '.',
        digit_char(((hundredths / 10) % 10) as nat),
        digit_char((hundredths % 10) as nat),
    ]);
    text
}

} // verus!

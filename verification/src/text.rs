//! Decimal text for counts and fixed-point values.

use vstd::prelude::*;
use vstd::string::StringExecFns;
use crate::fixed::SCALE;

verus! {

/// The character of a decimal digit.
pub open spec fn digit_char(d: int) -> char {
    if d == 0 {
        '0'
    } else if d == 1 {
        '1'
    } else if d == 2 {
        '2'
    } else if d == 3 {
        '3'
    } else if d == 4 {
        '4'
    } else if d == 5 {
        '5'
    } else if d == 6 {
        '6'
    } else if d == 7 {
        '7'
    } else if d == 8 {
        '8'
    } else {
        '9'
    }
}

/// Decimal digits of `n`, most significant first, without leading zeros.
pub open spec fn decimal_digits(n: nat) -> Seq<char>
    decreases n,
{
    if n < 10 {
        seq![digit_char(n as int)]
    } else {
        decimal_digits(n / 10).push(digit_char((n % 10) as int))
    }
}

/// `x / SCALE` rounded half up to `places` decimals, as a count of units of
/// the last decimal; `unit` is ten to the power `places`.
pub open spec fn rounded_units(x: nat, unit: nat) -> nat {
    ((x * unit + SCALE / 2) / (SCALE as int)) as nat
}

/// Text of a fixed-point value that is not negative, with two decimals.
pub open spec fn two_decimals(x: nat) -> Seq<char> {
    let h = rounded_units(x, 100);
    decimal_digits(h / 100) + seq!['.', digit_char(((h / 10) % 10) as int), digit_char((h % 10) as int)]
}

/// Text of a fixed-point fraction that is not negative, as a percentage
/// with one decimal.
pub open spec fn percent_one_decimal(x: nat) -> Seq<char> {
    let t = rounded_units(x, 1000);
    decimal_digits(t / 10) + seq!['.', digit_char((t % 10) as int)]
}

/// The text of one decimal digit.
pub fn digit_str(d: u64) -> (s: &'static str)
    requires
        d < 10,
    ensures
        s@ == seq![digit_char(d as int)],
{
    proof {
        reveal_strlit("0");
        reveal_strlit("1");
        reveal_strlit("2");
        reveal_strlit("3");
        reveal_strlit("4");
        reveal_strlit("5");
        reveal_strlit("6");
        reveal_strlit("7");
        reveal_strlit("8");
        reveal_strlit("9");
    }
    let s = if d == 0 {
        "0"
    } else if d == 1 {
        "1"
    } else if d == 2 {
        "2"
    } else if d == 3 {
        "3"
    } else if d == 4 {
        "4"
    } else if d == 5 {
        "5"
    } else if d == 6 {
        "6"
    } else if d == 7 {
        "7"
    } else if d == 8 {
        "8"
    } else {
        "9"
    };
    assert(s@ =~= seq![digit_char(d as int)]);
    s
}

/// Decimal text of `n`.
pub fn render_decimal(n: u128) -> (s: String)
    ensures
        s@ == decimal_digits(n as nat),
    decreases n,
{
    if n < 10 {
        String::from_str(digit_str(n as u64))
    } else {
        let mut s = render_decimal(n / 10);
        s.append(digit_str((n % 10) as u64));
        assert(s@ =~= decimal_digits(n as nat));
        s
    }
}

/// Text of `x` with two decimals, rounded half up.
pub fn render_two_decimals(x: u64) -> (s: String)
    ensures
        s@ == two_decimals(x as nat),
{
    let h: u128 = (x as u128 * 100 + (SCALE as u128) / 2) / (SCALE as u128);
    let mut s = render_decimal(h / 100);
    proof {
        reveal_strlit(".");
    }
    s.append(".");
    s.append(digit_str(((h / 10) % 10) as u64));
    s.append(digit_str((h % 10) as u64));
    assert(s@ =~= two_decimals(x as nat));
    s
}

/// Text of the fraction `x` as a percentage with one decimal, rounded half
/// up.
pub fn render_percent(x: u64) -> (s: String)
    ensures
        s@ == percent_one_decimal(x as nat),
{
    let t: u128 = (x as u128 * 1000 + (SCALE as u128) / 2) / (SCALE as u128);
    let mut s = render_decimal(t / 10);
    proof {
        reveal_strlit(".");
    }
    s.append(".");
    s.append(digit_str((t % 10) as u64));
    assert(s@ =~= percent_one_decimal(x as nat));
    s
}

} // verus!

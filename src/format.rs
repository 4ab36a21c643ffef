use vstd::prelude::*;

use crate::text::push_char;

verus! {

/// The decimal digit character for `d` (expected in `0..10`).
pub open spec fn digit_char(d: int) -> char {
    if d == 0 {
        '0'
    } else if d == 1 {
        '1'
    } else if d == 2 {
        '2'
    } else if d == 3 {
        '3'
    } else if d == 4 {
        '4'
    } else if d == 5 {
        '5'
    } else if d == 6 {
        '6'
    } else if d == 7 {
        '7'
    } else if d == 8 {
        '8'
    } else {
        '9'
    }
}

/// The decimal representation of `n`, without leading zeros.
pub open spec fn decimal(n: nat) -> Seq<char>
    decreases n,
{
    if n < 10 {
        seq![digit_char(n as int)]
    } else {
        decimal(n / 10).push(digit_char((n % 10) as int))
    }
}

/// Exactly three digits for `n < 1000`, padded with leading zeros.
pub open spec fn padded3(n: nat) -> Seq<char> {
    seq![digit_char((n / 100) as int), digit_char((n / 10 % 10) as int), digit_char((n % 10) as int)]
}

/// The decimal representation of `n` with a comma between each group of
/// three digits, counted from the right.
pub open spec fn grouped(n: nat) -> Seq<char>
    decreases n,
{
    if n < 1000 {
        decimal(n)
    } else {
        grouped(n / 1000) + seq![','] + padded3(n % 1000)
    }
}

/// How a counter value is displayed: an optional minus sign, then the
/// grouped digits of its magnitude.
pub open spec fn formatted(n: int) -> Seq<char> {
    if n < 0 {
        seq!['-'] + grouped((-n) as nat)
    } else {
        grouped(n as nat)
    }
}

fn digit(d: u32) -> (c: char)
    requires
        d < 10,
    ensures
        c == digit_char(d as int),
{
    if d == 0 {
        '0'
    } else if d == 1 {
        '1'
    } else if d == 2 {
        '2'
    } else if d == 3 {
        '3'
    } else if d == 4 {
        '4'
    } else if d == 5 {
        '5'
    } else if d == 6 {
        '6'
    } else if d == 7 {
        '7'
    } else if d == 8 {
        '8'
    } else {
        '9'
    }
}

/// Appends the digits of a value below one thousand, without leading zeros.
fn push_small(out: &mut String, n: u32)
    requires
        n < 1000,
    ensures
        final(out)@ == old(out)@ + decimal(n as nat),
{
    proof {
        reveal_with_fuel(decimal, 3);
    }
    let ghost start = out@;
    if n >= 100 {
        push_char(out, digit(n / 100));
    }
    if n >= 10 {
        push_char(out, digit(n / 10 % 10));
    }
    push_char(out, digit(n % 10));
    assert(out@ =~= start + decimal(n as nat));
}

/// Appends `n` in groups of three digits separated by commas.
fn push_grouped(out: &mut String, n: u32)
    ensures
        final(out)@ == old(out)@ + grouped(n as nat),
    decreases n,
{
    if n < 1000 {
        push_small(out, n);
    } else {
        let ghost start = out@;
        let r = n % 1000;
        push_grouped(out, n / 1000);
        push_char(out, ',');
        push_char(out, digit(r / 100));
        push_char(out, digit(r / 10 % 10));
        push_char(out, digit(r % 10));
        assert(out@ =~= start + grouped(n as nat));
    }
}

/// Renders `n` as a decimal string with a comma every three digits from
/// the right, for example `12847` as `"12,847"`; a negative value keeps its
/// minus sign in front of the grouped digits.
pub fn format_number(n: i32) -> (r: String)
    ensures
        r@ == formatted(n as int),
{
    let mut out = String::new();
    let magnitude: u32;
    if n < 0 {
        push_char(&mut out, '-');
        magnitude = (0i64 - n as i64) as u32;
    } else {
        magnitude = n as u32;
    }
    push_grouped(&mut out, magnitude);
    assert(out@ =~= formatted(n as int));
    out
}

} // verus!

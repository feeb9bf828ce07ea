//! Plain text for fixed-point numbers and indentation.

use crate::catalog::UNIT;
use vstd::prelude::*;
use vstd::string::StringExecFns;

verus! {

/// A run of `n` blanks.
pub open spec fn spaces(n: nat) -> Seq<char> {
    Seq::new(n, |i: int| ' ')
}

/// The character of a decimal digit.
pub open spec fn digit(d: nat) -> char {
    if d == 0 {
        '0'
    } else if d == 1 {
        '1'
    } else if d == 2 {
        '2'
    } else if d == 3 {
        '3'
    } else if d == 4 {
        '4'
    } else if d == 5 {
        '5'
    } else if d == 6 {
        '6'
    } else if d == 7 {
        '7'
    } else if d == 8 {
        '8'
    } else {
        '9'
    }
}

/// A natural number in decimal, without leading zeros.
pub open spec fn decimal(n: nat) -> Seq<char>
    decreases n,
{
    if n < 10 {
        seq![digit(n)]
    } else {
        decimal(n / 10).push(digit(n % 10))
    }
}

/// A fixed-point number of [`UNIT`] steps to the whole, rounded to
/// hundredths and written with two decimals. A half is rounded away from
/// zero, and a number below zero keeps its sign even if it rounds to zero.
pub open spec fn hundredths(steps: int) -> Seq<char> {
    let magnitude = if steps < 0 {
        -steps
    } else {
        steps
    };
    let rounded = (magnitude + UNIT / 200) / (UNIT / 100);
    let sign = if steps < 0 {
        seq!['-']
    } else {
        Seq::empty()
    };
    sign + decimal((rounded / 100) as nat) + seq![
        '.',
        digit((rounded / 10 % 10) as nat),
        digit((rounded % 10) as nat),
    ]
}

/// A string of `level` blanks.
pub fn prefix(level: usize) -> (s: String)
    ensures
        s@ == spaces(level as nat),
{
    let mut s = String::new();
    let mut i: usize = 0;
    while i < level
        invariant
            i <= level,
            s@ == spaces(i as nat),
        decreases level - i,
    {
        proof {
            reveal_strlit(" ");
        }
        s.append(" ");
        i = i + 1;
    }
    s
}

/// The text of one decimal digit.
fn digit_text(d: u64) -> (text: &'static str)
    requires
        d < 10,
    ensures
        text@ == seq![digit(d as nat)],
{
    proof {
        reveal_strlit("0");
        reveal_strlit("1");
        reveal_strlit("2");
        reveal_strlit("3");
        reveal_strlit("4");
        reveal_strlit("5");
        reveal_strlit("6");
        reveal_strlit("7");
        reveal_strlit("8");
        reveal_strlit("9");
    }
    let text = if d == 0 {
        "0"
    } else if d == 1 {
        "1"
    } else if d == 2 {
        "2"
    } else if d == 3 {
        "3"
    } else if d == 4 {
        "4"
    } else if d == 5 {
        "5"
    } else if d == 6 {
        "6"
    } else if d == 7 {
        "7"
    } else if d == 8 {
        "8"
    } else {
        "9"
    };
    text
}

/// Appends `n` in decimal.
pub fn push_decimal(out: &mut String, n: u64)
    ensures
        final(out)@ == old(out)@ + decimal(n as nat),
    decreases n,
{
    if n >= 10 {
        push_decimal(out, n / 10);
    }
    out.append(digit_text(n % 10));
}

/// Appends a fixed-point number with two decimals.
pub fn push_hundredths(out: &mut String, steps: i32)
    ensures
        final(out)@ == old(out)@ + hundredths(steps as int),
{
    let magnitude: u64 = if steps < 0 {
        (-(steps as i64)) as u64
    } else {
        steps as u64
    };
    let rounded: u64 = (magnitude + (UNIT as u64) / 200) / ((UNIT as u64) / 100);
    if steps < 0 {
        proof {
            reveal_strlit("-");
        }
        out.append("-");
    }
    push_decimal(out, rounded / 100);
    proof {
        reveal_strlit(".");
    }
    out.append(".");
    out.append(digit_text(rounded / 10 % 10));
    out.append(digit_text(rounded % 10));
}

} // verus!

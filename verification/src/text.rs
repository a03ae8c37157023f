//! Small pieces of text that names, paths and statements are assembled from.

use vstd::prelude::*;
use vstd::string::StringExecFns;

verus! {

/// `unit` written `times` times in a row.
pub open spec fn repeated(unit: Seq<char>, times: nat) -> Seq<char>
    decreases times,
{
    if times == 0 {
        Seq::empty()
    } else {
        repeated(unit, (times - 1) as nat) + unit
    }
}

/// The character that stands for a digit below ten.
pub open spec fn digit_char(d: nat) -> char {
    if d == 0 {
        '0'
    } else if d == 1 {
        '1'
    } else if d == 2 {
        '2'
    } else if d == 3 {
        '3'
    } else if d == 4 {
        '4'
    } else if d == 5 {
        '5'
    } else if d == 6 {
        '6'
    } else if d == 7 {
        '7'
    } else if d == 8 {
        '8'
    } else {
        '9'
    }
}

/// The decimal numeral of `n`, without sign or leading zeros.
pub open spec fn decimal(n: nat) -> Seq<char>
    decreases n,
{
    if n < 10 {
        seq![digit_char(n)]
    } else {
        decimal(n / 10).push(digit_char(n % 10))
    }
}

/// The length of `repeated` is the product of the two lengths.
pub proof fn lemma_repeated_len(unit: Seq<char>, times: nat)
    ensures
        repeated(unit, times).len() == times * unit.len(),
    decreases times,
{
    if times > 0 {
        lemma_repeated_len(unit, (times - 1) as nat);
        assert(times * unit.len() == (times - 1) * unit.len() + unit.len()) by (nonlinear_arith);
    } else {
        assert(times * unit.len() == 0) by (nonlinear_arith)
            requires
                times == 0,
        ;
    }
}

/// Writes `unit` `times` times in a row.
pub fn repeat_text(unit: &str, times: usize) -> (out: String)
    ensures
        out@ == repeated(unit@, times as nat),
{
    let mut out = String::new();
    let mut done: usize = 0;
    while done < times
        invariant
            done <= times,
            out@ == repeated(unit@, done as nat),
        decreases times - done,
    {
        out.append(unit);
        done = done + 1;
    }
    out
}

fn digit_text(d: u8) -> (s: &'static str)
    requires
        d < 10,
    ensures
        s@ == seq![digit_char(d as nat)],
{
    proof {
        reveal_strlit("0");
        reveal_strlit("1");
        reveal_strlit("2");
        reveal_strlit("3");
        reveal_strlit("4");
        reveal_strlit("5");
        reveal_strlit("6");
        reveal_strlit("7");
        reveal_strlit("8");
        reveal_strlit("9");
    }
    let s = if d == 0 {
        "0"
    } else if d == 1 {
        "1"
    } else if d == 2 {
        "2"
    } else if d == 3 {
        "3"
    } else if d == 4 {
        "4"
    } else if d == 5 {
        "5"
    } else if d == 6 {
        "6"
    } else if d == 7 {
        "7"
    } else if d == 8 {
        "8"
    } else {
        "9"
    };
    assert(s@ =~= seq![digit_char(d as nat)]);
    s
}

/// Writes `n` as a decimal numeral.
pub fn decimal_text(n: u8) -> (out: String)
    ensures
        out@ == decimal(n as nat),
{
    let mut out = String::new();
    if n >= 100 {
        out.append(digit_text(n / 100));
    }
    if n >= 10 {
        out.append(digit_text((n / 10) % 10));
    }
    out.append(digit_text(n % 10));
    proof {
        reveal_with_fuel(decimal, 3);
        assert(out@ =~= decimal(n as nat));
    }
    out
}

} // verus!

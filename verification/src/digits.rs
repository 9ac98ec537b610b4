//! Exact decimal rendering of unsigned integers, and of fixed-point values
//! carried as a whole number of hundredths. Every character of the output is
//! pinned down by a specification function over the input value.

use vstd::prelude::*;
use vstd::string::StringExecFns;

verus! {

/// The ASCII digit character for `d` (meaningful for `d < 10`).
pub open spec fn digit_char(d: nat) -> char {
    if d == 0 {
        '0'
    } else if d == 1 {
        '1'
    } else if d == 2 {
        '2'
    } else if d == 3 {
        '3'
    } else if d == 4 {
        '4'
    } else if d == 5 {
        '5'
    } else if d == 6 {
        '6'
    } else if d == 7 {
        '7'
    } else if d == 8 {
        '8'
    } else {
        '9'
    }
}

/// The decimal representation of `n`, most significant digit first, with no
/// leading zeros (a single `'0'` for zero itself).
pub open spec fn dec_str(n: nat) -> Seq<char>
    decreases n,
{
    if n < 10 {
        seq![digit_char(n)]
    } else {
        dec_str(n / 10) + seq![digit_char(n % 10)]
    }
}

/// `h` hundredths rendered with exactly two digits after the decimal point,
/// e.g. 200 hundredths as `2.00` and 50 hundredths as `0.50`.
pub open spec fn fixed2_str(h: nat) -> Seq<char> {
    dec_str(h / 100) + seq!['.', digit_char((h / 10) % 10), digit_char(h % 10)]
}

/// `t` tenths rendered with exactly one digit after the decimal point,
/// e.g. 200 tenths as `20.0` and 7 tenths as `0.7`.
pub open spec fn fixed1_str(t: nat) -> Seq<char> {
    dec_str(t / 10) + seq!['.', digit_char(t % 10)]
}

/// Every character of a decimal representation is an ASCII character.
pub proof fn lemma_dec_str_is_ascii(n: nat)
    ensures
        vstd::utf8::is_ascii_chars(dec_str(n)),
    decreases n,
{
    if n >= 10 {
        lemma_dec_str_is_ascii(n / 10);
        vstd::utf8::is_ascii_chars_concat(
            dec_str(n),
            dec_str(n / 10),
            seq![digit_char(n % 10)],
        );
    }
}

/// Every character of a fixed-point rendering is an ASCII character.
pub proof fn lemma_fixed2_str_is_ascii(h: nat)
    ensures
        vstd::utf8::is_ascii_chars(fixed2_str(h)),
{
    lemma_dec_str_is_ascii(h / 100);
    vstd::utf8::is_ascii_chars_concat(
        fixed2_str(h),
        dec_str(h / 100),
        seq!['.', digit_char((h / 10) % 10), digit_char(h % 10)],
    );
}

/// Every character of a one-decimal rendering is an ASCII character.
pub proof fn lemma_fixed1_str_is_ascii(t: nat)
    ensures
        vstd::utf8::is_ascii_chars(fixed1_str(t)),
{
    lemma_dec_str_is_ascii(t / 10);
    vstd::utf8::is_ascii_chars_concat(
        fixed1_str(t),
        dec_str(t / 10),
        seq!['.', digit_char(t % 10)],
    );
}

/// The one-character string for the decimal digit `d`.
fn digit_str(d: u128) -> (s: &'static str)
    requires
        d < 10,
    ensures
        s@ == seq![digit_char(d as nat)],
{
    let s: &'static str = if d == 0 {
        "0"
    } else if d == 1 {
        "1"
    } else if d == 2 {
        "2"
    } else if d == 3 {
        "3"
    } else if d == 4 {
        "4"
    } else if d == 5 {
        "5"
    } else if d == 6 {
        "6"
    } else if d == 7 {
        "7"
    } else if d == 8 {
        "8"
    } else {
        "9"
    };
    proof {
        reveal_strlit("0");
        reveal_strlit("1");
        reveal_strlit("2");
        reveal_strlit("3");
        reveal_strlit("4");
        reveal_strlit("5");
        reveal_strlit("6");
        reveal_strlit("7");
        reveal_strlit("8");
        reveal_strlit("9");
        assert(s@ =~= seq![digit_char(d as nat)]);
    }
    s
}

/// Render `n` in decimal, most significant digit first.
pub fn to_decimal(n: u128) -> (s: String)
    ensures
        s@ == dec_str(n as nat),
    decreases n,
{
    if n < 10 {
        digit_str(n).to_owned()
    } else {
        let mut s = to_decimal(n / 10);
        s.append(digit_str(n % 10));
        s
    }
}

/// Render `t` tenths with exactly one digit after the decimal point.
pub fn format_fixed1(t: u128) -> (s: String)
    ensures
        s@ == fixed1_str(t as nat),
{
    let mut s = to_decimal(t / 10);
    s.append(".");
    s.append(digit_str(t % 10));
    proof {
        reveal_strlit(".");
        assert(s@ =~= fixed1_str(t as nat));
    }
    s
}

/// Render `h` hundredths with exactly two digits after the decimal point.
pub fn format_fixed2(h: u128) -> (s: String)
    ensures
        s@ == fixed2_str(h as nat),
{
    let mut s = to_decimal(h / 100);
    s.append(".");
    s.append(digit_str((h / 10) % 10));
    s.append(digit_str(h % 10));
    proof {
        reveal_strlit(".");
        assert(s@ =~= fixed2_str(h as nat));
    }
    s
}

} // verus!

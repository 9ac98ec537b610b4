//! The magnitude-scaling rate formatter: a raw byte count over an elapsed
//! window becomes a per-second rate at an auto-selected tier, rendered with
//! two decimals. The tier is chosen from the raw count of the window, not
//! from the per-second rate; this is deliberate, so a large volume spread
//! over a long window shows a large tier with a small per-second number.

use vstd::arithmetic::div_mod::lemma_fundamental_div_mod;
use vstd::arithmetic::mul::lemma_mul_inequality;
use vstd::arithmetic::mul::lemma_mul_upper_bound;
use vstd::arithmetic::power::lemma_pow0;
use vstd::arithmetic::power::lemma_pow1;
use vstd::arithmetic::power::lemma_pow_adds;
use vstd::arithmetic::power::lemma_pow_increases;
use vstd::arithmetic::power::lemma_pow_positive;
use vstd::arithmetic::power::pow;
use vstd::prelude::*;
use vstd::string::StringExecFns;
use crate::digits::fixed2_str;
use crate::digits::format_fixed2;
use crate::digits::lemma_fixed2_str_is_ascii;
use crate::units::DataUnit;
use crate::units::symbol_of_magnitude;

verus! {

/// `floor(log_base(n))`: how many times `n` can be divided by `base` before
/// the quotient drops below `base`.
pub open spec fn magnitude_of(n: nat, base: nat) -> nat
    decreases n,
    when base >= 2
    via magnitude_of_decreases
{
    if n < base {
        0
    } else {
        1 + magnitude_of(n / base, base)
    }
}

#[via_fn]
proof fn magnitude_of_decreases(n: nat, base: nat) {
    if base >= 2 && n >= base {
        vstd::arithmetic::div_mod::lemma_div_decreases(n as int, base as int);
    }
}

/// The per-second rate in hundredths of the unit at the magnitude chosen
/// from the raw amount, rounded half-up. `amount` is the raw count of the
/// window (bytes or bits) and `elapsed_ms` the window length: the exact rate
/// is `amount / (elapsed_ms / 1000)` per second, scaled down by
/// `base^magnitude`, and carried with two extra decimal digits.
pub open spec fn rate_hundredths(amount: nat, elapsed_ms: nat, base: nat) -> nat {
    let den = (elapsed_ms as int) * pow(base as int, magnitude_of(amount, base));
    ((2 * amount * 100000 + den) / (2 * den)) as nat
}

/// The literal reported when a magnitude exceeds the largest tier.
pub open spec fn unknown_unit_str() -> Seq<char> {
    seq!['U', 'n', 'k', 'n', 'o', 'w', 'n', ' ', 'd', 'a', 't', 'a', ' ', 'u', 'n', 'i', 't']
}

/// The formatted rate for a window of `amount` raw units over `elapsed_ms`
/// milliseconds: the rate in hundredths at the tier chosen from the raw
/// amount, a space, the tier's letter (omitted at the base tier) and the
/// mode's `suffix` letter; or the unknown-unit literal when the magnitude
/// exceeds the largest tier.
pub open spec fn rate_str(amount: nat, elapsed_ms: nat, base: nat, suffix: char) -> Seq<char> {
    let m = magnitude_of(amount, base);
    if m > 8 {
        unknown_unit_str()
    } else {
        let h = rate_hundredths(amount, elapsed_ms, base);
        if m == 0 {
            fixed2_str(h) + seq![' ', suffix]
        } else {
            fixed2_str(h) + seq![' ', symbol_of_magnitude(m), suffix]
        }
    }
}

/// The byte-oriented rate field: a window below 1024 bytes floors to the
/// literal `0 KB`; otherwise base-1024 scaling with suffix `B`.
pub open spec fn pretty_bytes_str(input_in_bytes: nat, timespan_in_ms: nat) -> Seq<char> {
    if input_in_bytes < 1024 {
        seq!['0', ' ', 'K', 'B']
    } else {
        rate_str(input_in_bytes, timespan_in_ms, 1024, 'B')
    }
}

/// The bit-oriented rate field: a window below 1000 bytes floors to the
/// literal `0 Kb`; otherwise the byte count times eight under base-1000
/// scaling with suffix `b`.
pub open spec fn pretty_bits_str(input_in_bytes: nat, timespan_in_ms: nat) -> Seq<char> {
    if input_in_bytes < 1000 {
        seq!['0', ' ', 'K', 'b']
    } else {
        rate_str(input_in_bytes * 8, timespan_in_ms, 1000, 'b')
    }
}

/// For a base of at least two, `base^e` dominates `2^e`.
proof fn lemma_pow_ge_pow2(base: nat, e: nat)
    requires
        2 <= base,
    ensures
        pow(base as int, e) >= pow(2, e),
    decreases e,
{
    if e > 0 {
        let bi: int = base as int;
        let pb: int = pow(bi, (e - 1) as nat);
        let p2: int = pow(2, (e - 1) as nat);
        lemma_pow_ge_pow2(base, (e - 1) as nat);
        lemma_pow_positive(2, (e - 1) as nat);
        lemma_pow_positive(bi, (e - 1) as nat);
        lemma_pow1(2);
        lemma_pow1(bi);
        lemma_pow_adds(2, 1nat, (e - 1) as nat);
        lemma_pow_adds(bi, 1nat, (e - 1) as nat);
        assert(pow(2, e) == 2 * p2);
        assert(pow(bi, e) == bi * pb);
        lemma_mul_inequality(2, bi, pb);
        assert(2 * pb >= 2 * p2);
    } else {
        lemma_pow0(2);
        lemma_pow0(base as int);
    }
}

/// An exponent whose power of two still fits in 128 bits is itself below 128.
proof fn lemma_small_exponent(e: nat)
    requires
        pow(2, e) <= u128::MAX,
    ensures
        e < 128,
{
    if e >= 128 {
        lemma_pow_increases(2, 128nat, e);
        vstd::arithmetic::power2::lemma_pow2_adds(64, 64);
        vstd::arithmetic::power2::lemma2_to64_rest();
        vstd::arithmetic::power2::lemma_pow2(128);
        vstd::arithmetic::power2::lemma_pow2(64);
    }
}

/// Compute `magnitude_of(n, base)` by repeated division.
fn magnitude_u128(n: u128, base: u128) -> (m: u32)
    requires
        1 <= n,
        2 <= base,
    ensures
        m == magnitude_of(n as nat, base as nat),
        pow(base as int, m as nat) <= n,
{
    let mut x: u128 = n;
    let mut m: u32 = 0;
    proof {
        lemma_pow0(base as int);
    }
    while x >= base
        invariant
            2 <= base,
            1 <= x <= n,
            m <= 128,
            magnitude_of(n as nat, base as nat) == m + magnitude_of(x as nat, base as nat),
            (x as int) * pow(base as int, m as nat) <= n,
        decreases x,
    {
        proof {
            let xi: int = x as int;
            let bi: int = base as int;
            let p: int = pow(bi, m as nat);
            lemma_pow_positive(bi, m as nat);
            lemma_pow1(bi);
            lemma_pow_adds(bi, 1nat, m as nat);
            assert(pow(bi, (m + 1) as nat) == bi * p);
            lemma_fundamental_div_mod(xi, bi);
            assert(bi * (xi / bi) <= xi);
            lemma_mul_inequality(bi * (xi / bi), xi, p);
            assert((xi / bi) * (bi * p) == (bi * (xi / bi)) * p) by (nonlinear_arith);
            assert((xi / bi) * pow(bi, (m + 1) as nat) <= n);
            vstd::arithmetic::div_mod::lemma_div_non_zero(xi, bi);
            lemma_mul_inequality(1, xi / bi, pow(bi, (m + 1) as nat));
            lemma_pow_positive(bi, (m + 1) as nat);
            lemma_mul_inequality(1, xi, p);
            lemma_pow_ge_pow2(base as nat, m as nat);
            lemma_small_exponent(m as nat);
        }
        x = x / base;
        m = m + 1;
    }
    proof {
        lemma_pow_positive(base as int, m as nat);
        lemma_mul_inequality(1, x as int, pow(base as int, m as nat));
    }
    m
}

/// Every character of a formatted rate field is an ASCII character.
pub proof fn lemma_rate_str_is_ascii(amount: nat, elapsed_ms: nat, base: nat, suffix: char)
    requires
        '\0' <= suffix <= '\u{7f}',
    ensures
        vstd::utf8::is_ascii_chars(rate_str(amount, elapsed_ms, base, suffix)),
{
    let m = magnitude_of(amount, base);
    if m <= 8 {
        let h = rate_hundredths(amount, elapsed_ms, base);
        lemma_fixed2_str_is_ascii(h);
        if m == 0 {
            vstd::utf8::is_ascii_chars_concat(
                rate_str(amount, elapsed_ms, base, suffix),
                fixed2_str(h),
                seq![' ', suffix],
            );
        } else {
            vstd::utf8::is_ascii_chars_concat(
                rate_str(amount, elapsed_ms, base, suffix),
                fixed2_str(h),
                seq![' ', symbol_of_magnitude(m), suffix],
            );
        }
    }
}

/// Every character of the byte-oriented rate field is an ASCII character.
pub proof fn lemma_pretty_bytes_is_ascii(input_in_bytes: nat, timespan_in_ms: nat)
    ensures
        vstd::utf8::is_ascii_chars(pretty_bytes_str(input_in_bytes, timespan_in_ms)),
{
    if input_in_bytes >= 1024 {
        lemma_rate_str_is_ascii(input_in_bytes, timespan_in_ms, 1024, 'B');
    }
}

/// Every character of the bit-oriented rate field is an ASCII character.
pub proof fn lemma_pretty_bits_is_ascii(input_in_bytes: nat, timespan_in_ms: nat)
    ensures
        vstd::utf8::is_ascii_chars(pretty_bits_str(input_in_bytes, timespan_in_ms)),
{
    if input_in_bytes >= 1000 {
        lemma_rate_str_is_ascii(input_in_bytes * 8, timespan_in_ms, 1000, 'b');
    }
}

/// Compute `pow(base, exp)` by repeated multiplication.
fn pow_u128(base: u128, exp: u32) -> (r: u128)
    requires
        1 <= base,
        pow(base as int, exp as nat) <= u128::MAX,
    ensures
        r == pow(base as int, exp as nat),
{
    let mut r: u128 = 1;
    let mut i: u32 = 0;
    proof {
        lemma_pow0(base as int);
    }
    while i < exp
        invariant
            i <= exp,
            1 <= base,
            pow(base as int, exp as nat) <= u128::MAX,
            r == pow(base as int, i as nat),
        decreases exp - i,
    {
        proof {
            lemma_pow_positive(base as int, i as nat);
            lemma_pow1(base as int);
            lemma_pow_adds(base as int, 1nat, i as nat);
            assert(pow(base as int, (i + 1) as nat) == (base as int) * pow(base as int, i as nat));
            lemma_pow_increases(base as nat, (i + 1) as nat, exp as nat);
        }
        r = r * base;
        i = i + 1;
    }
    r
}

/// The unknown-unit sentinel as a `String`.
fn unknown_unit_string() -> (s: String)
    ensures
        s@ == unknown_unit_str(),
{
    let s = "Unknown data unit".to_owned();
    proof {
        reveal_strlit("Unknown data unit");
        assert(s@ =~= unknown_unit_str());
    }
    s
}

/// The concrete values of the sixth and seventh powers of the two bases.
proof fn lemma_pow_values(base: int)
    requires
        base == 1024 || base == 1000,
    ensures
        pow(base, 6) <= 0x1000000000000000,
        pow(base, 7) > 0x80000000000000000,
{
    reveal_with_fuel(pow, 8);
}

/// Format the rate for `amount` raw units (bytes or bits, at least one whole
/// `base`) counted over a window of `elapsed_ms` milliseconds.
fn format_rate(amount: u128, elapsed_ms: u64, base: u128, suffix: &str) -> (s: String)
    requires
        1 <= elapsed_ms,
        base == 1024 || base == 1000,
        base <= amount,
        amount < 0x80000000000000000,
        suffix@.len() == 1,
    ensures
        s@ == rate_str(amount as nat, elapsed_ms as nat, base as nat, suffix@[0]),
{
    let m: u32 = magnitude_u128(amount, base);
    proof {
        lemma_pow_values(base as int);
        if m >= 7 {
            lemma_pow_increases(base as nat, 7nat, m as nat);
        }
        lemma_pow_increases(base as nat, m as nat, 6nat);
    }
    let unit: Option<DataUnit> = DataUnit::from_magnitude(m);
    let p: u128 = pow_u128(base, m);
    proof {
        lemma_pow_positive(base as int, m as nat);
        lemma_mul_upper_bound(elapsed_ms as int, u64::MAX as int, p as int, 0x1000000000000000);
        lemma_mul_upper_bound(amount as int, 0x80000000000000000 - 1, 100000, 100000);
        vstd::arithmetic::mul::lemma_mul_strictly_positive(elapsed_ms as int, p as int);
    }
    let den: u128 = (elapsed_ms as u128) * p;
    let num: u128 = amount * 100000;
    let h: u128 = (2 * num + den) / (2 * den);
    let mut s = format_fixed2(h);
    s.append(" ");
    match unit {
        Some(DataUnit::B) => {
        },
        Some(u) => {
            s.append(u.symbol());
        },
        None => {
            return unknown_unit_string();
        },
    }
    s.append(suffix);
    proof {
        reveal_strlit(" ");
        assert(s@ =~= rate_str(amount as nat, elapsed_ms as nat, base as nat, suffix@[0]));
    }
    s
}

/// Format the byte-oriented network rate field: a window below 1024 bytes
/// floors to `0 KB`; otherwise the per-second rate at the base-1024 tier
/// chosen from the raw byte count, rendered with two decimals and suffix `B`.
pub fn to_pretty_bytes(input_in_bytes: u64, timespan_in_ms: u64) -> (s: String)
    requires
        1 <= timespan_in_ms,
    ensures
        s@ == pretty_bytes_str(input_in_bytes as nat, timespan_in_ms as nat),
{
    if input_in_bytes < 1024 {
        let s = "0 KB".to_owned();
        proof {
            reveal_strlit("0 KB");
            assert(s@ =~= seq!['0', ' ', 'K', 'B']);
        }
        s
    } else {
        proof {
            reveal_strlit("B");
            assert("B"@ =~= seq!['B']);
        }
        format_rate(input_in_bytes as u128, timespan_in_ms, 1024, "B")
    }
}

/// Format the bit-oriented network rate field: a window below 1000 bytes
/// floors to `0 Kb`; otherwise the byte count is converted to bits and the
/// per-second rate is rendered at the base-1000 tier chosen from the raw bit
/// count, with two decimals and suffix `b`.
pub fn to_pretty_bits(input_in_bytes: u64, timespan_in_ms: u64) -> (s: String)
    requires
        1 <= timespan_in_ms,
    ensures
        s@ == pretty_bits_str(input_in_bytes as nat, timespan_in_ms as nat),
{
    if input_in_bytes < 1000 {
        let s = "0 Kb".to_owned();
        proof {
            reveal_strlit("0 Kb");
            assert(s@ =~= seq!['0', ' ', 'K', 'b']);
        }
        s
    } else {
        let input: u128 = (input_in_bytes as u128) * 8;
        proof {
            reveal_strlit("b");
            assert("b"@ =~= seq!['b']);
        }
        format_rate(input, timespan_in_ms, 1000, "b")
    }
}

} // verus!

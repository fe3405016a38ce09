//! Human-readable byte counts (cache usage in the settings screen).

use crate::text::{decimal, digit_char, digit_to_char, push_decimal, push_str, string_from_chars};
use vstd::prelude::*;

verus! {

/// 2^53: integers below it are exact as `f64`.
pub const F64_EXACT_LIMIT: u64 = 9_007_199_254_740_992;

/// `2^k`.
pub open spec fn pow2n(k: nat) -> nat
    decreases k,
{
    if k == 0 {
        1
    } else {
        2 * pow2n((k - 1) as nat)
    }
}

/// `10^k`.
pub open spec fn pow10n(k: nat) -> nat
    decreases k,
{
    if k == 0 {
        1
    } else {
        10 * pow10n((k - 1) as nat)
    }
}

/// `a / d` rounded to the nearest integer, ties to the even neighbour.
pub open spec fn round_div_even(a: nat, d: nat) -> nat {
    let q = a / d;
    let r = a % d;
    if 2 * r > d || (2 * r == d && q % 2 == 1) {
        q + 1
    } else {
        q
    }
}

/// How many low bits `n` loses when it is converted to `f64` (53-bit significand).
pub open spec fn f64_shift(n: nat) -> nat
    decreases n,
{
    if n < F64_EXACT_LIMIT {
        0
    } else {
        1 + f64_shift(n / 2)
    }
}

/// The value of `n as f64` (round to nearest, ties to even), an integer.
pub open spec fn f64_of(n: nat) -> nat {
    let p = pow2n(f64_shift(n));
    round_div_even(n, p) * p
}

/// The `k` low decimal digits of `v`, zero-padded.
pub open spec fn zero_padded(v: nat, k: nat) -> Seq<char>
    decreases k,
{
    if k == 0 {
        Seq::empty()
    } else {
        zero_padded(v / 10, (k - 1) as nat).push(digit_char(v % 10))
    }
}

/// `num / den` printed with `dec` decimals, as `format!("{:.dec$}")` prints a float:
/// the exact value rounded to nearest, ties to even.
pub open spec fn fixed_text(num: nat, den: nat, dec: nat) -> Seq<char> {
    let q = round_div_even(num * pow10n(dec), den);
    if dec == 0 {
        decimal(q)
    } else {
        decimal(q / pow10n(dec)) + seq!['.'] + zero_padded(q % pow10n(dec), dec)
    }
}

/// Text of `fmt_bytes(n)`: `n` is first converted to `f64`; from 1 GiB it is shown in GB
/// with two decimals, from 1 MiB in MB with one, from 1 KiB in whole KB, else `n B`.
pub open spec fn bytes_text(n: u64) -> Seq<char> {
    let f = f64_of(n as nat);
    if f >= 1_073_741_824 {
        fixed_text(f, 1_073_741_824, 2) + seq![' ', 'G', 'B']
    } else if f >= 1_048_576 {
        fixed_text(f, 1_048_576, 1) + seq![' ', 'M', 'B']
    } else if f >= 1024 {
        fixed_text(f, 1024, 0) + seq![' ', 'K', 'B']
    } else {
        decimal(n as nat) + seq![' ', 'B']
    }
}

/// The value of `n as f64`, computed exactly.
fn f64_value(n: u64) -> (r: u128)
    ensures
        r as nat == f64_of(n as nat),
        r <= 0x4_0000_0000_0000_0000u128,
{
    let mut m: u128 = n as u128;
    let mut p: u128 = 1;
    let mut rem: u128 = 0;
    let ghost mut s: nat = 0;
    while m >= F64_EXACT_LIMIT as u128
        invariant
            n as nat == m * p + rem,
            rem < p,
            p as nat == pow2n(s),
            f64_shift(n as nat) == s + f64_shift(m as nat),
            p <= 4096,
            m * p <= n,
            p >= 1,
        decreases m,
    {
        let bit = m % 2;
        proof {
            assert(m * p == (m / 2) * (2 * p) + bit * p) by (nonlinear_arith)
                requires
                    bit == m % 2,
            ;
            assert(rem + bit * p < 2 * p) by (nonlinear_arith)
                requires
                    bit < 2,
                    rem < p,
            ;
            assert(m as nat / 2 < F64_EXACT_LIMIT || m >= F64_EXACT_LIMIT);
            assert((m / 2) * (2 * p) <= n) by (nonlinear_arith)
                requires
                    m * p == (m / 2) * (2 * p) + bit * p,
                    m * p <= n,
                    bit >= 0,
                    p >= 1,
            ;
            assert(2 * p <= 4096) by (nonlinear_arith)
                requires
                    m >= F64_EXACT_LIMIT,
                    m * p <= n,
                    n <= u64::MAX,
                    p >= 1,
            ;
        }
        rem = rem + bit * p;
        m = m / 2;
        p = 2 * p;
        proof {
            s = s + 1;
        }
    }
    proof {
        vstd::arithmetic::div_mod::lemma_fundamental_div_mod_converse(
            n as int,
            p as int,
            m as int,
            rem as int,
        );
    }
    let q = if 2 * rem > p || (2 * rem == p && m % 2 == 1) {
        m + 1
    } else {
        m
    };
    proof {
        assert(q * p <= 0x4_0000_0000_0000_0000u128) by (nonlinear_arith)
            requires
                q <= m + 1,
                m < F64_EXACT_LIMIT,
                p <= 4096,
                p >= 1,
        ;
    }
    q * p
}

fn push_zero_padded(out: &mut Vec<char>, v: u128, k: u32)
    ensures
        final(out)@ == old(out)@ + zero_padded(v as nat, k as nat),
    decreases k,
{
    if k > 0 {
        push_zero_padded(out, v / 10, k - 1);
        out.push(digit_to_char((v % 10) as u8));
    }
}

/// Appends `num / den` with `dec` decimals (see [`fixed_text`]).
fn push_fixed(out: &mut Vec<char>, num: u128, den: u128, dec: u32, scale: u128)
    requires
        0 < den <= 0x1_0000_0000_0000,
        scale as nat == pow10n(dec as nat),
        1 <= scale <= 100,
        num <= 0x4_0000_0000_0000_0000u128,
    ensures
        final(out)@ == old(out)@ + fixed_text(num as nat, den as nat, dec as nat),
{
    assert(num * scale <= 0x4_0000_0000_0000_0000u128 * 100) by (nonlinear_arith)
        requires
            num <= 0x4_0000_0000_0000_0000u128,
            scale <= 100,
    ;
    let a = num * scale;
    let q0 = a / den;
    let r = a % den;
    let q = if 2 * r > den || (2 * r == den && q0 % 2 == 1) {
        q0 + 1
    } else {
        q0
    };
    if dec == 0 {
        push_decimal(out, q);
    } else {
        push_decimal(out, q / scale);
        out.push('.');
        push_zero_padded(out, q % scale, dec);
    }
}

/// Byte count for display: `1.50 GB`, `1.5 MB`, `1024 KB`, `512 B`.
pub fn fmt_bytes(n: u64) -> (r: String)
    ensures
        r@ == bytes_text(n),
{
    let f = f64_value(n);
    assert(pow10n(0) == 1 && pow10n(1) == 10 && pow10n(2) == 100) by {
        reveal_with_fuel(pow10n, 3);
    }
    let mut out: Vec<char> = Vec::new();
    if f >= 1_073_741_824 {
        push_fixed(&mut out, f, 1_073_741_824, 2, 100);
        out.push(' ');
        out.push('G');
        out.push('B');
    } else if f >= 1_048_576 {
        push_fixed(&mut out, f, 1_048_576, 1, 10);
        out.push(' ');
        out.push('M');
        out.push('B');
    } else if f >= 1024 {
        push_fixed(&mut out, f, 1024, 0, 1);
        out.push(' ');
        out.push('K');
        out.push('B');
    } else {
        push_decimal(&mut out, n as u128);
        out.push(' ');
        out.push('B');
    }
    assert(out@ =~= bytes_text(n));
    string_from_chars(&out)
}

} // verus!

//! Human-readable byte sizes, computed with integers exactly as the
//! binary floating-point formatting of the size would print them.

use crate::text::{decimal, digit_char, push_char, push_decimal, push_str};
use vstd::arithmetic::div_mod::{lemma_div_denominator, lemma_fundamental_div_mod};
use vstd::prelude::*;

verus! {

/// Bytes in a mebibyte.
pub const MB: u64 = 1048576;

/// Bytes in a gibibyte.
pub const GB: u64 = 1073741824;

/// The first integer that a binary64 float cannot step through one by one
/// (2 to the 53rd).
pub const F64_EXACT_LIMIT: u64 = 9007199254740992;

/// `n / d` rounded to the nearest integer, ties going to the even one.
pub open spec fn round_div_even(n: nat, d: nat) -> nat
    recommends
        d > 0,
{
    let q = n / d;
    let r = n % d;
    if 2 * r > d || (2 * r == d && q % 2 == 1) {
        q + 1
    } else {
        q
    }
}

/// The distance between neighbouring binary64 floats around `b`: 1 below
/// 2^53, and doubling with each further bit.
pub open spec fn f64_spacing(b: nat) -> nat
    decreases b,
{
    if b < F64_EXACT_LIMIT {
        1
    } else {
        2 * f64_spacing(b / 2)
    }
}

/// The binary64 float nearest to `b`, ties to even: what `b as f64` gives.
pub open spec fn f64_nearest(b: nat) -> nat {
    round_div_even(b, f64_spacing(b)) * f64_spacing(b)
}

/// A count of tenths written with one decimal, e.g. 15 as `1.5`.
pub open spec fn one_decimal(tenths: nat) -> Seq<char> {
    decimal(tenths / 10) + seq!['.', digit_char(tenths % 10)]
}

/// The text for a size of `b` bytes: in GB with one decimal from 1 GB up, in
/// MB with one decimal from 1 MB up, and in whole KB (rounded down) below.
/// The decimal is that of the float quotient rounded half to even, as Rust
/// prints `{:.1}`; in GB the size is first rounded to the nearest float.
pub open spec fn format_bytes_text(b: u64) -> Seq<char> {
    if b >= GB {
        one_decimal(round_div_even(f64_nearest(b as nat) * 10, GB as nat)) + " GB"@
    } else if b >= MB {
        one_decimal(round_div_even(b as nat * 10, MB as nat)) + " MB"@
    } else {
        decimal(b as nat / 1024) + " KB"@
    }
}

/// `n / d` rounded to the nearest integer, ties to even.
pub(crate) fn round_div_even_u128(n: u128, d: u128) -> (r: u128)
    requires
        0 < d < 0x8000_0000_0000_0000_0000_0000_0000_0000,
    ensures
        r == round_div_even(n as nat, d as nat),
        r <= n / d + 1,
{
    let q = n / d;
    let r = n % d;
    if 2 * r > d || (2 * r == d && q % 2 == 1) {
        proof {
            lemma_fundamental_div_mod(n as int, d as int);
        }
        assert(q < n) by (nonlinear_arith)
            requires
                q == n / d,
                n == d * q + r,
                0 < d,
                2 * r >= d,
                r < d,
        ;
        q + 1
    } else {
        q
    }
}

/// The powers of two up to 2048.
spec fn small_power_of_two(d: u64) -> bool {
    d == 1 || d == 2 || d == 4 || d == 8 || d == 16 || d == 32 || d == 64 || d == 128 || d == 256
        || d == 512 || d == 1024 || d == 2048
}

proof fn lemma_power_of_two_divides(d: u64)
    requires
        small_power_of_two(d),
    ensures
        (0x1_0000_0000_0000_0000int / (d as int)) * d == 0x1_0000_0000_0000_0000int,
{
    if d == 1 {
    } else if d == 2 {
    } else if d == 4 {
    } else if d == 8 {
    } else if d == 16 {
    } else if d == 32 {
    } else if d == 64 {
    } else if d == 128 {
    } else if d == 256 {
    } else if d == 512 {
    } else if d == 1024 {
    } else {
    }
}

/// `b as f64`, as an exact integer.
fn nearest_f64(b: u64) -> (f: u128)
    ensures
        f == f64_nearest(b as nat),
        f <= 0x1_0000_0000_0000_0000,
{
    let mut t: u64 = b;
    let mut d: u64 = 1;
    while t >= F64_EXACT_LIMIT
        invariant
            small_power_of_two(d),
            t == b as nat / d as nat,
            f64_spacing(b as nat) == d * f64_spacing(t as nat),
        decreases t,
    {
        proof {
            lemma_fundamental_div_mod(b as int, d as int);
            lemma_div_denominator(b as int, d as int, 2);
            assert(d < 2048) by (nonlinear_arith)
                requires
                    t == b as nat / d as nat,
                    t >= F64_EXACT_LIMIT,
                    b == d * (b as nat / d as nat) + b as nat % d as nat,
                    b as nat % d as nat >= 0,
                    d >= 1,
                    b < 0x1_0000_0000_0000_0000,
            ;
            let x = f64_spacing(t as nat / 2);
            assert(f64_spacing(t as nat) == 2 * x);
            assert(d * (2 * x) == (d * 2) * x) by (nonlinear_arith);
        }
        t = t / 2;
        d = d * 2;
    }
    assert(f64_spacing(b as nat) == d);
    let q = b / d;
    let r = b % d;
    let up = 2 * r > d || (2 * r == d && q % 2 == 1);
    let q2: u128 = if up { q as u128 + 1 } else { q as u128 };
    proof {
        lemma_fundamental_div_mod(b as int, d as int);
        let m: int = 0x1_0000_0000_0000_0000int / (d as int);
        lemma_power_of_two_divides(d);
        assert(q2 * d <= 0x1_0000_0000_0000_0000) by (nonlinear_arith)
            requires
                b == d * q + r,
                0 <= r < d,
                q2 <= q + 1,
                b < 0x1_0000_0000_0000_0000,
                m * d == 0x1_0000_0000_0000_0000int,
                d >= 1,
        ;
    }
    q2 * (d as u128)
}

/// Appends `tenths / 10`, a point, and the last digit of `tenths`.
pub(crate) fn push_one_decimal(s: &mut String, tenths: u64)
    ensures
        final(s)@ == old(s)@ + one_decimal(tenths as nat),
{
    push_decimal(s, tenths / 10);
    push_char(s, '.');
    let d: u8 = (tenths % 10) as u8;
    push_char(s, (d + 48u8) as char);
    assert(final(s)@ =~= old(s)@ + one_decimal(tenths as nat));
}

/// A human-readable size: `x.y GB` from 1 GB, `x.y MB` from 1 MB, and
/// whole `KB` (rounded down) below.
pub fn format_bytes(bytes: u64) -> (r: String)
    ensures
        r@ == format_bytes_text(bytes),
{
    let mut s = String::new();
    if bytes >= GB {
        let f = nearest_f64(bytes);
        let tenths = round_div_even_u128(f * 10, GB as u128);
        assert(tenths <= 0x10_0000_0000_0000) by (nonlinear_arith)
            requires
                tenths <= (f * 10) / (GB as int) + 1,
                f <= 0x1_0000_0000_0000_0000,
        ;
        push_one_decimal(&mut s, tenths as u64);
        push_str(&mut s, " GB");
    } else if bytes >= MB {
        let tenths = round_div_even_u128(bytes as u128 * 10, MB as u128);
        assert(tenths <= 0x10_0000_0000) by (nonlinear_arith)
            requires
                tenths <= (bytes * 10) / (MB as int) + 1,
                bytes < GB,
        ;
        push_one_decimal(&mut s, tenths as u64);
        push_str(&mut s, " MB");
    } else {
        push_decimal(&mut s, bytes / 1024);
        push_str(&mut s, " KB");
    }
    s
}

} // verus!

//! Human-readable byte sizes.
//!
//! The sizes are printed with two decimals from the value `bytes as f64 / unit as f64`.
//! Every unit here is a power of two, so that quotient is exact once `bytes` has been
//! rounded to the 53 significant bits of an `f64`; the two decimals are then the exact
//! quotient rounded half to even. Both steps are done below in integer arithmetic.

use vstd::prelude::*;
use crate::decimal::{decimal, digit_char, digit_char_exec, push_decimal};
use crate::strings::push_char;
use vstd::string::StringExecFns;

verus! {

pub open spec fn pow2(n: nat) -> nat
    decreases n,
{
    if n == 0 {
        1
    } else {
        2 * pow2((n - 1) as nat)
    }
}

/// Spacing of the `f64` values around `b`: 1 below 2^53, doubling with each binade above.
pub open spec fn ulp(b: nat) -> nat
    decreases b,
{
    if b < 0x20_0000_0000_0000 {
        1
    } else {
        2 * ulp(b / 2)
    }
}

/// `n / d` rounded to the nearest integer, ties to the even one.
pub open spec fn round_half_even(n: nat, d: nat) -> nat
    recommends
        d > 0,
{
    let q = n / d;
    let r = n % d;
    if 2 * r > d || (2 * r == d && q % 2 == 1) {
        q + 1
    } else {
        q
    }
}

/// The value of `b as f64` (round to nearest, ties to even).
pub open spec fn as_f64(b: nat) -> nat {
    round_half_even(b, ulp(b)) * ulp(b)
}

/// `x / 2^shift` in hundredths, rounded half to even (the `{:.2}` of an exact quotient).
pub open spec fn hundredths(x: nat, shift: nat) -> nat {
    round_half_even(x * 100, pow2(shift))
}

/// A count of hundredths printed with two decimals.
pub open spec fn fixed2(h: nat) -> Seq<char> {
    decimal(h / 100) + seq!['.', digit_char((h % 100) / 10), digit_char(h % 10)]
}

/// `format!("{:.2}", b as f64 / 2^shift as f64)`.
pub open spec fn scaled(b: nat, shift: nat) -> Seq<char> {
    fixed2(hundredths(as_f64(b), shift))
}

/// The text of `format_bytes(bytes)`.
pub open spec fn spec_format_bytes(b: nat) -> Seq<char> {
    if b >= pow2(50) {
        scaled(b, 50).push('P')
    } else if b >= pow2(40) {
        scaled(b, 40).push('T')
    } else if b >= pow2(30) {
        scaled(b, 30).push('G')
    } else if b >= pow2(20) {
        scaled(b, 20).push('M')
    } else if b >= pow2(10) {
        scaled(b, 10).push('K')
    } else {
        decimal(b).push('B')
    }
}

/// The powers of two that the units are.
pub proof fn lemma_pow2_values()
    ensures
        pow2(10) == 0x400,
        pow2(20) == 0x10_0000,
        pow2(30) == 0x4000_0000,
        pow2(40) == 0x100_0000_0000,
        pow2(50) == 0x4_0000_0000_0000,
        pow2(53) == 0x20_0000_0000_0000,
{
    reveal_with_fuel(pow2, 54);
}

/// `2^shift`.
pub fn pow2_exec(shift: u32) -> (r: u128)
    requires
        shift <= 64,
    ensures
        r == pow2(shift as nat),
        r <= 0x1_0000_0000_0000_0000,
{
    let mut r: u128 = 1;
    let mut k: u32 = 0;
    while k < shift
        invariant
            k <= shift <= 64,
            r == pow2(k as nat),
            r <= 0x1_0000_0000_0000_0000,
        decreases shift - k,
    {
        proof {
            lemma_pow2_monotone(k as nat + 1, 64);
            reveal_with_fuel(pow2, 65);
        }
        r = r * 2;
        k += 1;
    }
    r
}

/// Powers of two grow with the exponent.
pub proof fn lemma_pow2_monotone(a: nat, b: nat)
    requires
        a <= b,
    ensures
        pow2(a) <= pow2(b),
    decreases b,
{
    if a < b {
        lemma_pow2_monotone(a, (b - 1) as nat);
    }
}

/// `b as f64`, as an integer.
pub fn as_f64_exec(b: u64) -> (r: u128)
    ensures
        r == as_f64(b as nat),
        r <= 0x2_0000_0000_0000_0000,
{
    proof {
        lemma_pow2_values();
    }
    let mut c: u128 = b as u128;
    let mut u: u128 = 1;
    while c >= 0x20_0000_0000_0000
        invariant
            ulp(b as nat) == u * ulp(c as nat),
            c * u <= b,
            u >= 1,
            c == b || c >= 0x10_0000_0000_0000,
            pow2(53) == 0x20_0000_0000_0000,
        decreases c,
    {
        assert(u <= c * u) by (nonlinear_arith)
            requires
                c >= 1,
                u >= 1,
        ;
        assert((c / 2) * (u * 2) <= c * u) by (nonlinear_arith);
        assert(ulp(c as nat) == 2 * ulp((c / 2) as nat));
        assert(u * (2 * ulp((c / 2) as nat)) == (u * 2) * ulp((c / 2) as nat)) by (nonlinear_arith);
        c = c / 2;
        u = u * 2;
    }
    assert(ulp(c as nat) == 1);
    assert(ulp(b as nat) == u) by (nonlinear_arith)
        requires
            ulp(b as nat) == u * ulp(c as nat),
            ulp(c as nat) == 1,
    ;
    let bb: u128 = b as u128;
    assert(u <= bb || bb == 0) by (nonlinear_arith)
        requires
            c * u <= bb,
            u >= 1,
            c == bb || c >= 0x10_0000_0000_0000,
    ;
    let q = bb / u;
    let rem = bb % u;
    let q2 = if 2 * rem > u || (2 * rem == u && q % 2 == 1) {
        q + 1
    } else {
        q
    };
    assert(q2 == round_half_even(b as nat, ulp(b as nat)));
    assert(q * u <= bb) by (nonlinear_arith)
        requires
            q == bb / u,
            u >= 1,
    ;
    assert(q2 * u <= bb + u) by (nonlinear_arith)
        requires
            q * u <= bb,
            q2 <= q + 1,
            u >= 1,
    ;
    q2 * u
}


/// `x / 2^shift` in hundredths.
pub fn hundredths_exec(x: u128, shift: u32) -> (h: u128)
    requires
        x <= 0x2_0000_0000_0000_0000,
        shift <= 64,
    ensures
        h == hundredths(x as nat, shift as nat),
        h <= x * 100 + 1,
{
    let d = pow2_exec(shift);
    proof {
        lemma_pow2_positive(shift as nat);
    }
    let t = x * 100;
    let q = t / d;
    let r = t % d;
    assert(q <= t) by (nonlinear_arith)
        requires
            q == t / d,
            d >= 1,
    ;
    if 2 * r > d || (2 * r == d && q % 2 == 1) {
        q + 1
    } else {
        q
    }
}

/// Powers of two are positive.
pub proof fn lemma_pow2_positive(n: nat)
    ensures
        pow2(n) >= 1,
    decreases n,
{
    if n > 0 {
        lemma_pow2_positive((n - 1) as nat);
    }
}

/// Appends `h` hundredths with two decimals.
pub fn push_fixed2(s: &mut String, h: u128)
    ensures
        final(s)@ == old(s)@ + fixed2(h as nat),
{
    push_decimal(s, h / 100);
    push_char(s, '.');
    push_char(s, digit_char_exec((h % 100) / 10));
    push_char(s, digit_char_exec(h % 10));
    assert(final(s)@ =~= old(s)@ + fixed2(h as nat));
}

/// Appends `format!("{:.2}", b as f64 / 2^shift as f64)`.
pub fn push_scaled(s: &mut String, b: u64, shift: u32)
    requires
        shift <= 64,
    ensures
        final(s)@ == old(s)@ + scaled(b as nat, shift as nat),
{
    let x = as_f64_exec(b);
    let h = hundredths_exec(x, shift);
    push_fixed2(s, h);
}

/// Formats a byte count with a binary unit suffix: `B`, `K`, `M`, `G`, `T` or `P`,
/// with two decimals for every unit above bytes.
pub fn format_bytes(bytes: u64) -> (s: String)
    ensures
        s@ == spec_format_bytes(bytes as nat),
{
    proof {
        lemma_pow2_values();
    }
    let mut s = String::new();
    if bytes >= 0x4_0000_0000_0000 {
        push_scaled(&mut s, bytes, 50);
        push_char(&mut s, 'P');
    } else if bytes >= 0x100_0000_0000 {
        push_scaled(&mut s, bytes, 40);
        push_char(&mut s, 'T');
    } else if bytes >= 0x4000_0000 {
        push_scaled(&mut s, bytes, 30);
        push_char(&mut s, 'G');
    } else if bytes >= 0x10_0000 {
        push_scaled(&mut s, bytes, 20);
        push_char(&mut s, 'M');
    } else if bytes >= 0x400 {
        push_scaled(&mut s, bytes, 10);
        push_char(&mut s, 'K');
    } else {
        push_decimal(&mut s, bytes as u128);
        push_char(&mut s, 'B');
    }
    assert(s@ =~= spec_format_bytes(bytes as nat));
    s
}

/// `count` and the noun, with an `s` unless the count is one.
pub open spec fn spec_pluralize(count: nat, noun: Seq<char>) -> Seq<char> {
    decimal(count) + seq![' '] + noun + if count == 1 {
        Seq::empty()
    } else {
        seq!['s']
    }
}

/// The unit is the largest of B, K, M, G, T and P (powers of 1024) not above the count:
/// the text ends with that letter, and a count under 1024 is shown whole.
pub proof fn lemma_format_bytes_unit(b: nat)
    ensures
        b < 1024 ==> spec_format_bytes(b) == decimal(b).push('B'),
        1024 <= b < 1024 * 1024 ==> spec_format_bytes(b).last() == 'K',
        1024 * 1024 <= b < 1024 * 1024 * 1024 ==> spec_format_bytes(b).last() == 'M',
        1024 * 1024 * 1024 <= b < 1024 * 1024 * 1024 * 1024 ==> spec_format_bytes(b).last()
            == 'G',
        1024 * 1024 * 1024 * 1024 <= b < 1024 * 1024 * 1024 * 1024 * 1024 ==> spec_format_bytes(
            b,
        ).last() == 'T',
        1024 * 1024 * 1024 * 1024 * 1024 <= b ==> spec_format_bytes(b).last() == 'P',
{
    lemma_pow2_values();
}

/// `1 cycle`, `2 cycles`, `0 cycles`.
pub fn pluralize(count: u64, noun: &str) -> (s: String)
    ensures
        s@ == spec_pluralize(count as nat, noun@),
{
    let mut s = String::new();
    push_decimal(&mut s, count as u128);
    push_char(&mut s, ' ');
    s.append(noun);
    if count != 1 {
        push_char(&mut s, 's');
    }
    assert(s@ =~= spec_pluralize(count as nat, noun@));
    s
}

} // verus!

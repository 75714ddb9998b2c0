//! Fractions without floating-point arithmetic.
//!
//! The picker's fraction of the terminal is a single-precision number, held
//! by its bit pattern. A configuration document gives numbers in double
//! precision, by their bit patterns too. This module rounds the one to the
//! other, widens back, and multiplies a fraction with a number of rows, all
//! in whole numbers.
//!
//! A positive single-precision number with the exponent field `e > 0` and
//! the fraction field `m` is `(2^23 + m) * 2^(e - 150)`; with `e == 0` it is
//! `m * 2^-149`. A positive double-precision number with the exponent field
//! `e > 0` and the fraction field `m` is `(2^52 + m) * 2^(e - 1075)`.

use vstd::prelude::*;
use vstd::arithmetic::div_mod::lemma_div_denominator;

verus! {

/// Two to the power of 23: the weight of the exponent field of a
/// single-precision number.
pub const SINGLE_UNIT: u32 = 0x80_0000;

/// Two to the power of 52: the weight of the exponent field of a
/// double-precision number.
pub const DOUBLE_UNIT: u64 = 0x10_0000_0000_0000;

/// Two to the power of 29: what a single-precision fraction field is
/// multiplied with to become a double-precision one.
pub const WIDENING: u64 = 0x2000_0000;

/// The bit pattern of the single-precision number one.
pub const ONE_BITS: u32 = 0x3F80_0000;

/// The bit pattern of the single-precision number one half.
pub const HALF_BITS: u32 = 0x3F00_0000;

/// The bit pattern of the double-precision number one.
pub const DOUBLE_ONE_BITS: u64 = 0x3FF0_0000_0000_0000;

/// Two to the power of `e`.
pub open spec fn two_to(e: nat) -> nat
    decreases e,
{
    if e == 0 {
        1
    } else {
        2 * two_to((e - 1) as nat)
    }
}

/// `x` shifted right by `k` binary places: what is left, whether the last
/// place shifted out held a one (the guard), and whether any place before
/// that did (the sticky bit).
pub open spec fn shifted(x: nat, k: nat) -> (nat, bool, bool)
    decreases k,
{
    if k == 0 {
        (x, false, false)
    } else {
        let p = shifted(x, (k - 1) as nat);
        (p.0 / 2, p.0 % 2 == 1, p.2 || p.1)
    }
}

/// `x` divided by two to the power of `k` and rounded to the nearest whole
/// number, a tie going to the even one.
pub open spec fn round_shift(x: nat, k: nat) -> nat {
    let p = shifted(x, k);
    if p.1 && (p.2 || p.0 % 2 == 1) {
        p.0 + 1
    } else {
        p.0
    }
}

/// The single-precision number nearest to a positive double-precision
/// number that is at most one, both by their bits. A tie goes to the even
/// fraction field.
pub open spec fn single_of(double: u64) -> nat {
    let e = double as nat / DOUBLE_UNIT as nat;
    let m = double as nat % DOUBLE_UNIT as nat;
    if e == 0 {
        0
    } else if e >= 897 {
        ((e - 897) * SINGLE_UNIT as nat + round_shift(DOUBLE_UNIT as nat + m, 29)) as nat
    } else {
        round_shift(DOUBLE_UNIT as nat + m, (926 - e) as nat)
    }
}

/// The fraction that a number of a document stands for: its nearest
/// single-precision number, where the number is above zero and at most one
/// and does not round to zero.
pub open spec fn fraction_of(double: u64) -> Option<u32> {
    if 0 < double <= DOUBLE_ONE_BITS && 0 < single_of(double) <= ONE_BITS {
        Some(single_of(double) as u32)
    } else {
        None
    }
}

/// How often a fraction field below two to the power of 23 is doubled until
/// it is no longer below.
pub open spec fn lifts(m: nat) -> nat
    decreases
            (if m < SINGLE_UNIT as nat {
                SINGLE_UNIT as nat - m
            } else {
                0
            }),
{
    if m == 0 || m >= SINGLE_UNIT as nat {
        0
    } else {
        1 + lifts(2 * m)
    }
}

/// The double-precision number equal to a positive single-precision number,
/// both by their bits.
pub open spec fn double_of(single: u32) -> nat {
    let e = single as nat / SINGLE_UNIT as nat;
    let m = single as nat % SINGLE_UNIT as nat;
    if e > 0 {
        (e + 896) * DOUBLE_UNIT as nat + m * WIDENING as nat
    } else if m == 0 {
        0
    } else {
        ((897 - lifts(m)) * DOUBLE_UNIT as nat + m * two_to(lifts(m)) * WIDENING as nat
            - DOUBLE_UNIT as nat) as nat
    }
}

/// The rows that a fraction of `rows` rows comes to, rounded down. The
/// fraction is given by the bits of a positive single-precision number.
pub open spec fn fraction_rows(rows: nat, bits: u32) -> nat {
    let e = bits as nat / SINGLE_UNIT as nat;
    let m = bits as nat % SINGLE_UNIT as nat;
    if e == 0 {
        0
    } else if e >= 150 {
        rows
    } else {
        (rows * (SINGLE_UNIT as nat + m)) / two_to((150 - e) as nat)
    }
}

/// A power of two is positive.
pub proof fn lemma_two_to_positive(e: nat)
    ensures
        two_to(e) > 0,
    decreases e,
{
    if e > 0 {
        lemma_two_to_positive((e - 1) as nat);
    }
}

/// Powers of two grow with the exponent.
pub proof fn lemma_two_to_grows(a: nat, b: nat)
    requires
        a <= b,
    ensures
        two_to(a) <= two_to(b),
    decreases b,
{
    if a < b {
        lemma_two_to_grows(a, (b - 1) as nat);
    }
}

/// Shifting right what was shifted left by as many places loses nothing.
pub proof fn lemma_shift_of_multiple(x: nat, s: nat, j: nat)
    requires
        j <= s,
    ensures
        shifted(x * two_to(s), j) == (x * two_to((s - j) as nat), false, false),
    decreases j,
{
    if j > 0 {
        lemma_shift_of_multiple(x, s, (j - 1) as nat);
        let t = two_to((s - j) as nat);
        assert(two_to((s - j + 1) as nat) == 2 * t);
        assert(x * (2 * t) == 2 * (x * t)) by (nonlinear_arith);
    }
}

/// Rounding a multiple of a power of two by that power gives the factor.
pub proof fn lemma_round_of_multiple(x: nat, s: nat)
    ensures
        round_shift(x * two_to(s), s) == x,
{
    lemma_shift_of_multiple(x, s, s);
    assert(two_to(0) == 1);
    assert(x * 1 == x);
}

proof fn lemma_widening()
    ensures
        two_to(29) == WIDENING,
        two_to(23) == SINGLE_UNIT,
{
    reveal_with_fuel(two_to, 30);
}

proof fn lemma_lifts(m: nat)
    requires
        0 < m < SINGLE_UNIT,
    ensures
        1 <= lifts(m) <= 23,
        SINGLE_UNIT <= m * two_to(lifts(m)) < 2 * SINGLE_UNIT,
    decreases SINGLE_UNIT as nat - m,
{
    lemma_widening();
    let unit: nat = SINGLE_UNIT as nat;
    if 2 * m >= unit {
        assert(lifts(2 * m) == 0);
        assert(lifts(m) == 1);
        assert(two_to(1) == 2) by {
            reveal_with_fuel(two_to, 2);
        }
    } else {
        lemma_lifts(2 * m);
        let n: nat = lifts(2 * m);
        let t: nat = two_to(n + 1);
        assert(lifts(m) == n + 1);
        assert(t == 2 * two_to(n));
        assert(m * t == (2 * m) * two_to(n)) by (nonlinear_arith)
            requires
                t == 2 * two_to(n),
        ;
        assert(t <= m * t) by (nonlinear_arith)
            requires
                m >= 1,
                t >= 0,
        ;
        assert(two_to(24) == 2 * unit) by {
            reveal_with_fuel(two_to, 25);
        }
        if n + 1 >= 24 {
            lemma_two_to_grows(24, n + 1);
            assert(false);
        }
    }
}

/// Widening a fraction and rounding it again gives the fraction back.
pub proof fn lemma_widened_rounds_back(single: u32)
    requires
        0 < single <= ONE_BITS,
    ensures
        0 < double_of(single) <= DOUBLE_ONE_BITS,
        fraction_of(double_of(single) as u64) == Some(single),
{
    lemma_widening();
    let su: nat = SINGLE_UNIT as nat;
    let w: nat = WIDENING as nat;
    let unit: nat = DOUBLE_UNIT as nat;
    let one: nat = DOUBLE_ONE_BITS as nat;
    let e: nat = single as nat / su;
    let m: nat = single as nat % su;
    let d: nat = double_of(single);
    assert(e <= 127);
    assert(single as nat == e * su + m) by (nonlinear_arith)
        requires
            e == single as nat / su,
            m == single as nat % su,
            su > 0,
    ;
    if e > 0 {
        let sig: nat = su + m;
        assert(m * w < unit) by (nonlinear_arith)
            requires
                m < su,
                w == 0x2000_0000,
                unit == 0x10_0000_0000_0000,
                su == 0x80_0000,
        ;
        assert(e == 127 ==> m == 0);
        assert(d == (e + 896) * unit + m * w);
        assert(0 < d && d <= one) by (nonlinear_arith)
            requires
                d == (e + 896) * unit + m * w,
                e <= 127,
                e == 127 ==> m == 0,
                0 <= m * w,
                m * w < unit,
                unit == 0x10_0000_0000_0000,
                one == 0x3FF0_0000_0000_0000,
        ;
        assert(d / unit == e + 896 && d % unit == m * w) by (nonlinear_arith)
            requires
                d == (e + 896) * unit + m * w,
                0 <= m * w,
                m * w < unit,
                unit > 0,
        ;
        assert(unit + m * w == sig * two_to(29)) by (nonlinear_arith)
            requires
                unit == 0x10_0000_0000_0000,
                two_to(29) == w,
                w == 0x2000_0000,
                sig == su + m,
                su == 0x80_0000,
        ;
        lemma_round_of_multiple(sig, 29);
        assert(single_of(d as u64) == (e + 896 - 897) * su + sig);
        assert((e + 896 - 897) * su + sig == single as nat) by (nonlinear_arith)
            requires
                single as nat == e * su + m,
                sig == su + m,
                e >= 1,
        ;
    } else {
        assert(single as nat == m);
        lemma_lifts(m);
        let n: nat = lifts(m);
        let sig: nat = m * two_to(n);
        assert(unit <= sig * w && sig * w < 2 * unit) by (nonlinear_arith)
            requires
                su <= sig,
                sig < 2 * su,
                w == 0x2000_0000,
                unit == 0x10_0000_0000_0000,
                su == 0x80_0000,
        ;
        let low: nat = (sig * w - unit) as nat;
        assert(d == ((897 - n) * unit + sig * w - unit) as nat);
        assert(d == (897 - n) * unit + low) by (nonlinear_arith)
            requires
                d == ((897 - n) * unit + sig * w - unit) as nat,
                low == (sig * w - unit) as nat,
                unit <= sig * w,
                n <= 23,
                unit > 0,
        ;
        assert(d / unit == 897 - n && d % unit == low) by (nonlinear_arith)
            requires
                d == (897 - n) * unit + low,
                0 <= low,
                low < unit,
                unit > 0,
                n <= 23,
        ;
        assert(0 < d && d <= one) by (nonlinear_arith)
            requires
                d == (897 - n) * unit + low,
                0 <= low,
                low < unit,
                1 <= n,
                n <= 23,
                unit == 0x10_0000_0000_0000,
                one == 0x3FF0_0000_0000_0000,
        ;
        lemma_two_to_adds(n, 29);
        assert(unit + low == m * two_to(n + 29)) by (nonlinear_arith)
            requires
                low == (sig * w - unit) as nat,
                unit <= sig * w,
                sig == m * two_to(n),
                two_to(n + 29) == two_to(n) * two_to(29),
                two_to(29) == w,
        ;
        lemma_round_of_multiple(m, n + 29);
        assert((926 - (897 - n)) as nat == n + 29);
        assert(single_of(d as u64) == m);
    }
}

/// Powers of two multiply as their exponents add.
pub proof fn lemma_two_to_adds(a: nat, b: nat)
    ensures
        two_to(a + b) == two_to(a) * two_to(b),
    decreases b,
{
    if b == 0 {
        assert(two_to(a) * 1 == two_to(a));
    } else {
        lemma_two_to_adds(a, (b - 1) as nat);
        let x = two_to(a);
        let y = two_to((b - 1) as nat);
        assert(two_to(a + b) == 2 * two_to((a + b - 1) as nat));
        assert(2 * (x * y) == x * (2 * y)) by (nonlinear_arith);
    }
}

/// Whether a fraction, given by the bits of a single-precision number, lies
/// above zero and is at most one. Positive numbers are ordered as their bit
/// patterns are.
pub fn fraction_in_range(bits: u32) -> (r: bool)
    ensures
        r == (0 < bits <= ONE_BITS),
{
    0 < bits && bits <= ONE_BITS
}

/// The fraction that a number of a document stands for.
pub fn fraction(double: u64) -> (r: Option<u32>)
    ensures
        r == fraction_of(double),
{
    if double == 0 || double > DOUBLE_ONE_BITS {
        return None;
    }
    let e: u64 = double / DOUBLE_UNIT;
    let m: u64 = double % DOUBLE_UNIT;
    if e == 0 {
        return None;
    }
    let places: u64 = if e >= 897 {
        29
    } else {
        926 - e
    };
    let base: u64 = if e >= 897 {
        e - 897
    } else {
        0
    };
    let sig: u64 = DOUBLE_UNIT + m;
    let mut q: u64 = sig;
    let mut guard = false;
    let mut sticky = false;
    let mut k: u64 = 0;
    while k < places
        invariant
            k <= places,
            q <= sig,
            (q as nat, guard, sticky) == shifted(sig as nat, k as nat),
        decreases places - k,
    {
        sticky = sticky || guard;
        guard = q % 2 == 1;
        q = q / 2;
        k += 1;
    }
    let rounded: u64 = if guard && (sticky || q % 2 == 1) {
        q + 1
    } else {
        q
    };
    assert(rounded as nat == round_shift(sig as nat, places as nat));
    assert(base <= 126);
    assert(base * 0x80_0000 <= 126 * 0x80_0000) by (nonlinear_arith)
        requires
            base <= 126,
    ;
    let single: u64 = base * 0x80_0000 + rounded;
    assert(single as nat == single_of(double));
    if 0 < single && single <= 0x3F80_0000 {
        Some(single as u32)
    } else {
        None
    }
}

/// The double-precision number equal to a single-precision one, both by
/// their bits. The single-precision number must be positive and at most
/// one.
pub fn widen(single: u32) -> (r: u64)
    requires
        0 < single <= ONE_BITS,
    ensures
        r == double_of(single),
{
    let e: u64 = (single / SINGLE_UNIT) as u64;
    let m: u64 = (single % SINGLE_UNIT) as u64;
    proof {
        lemma_widening();
    }
    if e > 0 {
        assert(m * 0x2000_0000 < 0x10_0000_0000_0000) by (nonlinear_arith)
            requires
                m < 0x80_0000,
        ;
        assert((e + 896) * 0x10_0000_0000_0000 <= 1023 * 0x10_0000_0000_0000) by (nonlinear_arith)
            requires
                e <= 127,
        ;
        (e + 896) * DOUBLE_UNIT + m * WIDENING
    } else {
        proof {
            lemma_lifts(m as nat);
        }
        let mut x: u64 = m;
        let mut n: u64 = 0;
        assert(two_to(0) == 1);
        assert(m * 1 == m);
        while x < 0x80_0000
            invariant
                0 < m < 0x80_0000,
                0 < x,
                x as nat == m as nat * two_to(n as nat),
                lifts(m as nat) == n + lifts(x as nat),
                n <= lifts(m as nat) <= 23,
            decreases lifts(m as nat) - n,
        {
            proof {
                assert(two_to((n + 1) as nat) == 2 * two_to(n as nat));
                assert(m as nat * (2 * two_to(n as nat)) == 2 * (m as nat * two_to(n as nat)))
                    by (nonlinear_arith);
            }
            x = x * 2;
            n = n + 1;
        }
        assert(lifts(x as nat) == 0);
        assert(n == lifts(m as nat));
        assert(x < 0x100_0000);
        assert(x * 0x2000_0000 < 0x20_0000_0000_0000) by (nonlinear_arith)
            requires
                x < 0x100_0000,
        ;
        assert(x * 0x2000_0000 >= 0x10_0000_0000_0000) by (nonlinear_arith)
            requires
                x >= 0x80_0000,
        ;
        assert((897 - n) * 0x10_0000_0000_0000 <= 897 * 0x10_0000_0000_0000) by (nonlinear_arith)
            requires
                n <= 23,
        ;
        (897 - n) * DOUBLE_UNIT + (x * WIDENING - DOUBLE_UNIT)
    }
}

/// The rows that a fraction of `rows` rows comes to, rounded down.
pub fn rows_of_fraction(rows: u16, bits: u32) -> (r: u64)
    ensures
        r == fraction_rows(rows as nat, bits),
{
    let e: u32 = bits / SINGLE_UNIT;
    let m: u32 = bits % SINGLE_UNIT;
    if e == 0 {
        return 0;
    }
    if e >= 150 {
        return rows as u64;
    }
    let places: u32 = 150 - e;
    let factor: u64 = (SINGLE_UNIT + m) as u64;
    assert(rows as u64 * factor <= 65535 * 0x100_0000) by (nonlinear_arith)
        requires
            rows <= 65535,
            factor <= 0x100_0000,
    ;
    let num: u64 = rows as u64 * factor;
    let mut q: u64 = num;
    let mut k: u32 = 0;
    assert(two_to(0) == 1);
    while k < places
        invariant
            k <= places,
            q as nat == num as nat / two_to(k as nat),
        decreases places - k,
    {
        proof {
            lemma_two_to_positive(k as nat);
            lemma_div_denominator(num as int, two_to(k as nat) as int, 2);
            assert(two_to((k + 1) as nat) == 2 * two_to(k as nat));
            assert(two_to(k as nat) * 2 == 2 * two_to(k as nat));
        }
        q = q / 2;
        k += 1;
    }
    q
}

} // verus!

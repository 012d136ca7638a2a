//! Single precision arithmetic on natural numbers, carried out exactly in integers.
//!
//! A single precision number has 24 significant bits. Every operation here rounds the way the
//! floating point standard prescribes: to the nearest representable value, ties to the even one.
use vstd::prelude::*;

verus! {

/// One more than the largest integer of 24 bits.
pub const MANTISSA: u64 = 0x100_0000;

/// The quotient of `n` by `d`, rounded to the nearest integer, ties to the even one.
pub open spec fn half_even(n: nat, d: nat) -> nat
    recommends
        d > 0,
{
    let q = n / d;
    let r = n % d;
    if 2 * r < d || (2 * r == d && q % 2 == 0) {
        q
    } else {
        q + 1
    }
}

/// The quotient of `n` by `d`, rounded to the nearest integer, ties upwards.
pub open spec fn half_up(n: nat, d: nat) -> nat
    recommends
        d > 0,
{
    (2 * n + d) / (2 * d)
}

/// The distance between neighbouring single precision numbers of the magnitude of `n`,
/// where that is a whole number, and one otherwise.
pub open spec fn spacing(n: nat) -> nat
    decreases n,
{
    if n < MANTISSA {
        1
    } else {
        2 * spacing(n / 2)
    }
}

/// The single precision number nearest to `n`.
pub open spec fn nearest(n: nat) -> nat {
    half_even(n, spacing(n)) * spacing(n)
}

/// The smallest power of two, not below `from`, that brings the quotient of `a` by `b` to 24
/// significant bits.
pub open spec fn scale_from(a: nat, b: nat, from: nat) -> nat
    decreases MANTISSA * b - a * from,
{
    if a == 0 || from == 0 || 2 * a * from >= MANTISSA * b {
        from
    } else {
        proof {
            assert(a * (2 * from) == 2 * (a * from)) by (nonlinear_arith);
            assert(2 * a * from == 2 * (a * from)) by (nonlinear_arith);
            assert(a * from > 0) by (nonlinear_arith)
                requires
                    a > 0,
                    from > 0,
            ;
        }
        scale_from(a, b, 2 * from)
    }
}

/// The smallest power of two that brings the quotient of `a` by `b` to 24 significant bits.
pub open spec fn scale(a: nat, b: nat) -> nat {
    scale_from(a, b, 1)
}

/// The single precision quotient of `a` by `b`, times `scale(a, b)`.
pub open spec fn quotient(a: nat, b: nat) -> nat {
    half_even(a * scale(a, b), b)
}

/// Quotients are rounded down to a bound that they do not exceed.
pub proof fn half_even_bounded(n: nat, d: nat, bound: nat)
    requires
        d > 0,
        n <= bound * d,
    ensures
        half_even(n, d) <= bound,
{
    let q = n / d;
    let r = n % d;
    vstd::arithmetic::div_mod::lemma_fundamental_div_mod(n as int, d as int);
    assert(q <= bound) by (nonlinear_arith)
        requires
            n == d * q + r,
            0 <= r < d,
            n <= bound * d,
    ;
    if q == bound {
        assert(r == 0) by (nonlinear_arith)
            requires
                n == d * q + r,
                q == bound,
                0 <= r,
                n <= bound * d,
        ;
    }
}

proof fn lemma_spacing(n: nat)
    ensures
        spacing(n) >= 1,
        n >= MANTISSA ==> spacing(n) * 0x80_0000 <= n,
        n < MANTISSA * spacing(n),
    decreases n,
{
    if n >= MANTISSA {
        lemma_spacing(n / 2);
    }
}

/// A number of at most 24 bits is its own nearest single precision number.
pub proof fn nearest_small(n: nat)
    requires
        n < MANTISSA,
    ensures
        nearest(n) == n,
{
    assert(spacing(n) == 1);
    assert(n % 1 == 0 && n / 1 == n);
}

/// The nearest single precision number is off by at most one part in `2^24`.
pub proof fn nearest_close(n: nat)
    ensures
        0x100_0000 * nearest(n) <= 0x100_0001 * n,
        0xff_ffff * n <= 0x100_0000 * nearest(n),
{
    lemma_spacing(n);
    if n < MANTISSA {
        nearest_small(n);
    } else {
        let u = spacing(n);
        let q = n / u;
        let r = n % u;
        vstd::arithmetic::div_mod::lemma_fundamental_div_mod(n as int, u as int);
        assert(n == q * u + r) by (nonlinear_arith)
            requires
                n == u * q + r,
        ;
        if half_even(n, u) == q {
            assert(2 * r <= u);
            assert(nearest(n) == q * u);
        } else {
            assert(2 * r >= u);
            assert(nearest(n) == q * u + u) by (nonlinear_arith)
                requires
                    nearest(n) == (q + 1) * u,
            ;
        }
    }
}

proof fn lemma_half_even_grows(n: nat, m: nat, d: nat)
    requires
        d > 0,
        n <= m,
    ensures
        half_even(n, d) <= half_even(m, d),
{
    vstd::arithmetic::div_mod::lemma_div_is_ordered(n as int, m as int, d as int);
    vstd::arithmetic::div_mod::lemma_fundamental_div_mod(n as int, d as int);
    vstd::arithmetic::div_mod::lemma_fundamental_div_mod(m as int, d as int);
}

proof fn lemma_spacing_grows(n: nat, m: nat)
    requires
        n <= m,
    ensures
        spacing(n) == spacing(m) || 2 * spacing(n) <= spacing(m),
    decreases m,
{
    if n >= MANTISSA {
        lemma_spacing_grows(n / 2, m / 2);
    } else if m >= MANTISSA {
        lemma_spacing(m / 2);
    }
}

/// Rounding to single precision keeps the order of numbers.
pub proof fn nearest_grows(n: nat, m: nat)
    requires
        n <= m,
    ensures
        nearest(n) <= nearest(m),
{
    lemma_spacing(n);
    lemma_spacing(m);
    lemma_spacing_grows(n, m);
    let u = spacing(n);
    let v = spacing(m);
    if u == v {
        lemma_half_even_grows(n, m, u);
        assert(half_even(n, u) * u <= half_even(m, u) * u) by (nonlinear_arith)
            requires
                half_even(n, u) <= half_even(m, u),
        ;
    } else {
        half_even_bounded(n, u, MANTISSA as nat);
        assert(nearest(n) <= MANTISSA * u) by (nonlinear_arith)
            requires
                nearest(n) == half_even(n, u) * u,
                half_even(n, u) <= MANTISSA,
        ;
        assert(m >= MANTISSA);
        assert(m / v >= 0x80_0000) by (nonlinear_arith)
            requires
                v * 0x80_0000 <= m,
                v >= 1,
        ;
        assert(half_even(m, v) * v >= 0x80_0000 * v) by (nonlinear_arith)
            requires
                half_even(m, v) >= 0x80_0000,
        ;
    }
}

proof fn lemma_scale_from(a: nat, b: nat, from: nat)
    requires
        0 < a <= b,
        from > 0,
        a * from <= MANTISSA * b,
    ensures
        scale_from(a, b, from) >= from,
        a * scale_from(a, b, from) <= MANTISSA * b,
    decreases MANTISSA * b - a * from,
{
    if 2 * a * from < MANTISSA * b {
        assert(a * (2 * from) == 2 * (a * from)) by (nonlinear_arith);
        assert(2 * a * from == 2 * (a * from)) by (nonlinear_arith);
        assert(a * from > 0) by (nonlinear_arith)
            requires
                a > 0,
                from > 0,
        ;
        lemma_scale_from(a, b, 2 * from);
    }
}

/// A quotient of at most one, brought to scale, is at most the scale.
pub proof fn quotient_at_most_one(a: nat, b: nat)
    requires
        0 < a <= b,
    ensures
        scale(a, b) >= 1,
        a * scale(a, b) <= MANTISSA * b,
        quotient(a, b) <= scale(a, b),
        quotient(a, b) <= MANTISSA,
{
    assert(a * 1 == a);
    lemma_scale_from(a, b, 1);
    let s = scale(a, b);
    assert(a * s <= s * b) by (nonlinear_arith)
        requires
            a <= b,
    ;
    half_even_bounded(a * s, b, s);
    half_even_bounded(a * s, b, MANTISSA as nat);
}

/// The quotient of `n` by `d`, rounded to the nearest integer, ties to the even one.
pub fn divide_half_even(n: u64, d: u64) -> (res: u64)
    requires
        d > 0,
        n < 0x4000_0000_0000_0000,
        d < 0x4000_0000_0000_0000,
    ensures
        res == half_even(n as nat, d as nat),
{
    let q: u64 = n / d;
    let r: u64 = n % d;
    proof {
        assert(q <= n) by (nonlinear_arith)
            requires
                q == n / d,
                d > 0,
        ;
        assert(r < d);
    }
    if 2 * r < d || (2 * r == d && q % 2 == 0) {
        q
    } else {
        q + 1
    }
}

proof fn lemma_spacing_doubles(n: nat, u: nat)
    requires
        u >= 1,
        n / u >= MANTISSA,
        spacing(n) == u * spacing(n / u),
    ensures
        spacing(n) == (2 * u) * spacing(n / (2 * u)),
{
    assert((n / u) / 2 == n / (2 * u)) by {
        vstd::arithmetic::div_mod::lemma_div_denominator(n as int, u as int, 2);
        assert(u * 2 == 2 * u);
    }
    assert(u * (2 * spacing(n / (2 * u))) == (2 * u) * spacing(n / (2 * u))) by (nonlinear_arith);
}

/// The single precision number nearest to `n`.
pub fn round_to_single(n: u64) -> (res: u64)
    requires
        n < 0x400_0000_0000_0000,
    ensures
        res == nearest(n as nat),
{
    let mut u: u64 = 1;
    proof {
        assert(n as nat / 1 == n);
    }
    while n / u >= MANTISSA
        invariant
            1 <= u,
            u <= n || u == 1,
            n < 0x400_0000_0000_0000,
            spacing(n as nat) == u as nat * spacing(n as nat / u as nat),
        decreases n / u,
    {
        proof {
            lemma_spacing_doubles(n as nat, u as nat);
            vstd::arithmetic::div_mod::lemma_fundamental_div_mod(n as int, u as int);
            assert(2 * u <= n) by (nonlinear_arith)
                requires
                    n == u * (n / u) + n % u,
                    n % u >= 0,
                    n / u >= 2,
                    u >= 1,
            ;
            vstd::arithmetic::div_mod::lemma_div_denominator(n as int, u as int, 2);
        }
        u = 2 * u;
    }
    proof {
        assert(spacing(n as nat / u as nat) == 1);
        assert(u as nat * 1 == u);
        nearest_close(n as nat);
    }
    divide_half_even(n, u) * u
}

/// The single precision quotient of `a` by `b`: its significant bits, and the power of two by
/// which they are too large.
pub fn divide_to_single(a: u64, b: u64) -> (res: (u64, u64))
    requires
        0 < a <= b,
        b <= 0x1_0000_0200,
    ensures
        res.0 == quotient(a as nat, b as nat),
        res.1 == scale(a as nat, b as nat),
{
    let mut s: u64 = 1;
    proof {
        quotient_at_most_one(a as nat, b as nat);
        assert(a * 1 == a);
        assert(2 * a * 1 == 2 * a);
    }
    while 2 * a * s < MANTISSA * b
        invariant
            0 < a <= b,
            b <= 0x1_0000_0200,
            s >= 1,
            a * s <= MANTISSA * b,
            scale(a as nat, b as nat) == scale_from(a as nat, b as nat, s as nat),
            2 * a * s == 2 * (a * s),
            s <= a * s,
        decreases MANTISSA * b - a * s,
    {
        proof {
            assert(a * (2 * s) == 2 * (a * s)) by (nonlinear_arith);
            assert(2 * a * (2 * s) == 2 * (a * (2 * s))) by (nonlinear_arith);
            assert(2 * s <= a * (2 * s)) by (nonlinear_arith)
                requires
                    a >= 1,
            ;
        }
        s = 2 * s;
    }
    (divide_half_even(a * s, b), s)
}

} // verus!

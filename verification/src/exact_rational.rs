//! Exact rational numbers in lowest terms.

use vstd::prelude::*;

verus! {

/// A quotient of two integers.
#[derive(Clone, Copy, Debug, PartialEq, Eq, Structural)]
pub struct ExactRational {
    pub numerator: i64,
    pub denominator: i64,
}

/// Why a quotient has no exact representation.
#[derive(Clone, Copy, Debug, PartialEq, Eq, Structural)]
pub enum ExactRationalError {
    ZeroDenominator,
    Overflow,
}

/// The greatest common divisor.
pub open spec fn gcd(a: nat, b: nat) -> nat
    decreases b,
{
    if b == 0 { a } else { gcd(b, a % b) }
}

pub open spec fn magnitude(n: int) -> nat {
    if n < 0 { (-n) as nat } else { n as nat }
}

/// The numerator of `n / d` in lowest terms; it carries the sign.
pub open spec fn reduced_numerator(n: int, d: int) -> int {
    let size = (magnitude(n) / gcd(magnitude(n), magnitude(d))) as int;
    if (n < 0) != (d < 0) { -size } else { size }
}

/// The denominator of `n / d` in lowest terms.
pub open spec fn reduced_denominator(n: int, d: int) -> int {
    (magnitude(d) / gcd(magnitude(n), magnitude(d))) as int
}

/// The exact value of `n / d`, or why it has none.
pub open spec fn quotient(n: int, d: int) -> Result<ExactRational, ExactRationalError> {
    if d == 0 {
        Err(ExactRationalError::ZeroDenominator)
    } else if i64::MIN <= reduced_numerator(n, d) <= i64::MAX && reduced_denominator(n, d) <= i64::MAX {
        Ok(
            ExactRational {
                numerator: reduced_numerator(n, d) as i64,
                denominator: reduced_denominator(n, d) as i64,
            },
        )
    } else {
        Err(ExactRationalError::Overflow)
    }
}

proof fn lemma_gcd_positive(a: nat, b: nat)
    requires
        a > 0 || b > 0,
    ensures
        gcd(a, b) > 0,
    decreases b,
{
    if b > 0 {
        lemma_gcd_positive(b, a % b);
    }
}

pub(crate) proof fn lemma_gcd_divides(a: nat, b: nat)
    requires
        a > 0 || b > 0,
    ensures
        gcd(a, b) > 0,
        a % gcd(a, b) == 0,
        b % gcd(a, b) == 0,
    decreases b,
{
    if b > 0 {
        let g = gcd(b, a % b);
        lemma_gcd_divides(b, a % b);
        let q = a / b;
        let r = a % b;
        assert(a == b * q + r) by {
            vstd::arithmetic::div_mod::lemma_fundamental_div_mod(a as int, b as int);
        }
        vstd::arithmetic::div_mod::lemma_fundamental_div_mod(b as int, g as int);
        vstd::arithmetic::div_mod::lemma_fundamental_div_mod(r as int, g as int);
        let x = b / g;
        let y = r / g;
        assert(a == g * (x * q + y)) by (nonlinear_arith)
            requires
                a == b * q + r,
                b == g * x,
                r == g * y,
        ;
        vstd::arithmetic::div_mod::lemma_mod_multiples_basic((x * q + y) as int, g as int);
        assert((x * q + y) * g == g * (x * q + y)) by (nonlinear_arith);
    } else {
        vstd::arithmetic::div_mod::lemma_mod_self_0(a as int);
    }
}

/// A common divisor of both numbers divides their greatest common divisor.
proof fn lemma_gcd_greatest(a: nat, b: nat, k: nat)
    requires
        k > 0,
        a % k == 0,
        b % k == 0,
    ensures
        gcd(a, b) % k == 0,
    decreases b,
{
    if b > 0 {
        vstd::arithmetic::div_mod::lemma_fundamental_div_mod(a as int, b as int);
        vstd::arithmetic::div_mod::lemma_fundamental_div_mod(a as int, k as int);
        vstd::arithmetic::div_mod::lemma_fundamental_div_mod(b as int, k as int);
        let q = a / b;
        let r = a % b;
        let x = (a / k) as int;
        let y = (b / k) as int;
        assert(r == k * (x - y * q)) by (nonlinear_arith)
            requires
                a == b * q + r,
                a == k * x,
                b == k * y,
        ;
        vstd::arithmetic::div_mod::lemma_mod_multiples_basic(x - y * q, k as int);
        assert((x - y * q) * k == k * (x - y * q)) by (nonlinear_arith);
        lemma_gcd_greatest(b, r, k);
    }
}

/// A quotient is kept exactly: its value does not change, its denominator is
/// positive, and no number above one divides both of its parts.
pub proof fn law_quotient_is_exact_and_reduced(n: int, d: int, k: nat)
    requires
        quotient(n, d) is Ok,
        k > 1,
    ensures
        quotient(n, d)->Ok_0.numerator * d == n * quotient(n, d)->Ok_0.denominator,
        quotient(n, d)->Ok_0.denominator > 0,
        !(
            magnitude(
                quotient(n, d)->Ok_0.numerator as int
            ) % k == 0 && quotient(n, d)->Ok_0.denominator as nat % k == 0
        ),
{
    let a = magnitude(n);
    let b = magnitude(d);
    let g = gcd(a, b);
    lemma_gcd_divides(a, b);
    vstd::arithmetic::div_mod::lemma_fundamental_div_mod(a as int, g as int);
    vstd::arithmetic::div_mod::lemma_fundamental_div_mod(b as int, g as int);
    let x = a / g;
    let y = b / g;
    assert(y > 0) by (nonlinear_arith)
        requires
            b == g * y,
            b > 0,
    ;
    assert(x * b == a * y) by (nonlinear_arith)
        requires
            a == g * x,
            b == g * y,
    ;
    assert((-(x as int)) * (b as int) == (-(a as int)) * (y as int)) by (nonlinear_arith)
        requires
            x * b == a * y,
    ;
    assert((x as int) * (-(b as int)) == (-(a as int)) * (y as int)) by (nonlinear_arith)
        requires
            x * b == a * y,
    ;
    assert((-(x as int)) * (-(b as int)) == (a as int) * (y as int)) by (nonlinear_arith)
        requires
            x * b == a * y,
    ;
    let r = quotient(n, d)->Ok_0;
    if magnitude(r.numerator as int) % k == 0 && (r.denominator as nat) % k == 0 {
        assert(magnitude(r.numerator as int) == x);
        assert(r.denominator as nat == y);
        vstd::arithmetic::div_mod::lemma_fundamental_div_mod(x as int, k as int);
        vstd::arithmetic::div_mod::lemma_fundamental_div_mod(y as int, k as int);
        let u = x / k;
        let v = y / k;
        let m = g * k;
        assert(a == m * u && b == m * v && m > g) by (nonlinear_arith)
            requires
                a == g * x,
                b == g * y,
                x == k * u,
                y == k * v,
                m == g * k,
                g > 0,
                k > 1,
        ;
        vstd::arithmetic::div_mod::lemma_mod_multiples_basic(u as int, m as int);
        vstd::arithmetic::div_mod::lemma_mod_multiples_basic(v as int, m as int);
        assert(u * m == m * u && v * m == m * v) by (nonlinear_arith);
        lemma_gcd_greatest(a, b, m);
        vstd::arithmetic::div_mod::lemma_small_mod(g, m);
    }
}

proof fn lemma_gcd_scaled(a: nat, b: nat, k: nat)
    requires
        k > 0,
    ensures
        gcd(a * k, b * k) == gcd(a, b) * k,
    decreases b,
{
    if b > 0 {
        let q = (a / b) as int;
        let r = a % b;
        vstd::arithmetic::div_mod::lemma_fundamental_div_mod(a as int, b as int);
        assert((b * q + r) * k == q * (b * k) + r * k) by (nonlinear_arith);
        assert(0 <= r * k < b * k) by (nonlinear_arith)
            requires
                0 <= r < b,
                k > 0,
        ;
        vstd::arithmetic::div_mod::lemma_fundamental_div_mod_converse(
            (a * k) as int,
            (b * k) as int,
            q,
            (r * k) as int,
        );
        lemma_gcd_scaled(b, r, k);
    } else {
        assert(b * k == 0) by (nonlinear_arith)
            requires
                b == 0,
        ;
    }
}

/// A quotient does not change where both of its parts are multiplied by the
/// same number.
pub proof fn law_quotient_is_unchanged_by_scaling(n: int, d: int, k: nat)
    requires
        n >= 0,
        d > 0,
        k > 0,
    ensures
        quotient(n * k, d * k) == quotient(n, d),
{
    let a = n as nat;
    let b = d as nat;
    let g = gcd(a, b);
    lemma_gcd_scaled(a, b, k);
    lemma_gcd_divides(a, b);
    vstd::arithmetic::div_mod::lemma_fundamental_div_mod(a as int, g as int);
    vstd::arithmetic::div_mod::lemma_fundamental_div_mod(b as int, g as int);
    let x = (a / g) as int;
    let y = (b / g) as int;
    let m = (g * k) as int;
    assert((g * x) * k == (g * k) * x && (g * y) * k == (g * k) * y) by (nonlinear_arith);
    assert(m > 0) by (nonlinear_arith)
        requires
            m == g * k,
            g > 0,
            k > 0,
    ;
    assert(d * k > 0 && n * k >= 0) by (nonlinear_arith)
        requires
            k > 0,
            n >= 0,
            d > 0,
    ;
    vstd::arithmetic::div_mod::lemma_div_multiples_vanish(x, m);
    vstd::arithmetic::div_mod::lemma_div_multiples_vanish(y, m);
    assert(magnitude(n * k) == a * k && magnitude(d * k) == b * k);
}

/// Parts without a common divisor are kept as they are, where they fit.
pub(crate) proof fn lemma_coprime(n: int, d: int)
    requires
        n >= 0,
        d > 0,
        gcd(n as nat, d as nat) == 1,
    ensures
        reduced_numerator(n, d) == n,
        reduced_denominator(n, d) == d,
{
    vstd::arithmetic::div_mod::lemma_div_basics(n);
    vstd::arithmetic::div_mod::lemma_div_basics(d);
}

fn gcd_of(a: u128, b: u128) -> (r: u128)
    ensures
        r == gcd(a as nat, b as nat),
{
    let mut x: u128 = a;
    let mut y: u128 = b;
    while y != 0
        invariant
            gcd(x as nat, y as nat) == gcd(a as nat, b as nat),
        decreases y,
    {
        let rest: u128 = x % y;
        x = y;
        y = rest;
    }
    x
}

fn magnitude_of(n: i128) -> (r: u128)
    ensures
        r == magnitude(n as int),
{
    if n >= 0 {
        n as u128
    } else {
        (-(n + 1)) as u128 + 1
    }
}

impl ExactRational {
    pub fn from_integer(value: i64) -> (r: ExactRational)
        ensures
            r == (ExactRational { numerator: value, denominator: 1 }),
    {
        ExactRational { numerator: value, denominator: 1 }
    }

    pub fn try_new(numerator: i64, denominator: i64) -> (r: Result<ExactRational, ExactRationalError>)
        ensures
            r == quotient(numerator as int, denominator as int),
    {
        ExactRational::try_new_i128(numerator as i128, denominator as i128)
    }

    /// The quotient in lowest terms, where its parts then fit.
    pub fn try_new_i128(numerator: i128, denominator: i128) -> (r: Result<ExactRational, ExactRationalError>)
        ensures
            r == quotient(numerator as int, denominator as int),
    {
        if denominator == 0 {
            return Err(ExactRationalError::ZeroDenominator);
        }
        let a = magnitude_of(numerator);
        let b = magnitude_of(denominator);
        proof {
            lemma_gcd_positive(a as nat, b as nat);
        }
        let g = gcd_of(a, b);
        let x: u128 = a / g;
        let y: u128 = b / g;
        let negative = (numerator < 0) != (denominator < 0);
        let limit: u128 = 9223372036854775807;
        if y > limit || x > limit + 1 || (x == limit + 1 && !negative) {
            return Err(ExactRationalError::Overflow);
        }
        let denominator: i64 = y as i64;
        if negative {
            let numerator: i64 = if x == limit + 1 {
                i64::MIN
            } else {
                -(x as i64)
            };
            Ok(ExactRational { numerator, denominator })
        } else {
            Ok(ExactRational { numerator: x as i64, denominator })
        }
    }

    pub fn checked_neg(self) -> (r: Result<ExactRational, ExactRationalError>)
        ensures
            r == negated(self),
    {
        if self.numerator == i64::MIN {
            Err(ExactRationalError::Overflow)
        } else {
            Ok(ExactRational { numerator: -self.numerator, denominator: self.denominator })
        }
    }
}

/// The value with the other sign, where it fits.
pub open spec fn negated(r: ExactRational) -> Result<ExactRational, ExactRationalError> {
    if r.numerator == i64::MIN {
        Err(ExactRationalError::Overflow)
    } else {
        Ok(ExactRational { numerator: (-r.numerator) as i64, denominator: r.denominator })
    }
}

} // verus!

//! Decimal literals as exact rational numbers.

use crate::exact_rational::{
    gcd, law_quotient_is_exact_and_reduced, law_quotient_is_unchanged_by_scaling, lemma_coprime, lemma_gcd_divides,
    quotient, reduced_denominator, reduced_numerator, ExactRational,
};
use crate::syntax::lexer::{is_digit, run_end};
use crate::syntax::text::{
    all_digits, digits_value, lemma_digits_prefix, parse_bounded, strip_separators, without_separators,
};
use vstd::prelude::*;

verus! {

/// A power.
pub open spec fn power(base: int, k: nat) -> int
    decreases k,
{
    if k == 0 { 1 } else { base * power(base, (k - 1) as nat) }
}

/// A power of ten.
pub open spec fn tens(k: nat) -> int {
    power(10, k)
}

/// The exponent that follows `e` in a number.
pub open spec fn exponent_value(text: Seq<u8>) -> Option<int> {
    let signed = text.len() > 0 && (text[0] == 45 || text[0] == 43);
    let digits = if signed { text.subrange(1, text.len() as int) } else { text };
    if !all_digits(digits) {
        None
    } else if signed && text[0] == 45 {
        Some(-digits_value(digits))
    } else {
        Some(digits_value(digits))
    }
}

/// A number times a power of ten, in lowest terms, where that fits.
pub open spec fn scaled(n: int, e: int) -> Option<ExactRational> {
    let value = if e >= 0 {
        quotient(n * tens(e as nat), 1)
    } else {
        quotient(n, tens((-e) as nat))
    };
    match value {
        Ok(exact) => Some(exact),
        Err(_) => None,
    }
}

/// The exact value of a decimal literal in lowest terms, where that fits.
pub open spec fn exact_decimal(text: Seq<u8>) -> Option<ExactRational> {
    let t = without_separators(text);
    let mark = run_end(t, 0, |b: u8| b != 101 && b != 69);
    let mantissa = t.subrange(0, mark);
    let exponent = if mark < t.len() {
        exponent_value(t.subrange(mark + 1, t.len() as int))
    } else {
        Some(0)
    };
    let dot = run_end(mantissa, 0, |b: u8| b != 46);
    let whole = mantissa.subrange(0, dot);
    let fraction = if dot < mark {
        mantissa.subrange(dot + 1, mark)
    } else {
        Seq::empty()
    };
    if exponent is None || !all_digits(whole + fraction) {
        None
    } else {
        scaled(digits_value(whole + fraction), exponent->0 - fraction.len())
    }
}

proof fn lemma_power_grow(base: int, a: nat, b: nat)
    requires
        base >= 1,
        a <= b,
    ensures
        1 <= power(base, a) <= power(base, b),
    decreases b,
{
    if a < b {
        lemma_power_grow(base, a, (b - 1) as nat);
        let p = power(base, (b - 1) as nat);
        assert(p <= base * p) by (nonlinear_arith)
            requires
                base >= 1,
                p >= 1,
        ;
    } else if a > 0 {
        lemma_power_grow(base, (a - 1) as nat, (a - 1) as nat);
        let p = power(base, (a - 1) as nat);
        assert(1 <= base * p) by (nonlinear_arith)
            requires
                base >= 1,
                p >= 1,
        ;
    }
}

proof fn lemma_power_add(base: int, a: nat, b: nat)
    ensures
        power(base, a + b) == power(base, a) * power(base, b),
    decreases a,
{
    if a > 0 {
        lemma_power_add(base, (a - 1) as nat, b);
        let p = power(base, (a - 1) as nat);
        let q = power(base, b);
        assert(base * (p * q) == (base * p) * q) by (nonlinear_arith);
        assert((a + b - 1) as nat == (a - 1) as nat + b);
    }
}

proof fn lemma_tens_split(k: nat)
    ensures
        tens(k) == power(2, k) * power(5, k),
    decreases k,
{
    if k > 0 {
        lemma_tens_split((k - 1) as nat);
        let p = power(2, (k - 1) as nat);
        let q = power(5, (k - 1) as nat);
        assert(10 * (p * q) == (2 * p) * (5 * q)) by (nonlinear_arith);
    }
}

/// Two and five divide a product only where they divide one of its factors.
proof fn lemma_prime(p: int, n: int, y: int)
    requires
        p == 2 || p == 5,
        n % p != 0,
        (n * y) % p == 0,
    ensures
        y % p == 0,
{
    let i = n % p;
    let j = y % p;
    vstd::arithmetic::div_mod::lemma_mul_mod_noop(n, y, p);
    assert((i * j) % p == 0);
    if i == 1 {
        assert(i * j == j) by (nonlinear_arith)
            requires
                i == 1,
        ;
    } else if i == 2 {
        assert(i * j == 2 * j) by (nonlinear_arith)
            requires
                i == 2,
        ;
    } else if i == 3 {
        assert(i * j == 3 * j) by (nonlinear_arith)
            requires
                i == 3,
        ;
    } else {
        assert(i == 4);
        assert(i * j == 4 * j) by (nonlinear_arith)
            requires
                i == 4,
        ;
    }
}

/// A power of two or five that divides a product divides the factor that is
/// left when the other one is no multiple of the prime.
proof fn lemma_power_divides(p: int, s: nat, n: int, y: int, c: int)
    requires
        p == 2 || p == 5,
        n % p != 0,
        y > 0,
        n * y == power(p, s) * c,
    ensures
        y >= power(p, s),
    decreases s,
{
    if s > 0 {
        let q = power(p, (s - 1) as nat);
        vstd::arithmetic::mul::lemma_mul_is_associative(p, q, c);
        vstd::arithmetic::div_mod::lemma_mod_multiples_basic(q * c, p);
        assert((q * c) * p == p * (q * c)) by (nonlinear_arith);
        lemma_prime(p, n, y);
        vstd::arithmetic::div_mod::lemma_fundamental_div_mod(y, p);
        let z = y / p;
        assert(z > 0) by (nonlinear_arith)
            requires
                y == p * z,
                p >= 2,
                y > 0,
        ;
        assert(n * (p * z) == p * (n * z)) by (nonlinear_arith);
        vstd::arithmetic::mul::lemma_mul_equality_converse(p, n * z, q * c);
        lemma_power_divides(p, (s - 1) as nat, n, z, c);
        assert(y >= p * q) by (nonlinear_arith)
            requires
                y == p * z,
                z >= q,
                p >= 2,
        ;
    }
}

/// What divides a product of twos and fives, and is a multiple of neither prime
/// in it, is one.
proof fn lemma_unit(g: int, t: nat, f: nat)
    requires
        g > 0,
        (power(2, t) * power(5, f)) % g == 0,
        t > 0 ==> g % 2 != 0,
        f > 0 ==> g % 5 != 0,
    ensures
        g == 1,
    decreases t + f,
{
    let p2 = power(2, t);
    let p5 = power(5, f);
    if t == 0 && f == 0 {
        if g > 1 {
            vstd::arithmetic::div_mod::lemma_small_mod(1, g as nat);
        }
    } else {
        let p: int = if t > 0 { 2 } else { 5 };
        let t1: nat = if t > 0 { (t - 1) as nat } else { t };
        let f1: nat = if t > 0 { f } else { (f - 1) as nat };
        let rest = power(2, t1) * power(5, f1);
        let x = power(2, t1);
        let z = power(5, f1);
        assert((2 * x) * z == 2 * (x * z) && x * (5 * z) == 5 * (x * z)) by (nonlinear_arith);
        assert(p2 * p5 == p * rest);
        vstd::arithmetic::div_mod::lemma_fundamental_div_mod(p2 * p5, g);
        let k = (p2 * p5) / g;
        assert(g * k == p * rest);
        vstd::arithmetic::div_mod::lemma_mod_multiples_basic(rest, p);
        assert(rest * p == p * rest) by (nonlinear_arith);
        lemma_prime(p, g, k);
        vstd::arithmetic::div_mod::lemma_fundamental_div_mod(k, p);
        let m = k / p;
        assert(g * (p * m) == p * (m * g)) by (nonlinear_arith);
        vstd::arithmetic::mul::lemma_mul_equality_converse(p, m * g, rest);
        vstd::arithmetic::div_mod::lemma_mod_multiples_basic(m, g);
        lemma_unit(g, t1, f1);
    }
}

/// A number and a product of twos and fives have no common divisor where no
/// prime of the product divides the number.
proof fn lemma_no_common_divisor(n: int, t: nat, f: nat)
    requires
        n > 0,
        t > 0 ==> n % 2 != 0,
        f > 0 ==> n % 5 != 0,
    ensures
        power(2, t) * power(5, f) > 0,
        gcd(n as nat, (power(2, t) * power(5, f)) as nat) == 1,
{
    let d = power(2, t) * power(5, f);
    lemma_power_grow(2, 0, t);
    lemma_power_grow(5, 0, f);
    assert(d > 0) by (nonlinear_arith)
        requires
            d == power(2, t) * power(5, f),
            power(2, t) >= 1,
            power(5, f) >= 1,
    ;
    let g = gcd(n as nat, d as nat);
    lemma_gcd_divides(n as nat, d as nat);
    vstd::arithmetic::div_mod::lemma_fundamental_div_mod(n, g as int);
    let q = n / g as int;
    if g % 2 == 0 {
        let h = (g / 2) as int;
        assert(n == (h * q) * 2) by (nonlinear_arith)
            requires
                n == g * q,
                g == 2 * h,
        ;
        vstd::arithmetic::div_mod::lemma_mod_multiples_basic(h * q, 2);
    }
    if g % 5 == 0 {
        let h = (g / 5) as int;
        assert(n == (h * q) * 5) by (nonlinear_arith)
            requires
                n == g * q,
                g == 5 * h,
        ;
        vstd::arithmetic::div_mod::lemma_mod_multiples_basic(h * q, 5);
    }
    lemma_unit(g as int, t, f);
}

proof fn lemma_whole(n: int)
    requires
        n >= 0,
    ensures
        reduced_numerator(n, 1) == n,
        reduced_denominator(n, 1) == 1,
{
    reveal_with_fuel(gcd, 3);
    assert(gcd(n as nat, 1) == 1);
    lemma_coprime(n, 1);
}

/// Zero is exact at any scale.
pub proof fn law_zero_is_exact(e: int)
    ensures
        scaled(0, e) == Some(ExactRational { numerator: 0, denominator: 1 }),
{
    lemma_whole(0);
    if e < 0 {
        let k = (-e) as nat;
        lemma_power_grow(10, 0, k);
        law_quotient_is_unchanged_by_scaling(0, 1, tens(k) as nat);
    }
}

/// Zeros at the end of a number only count as part of its scale.
pub proof fn law_zeros_shift_the_scale(n: int, z: nat, e: int)
    requires
        n >= 0,
    ensures
        scaled(n * tens(z), e) == scaled(n, e + z),
{
    lemma_power_grow(10, 0, z);
    if e >= 0 {
        lemma_power_add(10, z, e as nat);
        vstd::arithmetic::mul::lemma_mul_is_associative(n, tens(z), tens(e as nat));
    } else {
        let k = (-e) as nat;
        lemma_power_grow(10, 0, k);
        if e + z < 0 {
            lemma_power_add(10, (k - z) as nat, z);
            lemma_power_grow(10, 0, (k - z) as nat);
            law_quotient_is_unchanged_by_scaling(n, tens((k - z) as nat), tens(z) as nat);
        } else {
            let m = (e + z) as nat;
            lemma_power_add(10, m, k);
            lemma_power_grow(10, 0, m);
            vstd::arithmetic::mul::lemma_mul_is_associative(n, tens(m), tens(k));
            assert(n * tens(m) >= 0) by (nonlinear_arith)
                requires
                    n >= 0,
                    tens(m) >= 1,
            ;
            law_quotient_is_unchanged_by_scaling(n * tens(m), 1, tens(k) as nat);
        }
    }
}

/// A number that does not end in zero fits at few scales.
proof fn lemma_out_of_range(n: int, e: int)
    requires
        n > 0,
        n % 10 != 0,
        e > 18 || e < -62,
    ensures
        scaled(n, e) is None,
{
    if e > 18 {
        reveal_with_fuel(power, 20);
        assert(power(10, 19) > i64::MAX);
        lemma_power_grow(10, 19, e as nat);
        let p = tens(e as nat);
        assert(n * p >= p) by (nonlinear_arith)
            requires
                n >= 1,
                p >= 1,
        ;
        lemma_whole(n * p);
    } else {
        let s = (-e) as nat;
        let d = tens(s);
        lemma_power_grow(10, 0, s);
        if quotient(n, d) is Ok {
            let r = quotient(n, d)->Ok_0;
            let x = r.numerator as int;
            let y = r.denominator as int;
            law_quotient_is_exact_and_reduced(n, d, 2);
            lemma_tens_split(s);
            let p2 = power(2, s);
            let p5 = power(5, s);
            if n % 2 != 0 {
                assert(x * (p2 * p5) == p2 * (p5 * x)) by (nonlinear_arith);
                lemma_power_divides(2, s, n, y, p5 * x);
                lemma_large();
                lemma_power_grow(2, 63, s);
            } else {
                assert(n % 5 != 0);
                assert(x * (p2 * p5) == p5 * (p2 * x)) by (nonlinear_arith);
                lemma_power_divides(5, s, n, y, p2 * x);
                lemma_large();
                lemma_power_grow(5, 28, s);
            }
        }
    }
}

proof fn lemma_large()
    ensures
        power(2, 62) <= 4611686018427387904,
        power(2, 63) > i64::MAX,
        power(5, 27) <= i64::MAX,
        power(5, 28) > i64::MAX,
        power(10, 18) == 1000000000000000000,
{
    reveal_with_fuel(power, 64);
}

/// A quotient whose parts lost all their common factors.
proof fn lemma_lowest_terms(n: int, s: nat, number: int, t: nat, f: nat, c: nat)
    requires
        c > 0,
        number > 0,
        number * c == n,
        power(2, t) * power(5, f) * c == tens(s),
        t > 0 ==> number % 2 != 0,
        f > 0 ==> number % 5 != 0,
        s > 0,
    ensures
        power(2, t) * power(5, f) > 0,
        scaled(n, -(s as int)) == (if number <= i64::MAX && power(2, t) * power(5, f) <= i64::MAX {
            Some(
                ExactRational {
                    numerator: number as i64,
                    denominator: (power(2, t) * power(5, f)) as i64,
                },
            )
        } else {
            None
        }),
{
    let d = power(2, t) * power(5, f);
    lemma_no_common_divisor(number, t, f);
    lemma_coprime(number, d);
    law_quotient_is_unchanged_by_scaling(number, d, c);
}

/// The digits of a mantissa without its point.
fn mantissa_digits(t: &Vec<u8>, dot: usize, mark: usize) -> (r: Vec<u8>)
    requires
        dot <= mark <= t@.len(),
    ensures
        r@ == t@.subrange(0, mark as int).subrange(0, dot as int) + (if dot < mark {
            t@.subrange(0, mark as int).subrange(dot + 1, mark as int)
        } else {
            Seq::empty()
        }),
{
    let mut digits: Vec<u8> = Vec::new();
    for i in 0..dot
        invariant
            dot <= mark <= t@.len(),
            digits@ == t@.subrange(0, i as int),
    {
        digits.push(t[i]);
        assert(digits@ =~= t@.subrange(0, i as int + 1));
    }
    let ghost whole = t@.subrange(0, dot as int);
    if dot < mark {
        assert(digits@ =~= whole + t@.subrange(dot + 1, dot + 1));
        for i in dot + 1..mark
            invariant
                dot < mark <= t@.len(),
                digits@ == whole + t@.subrange(dot + 1, i as int),
        {
            digits.push(t[i]);
            assert(digits@ =~= whole + t@.subrange(dot + 1, i as int + 1));
        }
        assert(t@.subrange(0, mark as int).subrange(dot + 1, mark as int) =~= t@.subrange(dot + 1, mark as int));
    } else {
        assert(digits@ =~= whole + Seq::empty());
    }
    assert(t@.subrange(0, mark as int).subrange(0, dot as int) =~= whole);
    digits
}

fn find_byte(text: &Vec<u8>, end: usize, a: u8, b: u8) -> (r: usize)
    requires
        end <= text@.len(),
    ensures
        r <= end,
        r == run_end(text@.subrange(0, end as int), 0, |x: u8| x != a && x != b),
{
    let ghost part = text@.subrange(0, end as int);
    let mut q: usize = 0;
    while q < end && text[q] != a && text[q] != b
        invariant
            q <= end <= text@.len(),
            part == text@.subrange(0, end as int),
            run_end(part, 0, |x: u8| x != a && x != b) == run_end(part, q as int, |x: u8| x != a && x != b),
        decreases end - q,
    {
        q = q + 1;
    }
    q
}

/// Whether a part of some bytes is digits, and not empty.
fn are_digits(text: &Vec<u8>, start: usize) -> (r: bool)
    requires
        start <= text@.len(),
    ensures
        r == all_digits(text@.subrange(start as int, text@.len() as int)),
{
    let ghost all = text@.subrange(start as int, text@.len() as int);
    if start == text.len() {
        return false;
    }
    for i in start..text.len()
        invariant
            start <= text@.len(),
            all == text@.subrange(start as int, text@.len() as int),
            forall|j: int| 0 <= j < i - start ==> is_digit(#[trigger] all[j]),
    {
        if text[i] < 48 || text[i] > 57 {
            assert(!is_digit(all[i - start]));
            return false;
        }
    }
    true
}

/// An exponent as it is written.
struct Exponent {
    negative: bool,
    /// Its size, where that can be counted.
    size: Option<u128>,
}

/// An exponent that is larger than this is out of range whatever it scales.
spec fn countless() -> int {
    1267650600228229401496703205376
}

impl Exponent {
    spec fn denotes(self, value: int) -> bool {
        match self.size {
            Some(size) => size <= countless() && value == if self.negative { -(size as int) } else { size as int },
            None => if self.negative { value < -countless() } else { value > countless() },
        }
    }
}

fn parse_exponent(text: &Vec<u8>, start: usize) -> (r: Option<Exponent>)
    requires
        start <= text@.len(),
    ensures
        match (r, exponent_value(text@.subrange(start as int, text@.len() as int))) {
            (Some(e), Some(value)) => e.denotes(value),
            (None, None) => true,
            _ => false,
        },
{
    let ghost all = text@.subrange(start as int, text@.len() as int);
    let signed = start < text.len() && (text[start] == 45 || text[start] == 43);
    let negative = start < text.len() && text[start] == 45;
    let from: usize = if signed { start + 1 } else { start };
    proof {
        if signed {
            assert(all.subrange(1, all.len() as int) =~= text@.subrange(start as int + 1, text@.len() as int));
        }
    }
    if !are_digits(text, from) {
        return None;
    }
    proof {
        let digits = text@.subrange(from as int, text@.len() as int);
        lemma_digits_prefix(digits, digits.len() as int);
        assert(digits.take(digits.len() as int) =~= digits);
    }
    Some(Exponent { negative, size: parse_bounded(text, from, text.len(), 1267650600228229401496703205376) })
}

/// A number in decimal digits over two or five, and the rest.
fn divided(digits: &Vec<u8>, by: u8) -> (r: (Vec<u8>, u8))
    requires
        all_digits(digits@),
        1 < by < 10,
    ensures
        all_digits(r.0@),
        r.1 < by,
        digits_value(r.0@) * by + r.1 == digits_value(digits@),
{
    let mut out: Vec<u8> = Vec::new();
    let mut rest: u8 = 0;
    assert(digits@.take(0).len() == 0);
    for i in 0..digits.len()
        invariant
            all_digits(digits@),
            1 < by < 10,
            rest < by,
            out@.len() == i,
            forall|j: int| 0 <= j < i ==> is_digit(#[trigger] out@[j]),
            digits_value(out@) * by + rest == digits_value(digits@.take(i as int)),
    {
        let ghost before = out@;
        let ghost carried = rest;
        assert(is_digit(digits@[i as int]));
        let value: u8 = rest * 10 + (digits[i] - 48);
        let digit: u8 = value / by;
        assert(digit <= 9) by (nonlinear_arith)
            requires
                value <= (by - 1) * 10 + 9,
                digit == value / by,
                1 < by < 10,
        ;
        out.push(digit + 48);
        rest = value % by;
        proof {
            assert(digits@.take(i as int + 1).drop_last() =~= digits@.take(i as int));
            assert(out@.drop_last() =~= before);
            vstd::arithmetic::div_mod::lemma_fundamental_div_mod(value as int, by as int);
            let high = digits_value(before);
            assert((high * 10 + digit) * by == (high * by) * 10 + by * digit) by (nonlinear_arith);
        }
    }
    assert(digits@.take(digits@.len() as int) =~= digits@);
    (out, rest)
}

fn power_of(base: i128, k: u32, bound: u32) -> (r: i128)
    requires
        k <= bound,
        base == 2 && bound == 62 || base == 5 && bound == 27 || base == 10 && bound == 18,
    ensures
        r == power(base as int, k as nat),
        1 <= r <= i64::MAX,
{
    let mut value: i128 = 1;
    proof {
        lemma_large();
    }
    for i in 0..k
        invariant
            k <= bound,
            base == 2 && bound == 62 || base == 5 && bound == 27 || base == 10 && bound == 18,
            power(base as int, bound as nat) <= i64::MAX,
            value == power(base as int, i as nat),
            1 <= value <= i64::MAX,
    {
        proof {
            lemma_power_grow(base as int, (i + 1) as nat, bound as nat);
        }
        value = value * base;
    }
    value
}

/// A number in decimal digits over a power of ten.
fn over_power_of_ten(digits: Vec<u8>, s: u32) -> (r: Option<ExactRational>)
    requires
        all_digits(digits@),
        digits_value(digits@) > 0,
        0 < s <= 62,
    ensures
        r == scaled(digits_value(digits@), -(s as int)),
{
    let ghost n = digits_value(digits@);
    let mut number = digits;
    let mut twos: u32 = s;
    let mut fives: u32 = s;
    let ghost mut c: nat = 1;
    proof {
        lemma_tens_split(s as nat);
    }
    let mut going: bool = true;
    while going && twos > 0
        invariant
            0 < s <= 62,
            fives == s,
            twos <= s,
            all_digits(number@),
            digits_value(number@) > 0,
            c > 0,
            digits_value(number@) * c == n,
            power(2, twos as nat) * power(5, fives as nat) * c == tens(s as nat),
            !going ==> digits_value(number@) % 2 != 0,
        decreases twos, if going { 1int } else { 0int },
    {
        let (half, rest) = divided(&number, 2);
        if rest == 0 {
            proof {
                let before = digits_value(number@);
                let after = digits_value(half@);
                let p = power(2, (twos - 1) as nat);
                let q = power(5, fives as nat);
                assert((after * 2) * c == after * (c * 2)) by (nonlinear_arith);
                assert((2 * p) * q * c == p * q * (c * 2)) by (nonlinear_arith);
                c = c * 2;
            }
            number = half;
            twos = twos - 1;
        } else {
            going = false;
        }
    }
    going = true;
    while going && fives > 0
        invariant
            0 < s <= 62,
            twos <= s,
            fives <= s,
            all_digits(number@),
            digits_value(number@) > 0,
            c > 0,
            digits_value(number@) * c == n,
            power(2, twos as nat) * power(5, fives as nat) * c == tens(s as nat),
            twos > 0 ==> digits_value(number@) % 2 != 0,
            !going ==> digits_value(number@) % 5 != 0,
        decreases fives, if going { 1int } else { 0int },
    {
        let (fifth, rest) = divided(&number, 5);
        if rest == 0 {
            proof {
                let before = digits_value(number@);
                let after = digits_value(fifth@);
                let p = power(2, twos as nat);
                let q = power(5, (fives - 1) as nat);
                assert((after * 5) * c == after * (c * 5)) by (nonlinear_arith);
                assert(p * (5 * q) * c == p * q * (c * 5)) by (nonlinear_arith);
                c = c * 5;
            }
            number = fifth;
            fives = fives - 1;
        } else {
            going = false;
        }
    }
    let ghost value = digits_value(number@);
    proof {
        lemma_lowest_terms(n, s as nat, value, twos as nat, fives as nat, c);
        lemma_large();
        lemma_power_grow(2, 0, twos as nat);
    }
    if fives > 27 {
        proof {
            lemma_power_grow(5, 28, fives as nat);
            let p = power(2, twos as nat);
            let q = power(5, fives as nat);
            assert(p * q >= q) by (nonlinear_arith)
                requires
                    p >= 1,
                    q >= 1,
            ;
        }
        return None;
    }
    let p = power_of(2, twos, 62);
    let q = power_of(5, fives, 27);
    assert(0 < p * q < i128::MAX) by (nonlinear_arith)
        requires
            1 <= p <= i64::MAX,
            1 <= q <= i64::MAX,
    ;
    let denominator: i128 = p * q;
    assert(number@.subrange(0, number@.len() as int) =~= number@);
    match parse_bounded(&number, 0, number.len(), 9223372036854775807) {
        Some(v) => if denominator <= 9223372036854775807 {
            Some(ExactRational { numerator: v as i64, denominator: denominator as i64 })
        } else {
            None
        },
        None => None,
    }
}

/// How many digits are left when the zeros at the end are dropped.
fn without_zeros(digits: &Vec<u8>) -> (r: usize)
    requires
        all_digits(digits@),
    ensures
        r <= digits@.len(),
        digits_value(digits@) == digits_value(digits@.take(r as int)) * tens((digits@.len() - r) as nat),
        r > 0 ==> digits@[r - 1] != 48,
{
    let mut used: usize = digits.len();
    assert(digits@.take(digits@.len() as int) =~= digits@);
    while used > 0 && digits[used - 1] == 48
        invariant
            used <= digits@.len(),
            digits_value(digits@) == digits_value(digits@.take(used as int)) * tens((digits@.len() - used) as nat),
        decreases used,
    {
        proof {
            let front = digits@.take(used as int);
            assert(front.drop_last() =~= digits@.take(used as int - 1));
            let a = digits_value(digits@.take(used as int - 1));
            let p = tens((digits@.len() - used) as nat);
            assert((a * 10) * p == a * (10 * p)) by (nonlinear_arith);
            assert(tens((digits@.len() - (used - 1)) as nat) == 10 * p);
        }
        used = used - 1;
    }
    used
}

/// A number in decimal digits that does not end in zero, times a power of ten.
fn scaled_digits(digits: Vec<u8>, shift: i128) -> (r: Option<ExactRational>)
    requires
        all_digits(digits@),
        digits_value(digits@) > 0,
        digits_value(digits@) % 10 != 0,
    ensures
        r == scaled(digits_value(digits@), shift as int),
{
    let ghost n = digits_value(digits@);
    if shift > 18 || shift < -62 {
        proof {
            lemma_out_of_range(n, shift as int);
        }
        return None;
    }
    if shift < 0 {
        return over_power_of_ten(digits, (-shift) as u32);
    }
    let factor = power_of(10, shift as u32, 18);
    assert(digits@.subrange(0, digits@.len() as int) =~= digits@);
    match parse_bounded(&digits, 0, digits.len(), 9223372036854775807) {
        Some(v) => {
            assert(0 <= v * factor < i128::MAX) by (nonlinear_arith)
                requires
                    0 <= v <= i64::MAX,
                    1 <= factor <= i64::MAX,
            ;
            match ExactRational::try_new_i128(v as i128 * factor, 1) {
                Ok(exact) => Some(exact),
                Err(_) => None,
            }
        },
        None => {
            proof {
                assert(n * factor >= n) by (nonlinear_arith)
                    requires
                        n >= 1,
                        factor >= 1,
                ;
                lemma_whole(n * factor);
            }
            None
        },
    }
}

/// The number that some digits denote, without the zeros at their end.
proof fn lemma_last_digit(all: Seq<u8>, used: int)
    requires
        all_digits(all),
        0 < used <= all.len(),
        all[used - 1] != 48,
    ensures
        all_digits(all.take(used)),
        digits_value(all.take(used)) > 0,
        digits_value(all.take(used)) % 10 != 0,
{
    let digits = all.take(used);
    lemma_digits_prefix(all, used - 1);
    assert(digits.drop_last() =~= all.take(used - 1));
    assert(is_digit(all[used - 1]));
    assert(digits.last() == all[used - 1]);
    assert forall|i: int| 0 <= i < digits.len() implies is_digit(#[trigger] digits[i]) by {
        assert(digits[i] == all[i]);
    }
}

/// Digits with an exponent, the last of them after the point.
fn scaled_mantissa(digits: Vec<u8>, exponent: Exponent, fraction: usize, Ghost(value): Ghost<int>) -> (r: Option<
    ExactRational,
>)
    requires
        all_digits(digits@),
        exponent.denotes(value),
    ensures
        r == scaled(digits_value(digits@), value - fraction),
{
    let ghost all = digits@;
    let ghost e = value - fraction;
    let mut digits = digits;
    let used = without_zeros(&digits);
    let zeros: usize = digits.len() - used;
    if used == 0 {
        proof {
            assert(all.take(0).len() == 0);
            law_zero_is_exact(e);
        }
        return Some(ExactRational::from_integer(0));
    }
    digits.truncate(used);
    let ghost n = digits_value(digits@);
    proof {
        assert(digits@ =~= all.take(used as int));
        lemma_last_digit(all, used as int);
        law_zeros_shift_the_scale(n, zeros as nat, e);
    }
    match exponent.size {
        Some(size) => {
            let signed: i128 = if exponent.negative {
                -(size as i128)
            } else {
                size as i128
            };
            scaled_digits(digits, signed - fraction as i128 + zeros as i128)
        },
        None => {
            proof {
                lemma_out_of_range(n, e + zeros);
            }
            None
        },
    }
}

/// The exact value of a decimal literal, where it has one.
pub fn exact_decimal_literal(bytes: &[u8], start: usize, end: usize) -> (r: Option<ExactRational>)
    requires
        start <= end <= bytes@.len(),
    ensures
        r == exact_decimal(bytes@.subrange(start as int, end as int)),
{
    let t = strip_separators(bytes, start, end);
    assert(t@.subrange(0, t@.len() as int) =~= t@);
    let mark = find_byte(&t, t.len(), 101, 69);
    let exponent: Option<Exponent> = if mark < t.len() {
        parse_exponent(&t, mark + 1)
    } else {
        Some(Exponent { negative: false, size: Some(0) })
    };
    let exponent = match exponent {
        Some(exponent) => exponent,
        None => return None,
    };
    let dot = find_byte(&t, mark, 46, 46);
    assert((|x: u8| x != 46u8 && x != 46u8) =~= (|x: u8| x != 46u8));
    let digits = mantissa_digits(&t, dot, mark);
    let fraction: usize = if dot < mark {
        mark - dot - 1
    } else {
        0
    };
    assert(digits@.subrange(0, digits@.len() as int) =~= digits@);
    if !are_digits(&digits, 0) {
        return None;
    }
    let ghost value = if mark < t@.len() {
        exponent_value(t@.subrange(mark + 1, t@.len() as int))->0
    } else {
        0
    };
    scaled_mantissa(digits, exponent, fraction, Ghost(value))
}

} // verus!

//! Integer helpers for tick conversions: greatest common divisors and
//! rounded division.

use vstd::arithmetic::div_mod::{
    lemma_div_multiples_vanish_quotient, lemma_fundamental_div_mod,
    lemma_fundamental_div_mod_converse, lemma_mod_multiples_basic, lemma_small_mod,
};
use vstd::prelude::*;

verus! {

/// `d` divides `n`. Zero divides only zero.
pub open spec fn divides(d: nat, n: nat) -> bool {
    if d == 0 {
        n == 0
    } else {
        n % d == 0
    }
}

/// `g` is the greatest common divisor of `a` and `b`: it divides both, and
/// every number that divides both divides `g`.
pub open spec fn is_gcd(g: nat, a: nat, b: nat) -> bool {
    &&& divides(g, a)
    &&& divides(g, b)
    &&& forall|d: nat| #[trigger] divides(d, a) && divides(d, b) ==> divides(d, g)
}

/// The greatest common divisor of `a` and `b`; that of 0 and 0 is 0.
pub open spec fn greatest_common_divisor(a: nat, b: nat) -> nat {
    choose|g: nat| is_gcd(g, a, b)
}

/// Whatever divides `x` and `y` divides `x + k * y` and, where it is not
/// negative, `x - k * y`.
proof fn lemma_divides_combination(d: nat, x: nat, y: nat, k: nat)
    requires
        divides(d, x),
        divides(d, y),
    ensures
        divides(d, x + k * y),
        x >= k * y ==> divides(d, (x - k * y) as nat),
{
    if d == 0 {
        assert(k * y == 0) by (nonlinear_arith)
            requires
                y == 0,
        ;
    } else {
        let di = d as int;
        lemma_fundamental_div_mod(x as int, di);
        lemma_fundamental_div_mod(y as int, di);
        let p = x as int / di;
        let q = y as int / di;
        assert(x + k * y == (p + k * q) * di) by (nonlinear_arith)
            requires
                x == di * p,
                y == di * q,
        ;
        lemma_mod_multiples_basic(p + k * q, di);
        if x >= k * y {
            assert(x - k * y == (p - k * q) * di) by (nonlinear_arith)
                requires
                    x == di * p,
                    y == di * q,
            ;
            lemma_mod_multiples_basic(p - k * q, di);
        }
    }
}

/// Two numbers that divide each other are equal.
proof fn lemma_divides_antisymmetric(x: nat, y: nat)
    requires
        divides(x, y),
        divides(y, x),
    ensures
        x == y,
{
    if x != 0 && y != 0 {
        if x < y {
            lemma_small_mod(x, y);
        } else if y < x {
            lemma_small_mod(y, x);
        }
    }
}

/// At most one number is the greatest common divisor of `a` and `b`.
pub proof fn lemma_gcd_unique(g1: nat, g2: nat, a: nat, b: nat)
    requires
        is_gcd(g1, a, b),
        is_gcd(g2, a, b),
    ensures
        g1 == g2,
{
    lemma_divides_antisymmetric(g1, g2);
}

/// `a` is the greatest common divisor of `a` and 0.
pub proof fn lemma_gcd_zero(a: nat)
    ensures
        is_gcd(a, a, 0),
        greatest_common_divisor(a, 0) == a,
{
    if a != 0 {
        lemma_mod_multiples_basic(1, a as int);
    }
    assert(is_gcd(a, a, 0));
    lemma_gcd_unique(greatest_common_divisor(a, 0), a, a, 0);
}

/// Euclid's step: the pairs `(a, b)` and `(b, a % b)` have the same greatest
/// common divisors.
pub proof fn lemma_is_gcd_step(g: nat, a: nat, b: nat)
    requires
        b > 0,
    ensures
        is_gcd(g, a, b) <==> is_gcd(g, b, a % b),
{
    let r = a % b;
    let k = a / b;
    lemma_fundamental_div_mod(a as int, b as int);
    assert(a == r + k * b && a >= k * b && r == a - k * b) by (nonlinear_arith)
        requires
            a == b * k + r,
            r >= 0,
            k >= 0,
    ;
    assert forall|d: nat| divides(d, a) && divides(d, b) implies divides(d, r) by {
        lemma_divides_combination(d, a, b, k);
    }
    assert forall|d: nat| divides(d, b) && divides(d, r) implies divides(d, a) by {
        lemma_divides_combination(d, r, b, k);
    }
    if is_gcd(g, a, b) {
        assert forall|d: nat| #[trigger] divides(d, b) && divides(d, r) implies divides(d, g) by {
            assert(divides(d, a));
        }
        assert(is_gcd(g, b, r));
    }
    if is_gcd(g, b, r) {
        assert forall|d: nat| #[trigger] divides(d, a) && divides(d, b) implies divides(d, g) by {
            assert(divides(d, r));
        }
        assert(is_gcd(g, a, b));
    }
}

/// Every pair of numbers has a greatest common divisor.
pub proof fn lemma_gcd_is_gcd(a: nat, b: nat)
    ensures
        is_gcd(greatest_common_divisor(a, b), a, b),
    decreases b,
{
    if b == 0 {
        lemma_gcd_zero(a);
    } else {
        lemma_gcd_is_gcd(b, a % b);
        lemma_is_gcd_step(greatest_common_divisor(b, a % b), a, b);
    }
}

/// Euclid's step on the greatest common divisor itself.
pub proof fn lemma_gcd_step(a: nat, b: nat)
    requires
        b > 0,
    ensures
        greatest_common_divisor(a, b) == greatest_common_divisor(b, a % b),
{
    lemma_gcd_is_gcd(a, b);
    lemma_gcd_is_gcd(b, a % b);
    lemma_is_gcd_step(greatest_common_divisor(b, a % b), a, b);
    lemma_gcd_unique(greatest_common_divisor(a, b), greatest_common_divisor(b, a % b), a, b);
}

/// The greatest common divisor of a pair that is not `(0, 0)` is positive and
/// no larger than either nonzero member.
pub proof fn lemma_gcd_bounds(a: nat, b: nat)
    ensures
        a > 0 ==> 1 <= greatest_common_divisor(a, b) <= a,
        b > 0 ==> 1 <= greatest_common_divisor(a, b) <= b,
{
    lemma_gcd_is_gcd(a, b);
    let g = greatest_common_divisor(a, b);
    if a > 0 && g > a {
        lemma_small_mod(a, g);
    }
    if b > 0 && g > b {
        lemma_small_mod(b, g);
    }
}

/// Splitting off the greatest common divisor: `a` and `b` are `g` times
/// their quotients by `g`.
pub proof fn lemma_gcd_factors(a: nat, b: nat)
    requires
        a > 0 || b > 0,
    ensures
        greatest_common_divisor(a, b) > 0,
        a == greatest_common_divisor(a, b) * (a / greatest_common_divisor(a, b)),
        b == greatest_common_divisor(a, b) * (b / greatest_common_divisor(a, b)),
{
    lemma_gcd_bounds(a, b);
    lemma_gcd_is_gcd(a, b);
    let g = greatest_common_divisor(a, b);
    lemma_fundamental_div_mod(a as int, g as int);
    lemma_fundamental_div_mod(b as int, g as int);
}

/// Computes the greatest common divisor of `a` and `b` by Euclid's
/// algorithm.
pub fn gcd(a: u64, b: u64) -> (g: u64)
    ensures
        g == greatest_common_divisor(a as nat, b as nat),
        is_gcd(g as nat, a as nat, b as nat),
    decreases b,
{
    if b == 0 {
        proof {
            lemma_gcd_zero(a as nat);
        }
        a
    } else {
        proof {
            lemma_gcd_step(a as nat, b as nat);
            lemma_gcd_is_gcd(a as nat, b as nat);
        }
        gcd(b, a % b)
    }
}

/// `n / d` rounded up, for `d > 0`.
pub open spec fn ceil_div(n: nat, d: nat) -> nat {
    ((n + d - 1) / (d as int)) as nat
}

/// `n / d` rounded to the nearest whole number, halves of an even `d` rounded
/// up, for `d > 0`.
pub open spec fn round_div(n: nat, d: nat) -> nat {
    (n + d / 2) / d
}

/// `ceil_div(n, d)` is the least `q` with `n <= q * d`.
pub proof fn lemma_ceil_div_is_least(n: nat, d: nat)
    requires
        d > 0,
    ensures
        n <= ceil_div(n, d) * d,
        forall|q: nat| n <= #[trigger] (q * d) ==> ceil_div(n, d) <= q,
        n % d == 0 ==> ceil_div(n, d) == n / d,
        n % d != 0 ==> ceil_div(n, d) == n / d + 1,
{
    let di = d as int;
    let k = n as int / di;
    let r = n as int % di;
    lemma_fundamental_div_mod(n as int, di);
    if r == 0 {
        assert(n + d - 1 == k * di + (d - 1)) by (nonlinear_arith)
            requires
                n == di * k + r,
                r == 0,
                di == d,
        ;
        lemma_fundamental_div_mod_converse(n + d - 1, di, k, d - 1);
    } else {
        assert(n + d - 1 == (k + 1) * di + (r - 1)) by (nonlinear_arith)
            requires
                n == di * k + r,
                di == d,
        ;
        lemma_fundamental_div_mod_converse(n + d - 1, di, k + 1, r - 1);
    }
    let c = ceil_div(n, d);
    assert(n <= c * d) by (nonlinear_arith)
        requires
            di == d,
            n == di * k + r,
            0 <= r < di,
            r == 0 ==> c == k,
            r != 0 ==> c == k + 1,
    ;
    assert forall|q: nat| n <= #[trigger] (q * d) implies c <= q by {
        assert(c <= q) by (nonlinear_arith)
            requires
                di == d,
                n == di * k + r,
                0 <= r < di,
                r == 0 ==> c == k,
                r != 0 ==> c == k + 1,
                n <= q * d,
        ;
    }
}

/// Multiplying both sides of a division by the same positive number changes
/// neither the quotient rounded down nor the quotient rounded up.
pub proof fn lemma_div_scale(n: nat, d: nat, g: nat)
    requires
        d > 0,
        g > 0,
    ensures
        (n * g) / (d * g) == n / d,
        ceil_div(n * g, d * g) == ceil_div(n, d),
{
    lemma_div_multiples_vanish_quotient(g as int, n as int, d as int);
    assert(g * n == n * g && g * d == d * g) by (nonlinear_arith);
    let m = (n + d - 1) as nat;
    let q = m as int / (d as int);
    let r = m as int % (d as int);
    lemma_fundamental_div_mod(m as int, d as int);
    assert(n * g + d * g - 1 == q * (d * g) + (r * g + g - 1) && 0 <= r * g + g - 1 < d * g)
        by (nonlinear_arith)
        requires
            n + d - 1 == d * q + r,
            0 <= r < d,
            g > 0,
    ;
    lemma_fundamental_div_mod_converse(n * g + d * g - 1, (d * g) as int, q, r * g + g - 1);
}

/// Divides `num` by `den`, rounding up. No intermediate value overflows.
pub fn div_ceil(num: u64, den: u64) -> (q: u64)
    requires
        den > 0,
    ensures
        q == ceil_div(num as nat, den as nat),
{
    proof {
        lemma_ceil_div_is_least(num as nat, den as nat);
        lemma_fundamental_div_mod(num as int, den as int);
    }
    let q: u64 = num / den;
    if num % den == 0 {
        q
    } else {
        assert(q < u64::MAX) by (nonlinear_arith)
            requires
                num == den * q + num % den,
                num % den > 0,
                q >= 0,
                den > 0,
                num <= u64::MAX,
        ;
        q + 1
    }
}

/// The quotient rounded down is the one `q` with `q * d <= n < (q + 1) * d`.
pub proof fn lemma_floor_div_is(n: nat, d: nat, q: nat)
    requires
        d > 0,
    ensures
        n / d == q <==> q * d <= n < (q + 1) * d,
{
    let k = n / d;
    let r = n % d;
    lemma_fundamental_div_mod(n as int, d as int);
    if q * d <= n < (q + 1) * d {
        assert(0 <= n - q * d < d) by (nonlinear_arith)
            requires
                q * d <= n < (q + 1) * d,
        ;
        lemma_fundamental_div_mod_converse(n as int, d as int, q as int, n - q * d);
    }
    if k == q {
        assert(q * d <= n < (q + 1) * d) by (nonlinear_arith)
            requires
                n == d * k + r,
                0 <= r < d,
                k == q,
        ;
    }
}

} // verus!

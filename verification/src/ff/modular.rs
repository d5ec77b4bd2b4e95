//! Arithmetic modulo a prime
//!
//! The integers below a prime `p`, with addition and multiplication modulo
//! `p`, are a field: the lemmas here are what a prime field needs to show
//! that it meets the contract of a finite field.

use vstd::arithmetic::div_mod::{
    lemma_add_mod_noop, lemma_fundamental_div_mod, lemma_mod_multiples_basic,
    lemma_mod_multiples_vanish, lemma_mul_mod_noop_general, lemma_small_mod,
};
use vstd::prelude::*;

verus! {

/// `d` divides `n`.
pub open spec fn divides(d: int, n: int) -> bool {
    d != 0 && n % d == 0
}

/// `p` is a prime: at least two, with no divisor between one and itself.
pub open spec fn is_prime(p: int) -> bool {
    p >= 2 && forall|d: int| 1 < d < p ==> !#[trigger] divides(d, p)
}

/// The greatest common divisor of `x` and `y`.
pub open spec fn gcd(x: nat, y: nat) -> nat
    decreases y,
{
    if y == 0 {
        x
    } else {
        gcd(y, x % y)
    }
}

/// The greatest common divisor divides both numbers.
pub proof fn lemma_gcd_divides(x: nat, y: nat)
    requires
        x > 0,
    ensures
        gcd(x, y) > 0,
        divides(gcd(x, y) as int, x as int),
        divides(gcd(x, y) as int, y as int),
    decreases y,
{
    if y == 0 {
        lemma_mod_multiples_basic(1, x as int);
        lemma_mod_multiples_basic(0, x as int);
    } else {
        let g = gcd(y, x % y) as int;
        let r = (x % y) as int;
        lemma_gcd_divides(y, x % y);
        lemma_fundamental_div_mod(x as int, y as int);
        lemma_fundamental_div_mod(y as int, g);
        lemma_fundamental_div_mod(r, g);
        let q = x as int / y as int;
        let k = q * (y as int / g) + r / g;
        assert(x as int == k * g) by (nonlinear_arith)
            requires
                x as int == y as int * q + r,
                y as int == g * (y as int / g),
                r == g * (r / g),
                k == q * (y as int / g) + r / g,
        ;
        lemma_mod_multiples_basic(k, g);
    }
}

/// The greatest common divisor of `x` and `y` is a sum of multiples of the
/// two: the lemma hands out the two factors.
pub proof fn lemma_bezout(x: nat, y: nat) -> (st: (int, int))
    ensures
        st.0 * x + st.1 * y == gcd(x, y),
    decreases y,
{
    if y == 0 {
        (1, 0)
    } else {
        let (s, t) = lemma_bezout(y, x % y);
        lemma_fundamental_div_mod(x as int, y as int);
        let q = x as int / y as int;
        let r = (x % y) as int;
        // t * x + (s - q * t) * y = t * (y * q + r) + s * y - q * t * y = s * y + t * r
        assert(t * x == t * (y * q) + t * r) by (nonlinear_arith)
            requires
                x as int == y as int * q + r,
        ;
        assert((s - q * t) * y == s * y - (q * t) * y) by (nonlinear_arith);
        assert(t * (y * q) == (q * t) * y) by (nonlinear_arith);
        (t, s - q * t)
    }
}

/// Every number between zero and a prime is coprime to the prime.
pub proof fn lemma_gcd_with_prime(p: nat, a: nat)
    requires
        is_prime(p as int),
        0 < a < p,
    ensures
        gcd(p, a) == 1,
{
    let g = gcd(p, a);
    lemma_gcd_divides(p, a);
    // g divides a, which is positive: g is at most a, hence below p.
    lemma_fundamental_div_mod(a as int, g as int);
    let k = a as int / g as int;
    assert(g <= a) by (nonlinear_arith)
        requires
            a as int == g as int * k,
            a > 0,
            g > 0,
    ;
    // g divides p, a prime: g is not between one and p.
    assert(divides(g as int, p as int));
}

/// Every number between zero and a prime has an inverse modulo the prime.
pub proof fn lemma_inverse_exists(p: int, a: int)
    requires
        is_prime(p),
        0 < a < p,
    ensures
        exists|x: int| 0 <= x < p && #[trigger] ((a * x) % p) == 1,
{
    lemma_gcd_with_prime(p as nat, a as nat);
    let (s, t) = lemma_bezout(p as nat, a as nat);
    // s * p + t * a = 1, so t * a = 1 modulo p, and so is (t % p) * a.
    let x = t % p;
    lemma_mod_multiples_vanish(s, t * a, p);
    assert(p * s + t * a == s * p + t * a) by (nonlinear_arith);
    lemma_small_mod(1, p as nat);
    lemma_mul_mod_noop_general(a, t, p);
    assert(a * t == t * a) by (nonlinear_arith);
    assert((a * x) % p == 1);
}

/// A number has at most one inverse modulo `p` among the numbers below `p`.
pub proof fn lemma_inverse_unique(p: int, a: int, x: int, y: int)
    requires
        p > 1,
        0 <= x < p,
        0 <= y < p,
        (a * x) % p == 1,
        (a * y) % p == 1,
    ensures
        x == y,
{
    // x = x * (a * y) = (a * x) * y = y modulo p
    lemma_mul_mod_noop_general(x, a * y, p);
    lemma_mul_mod_noop_general(a * x, y, p);
    assert(x * (a * y) == (a * x) * y) by (nonlinear_arith);
    assert(x * 1 == x && 1 * y == y);
    lemma_small_mod(x as nat, p as nat);
    lemma_small_mod(y as nat, p as nat);
}

/// Addition modulo `p` is associative.
pub proof fn lemma_add_mod_associative(p: int, a: int, b: int, c: int)
    requires
        p > 0,
    ensures
        ((a + b) % p + c) % p == (a + (b + c) % p) % p,
{
    lemma_add_mod_noop(a + b, c, p);
    lemma_add_mod_noop(a, b + c, p);
    vstd::arithmetic::div_mod::lemma_mod_twice(a + b, p);
    vstd::arithmetic::div_mod::lemma_mod_twice(b + c, p);
    lemma_add_mod_noop((a + b) % p, c, p);
    lemma_add_mod_noop(a, (b + c) % p, p);
}

/// Multiplication modulo `p` is associative.
pub proof fn lemma_mul_mod_associative(p: int, a: int, b: int, c: int)
    requires
        p > 0,
    ensures
        (((a * b) % p) * c) % p == (a * ((b * c) % p)) % p,
{
    lemma_mul_mod_noop_general(a * b, c, p);
    lemma_mul_mod_noop_general(a, b * c, p);
    assert((a * b) * c == a * (b * c)) by (nonlinear_arith);
}

/// Multiplication modulo `p` distributes over addition modulo `p`.
pub proof fn lemma_mul_mod_distributive(p: int, a: int, b: int, c: int)
    requires
        p > 0,
    ensures
        (a * ((b + c) % p)) % p == ((a * b) % p + (a * c) % p) % p,
{
    lemma_mul_mod_noop_general(a, b + c, p);
    lemma_add_mod_noop(a * b, a * c, p);
    assert(a * (b + c) == a * b + a * c) by (nonlinear_arith);
}

} // verus!

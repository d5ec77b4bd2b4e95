//! What follows from the field axioms
//!
//! Each lemma holds in every field: it is proved from the laws that
//! `FiniteField` asks of its spec functions, and from nothing else.

use crate::ff::{FiniteField, QuadraticBase};
use vstd::prelude::*;

verus! {

/// The field is closed under its operations, stated for all members at once.
pub proof fn lemma_closure<F: FiniteField>()
    ensures
        F::member(F::spec_zero()),
        F::member(F::spec_one()),
        forall|a: F::V| F::member(a) ==> F::member(#[trigger] F::spec_neg(a)),
        forall|a: F::V, b: F::V|
            F::member(a) && F::member(b) ==> F::member(#[trigger] F::spec_add(a, b)),
        forall|a: F::V, b: F::V|
            F::member(a) && F::member(b) ==> F::member(#[trigger] F::spec_mul(a, b)),
        forall|a: F::V|
            F::member(a) && a != F::spec_zero() ==> F::member(#[trigger] F::spec_inv(a)),
{
    F::lemma_identities();
    assert forall|a: F::V| F::member(a) implies F::member(#[trigger] F::spec_neg(a)) by {
        F::lemma_closed(a, a);
    }
    assert forall|a: F::V, b: F::V| F::member(a) && F::member(b) implies F::member(
        #[trigger] F::spec_add(a, b),
    ) by {
        F::lemma_closed(a, b);
    }
    assert forall|a: F::V, b: F::V| F::member(a) && F::member(b) implies F::member(
        #[trigger] F::spec_mul(a, b),
    ) by {
        F::lemma_closed(a, b);
    }
    assert forall|a: F::V| F::member(a) && a != F::spec_zero() implies F::member(
        #[trigger] F::spec_inv(a),
    ) by {
        F::lemma_closed(a, a);
    }
}

/// `0 + a = a`
pub proof fn lemma_zero_add<F: FiniteField>(a: F::V)
    requires
        F::member(a),
    ensures
        F::spec_add(F::spec_zero(), a) == a,
{
    F::lemma_identities();
    F::lemma_add_commutative(F::spec_zero(), a);
    F::lemma_add_zero(a);
}

/// `(-a) + a = 0`
pub proof fn lemma_neg_add_self<F: FiniteField>(a: F::V)
    requires
        F::member(a),
    ensures
        F::spec_add(F::spec_neg(a), a) == F::spec_zero(),
{
    lemma_closure::<F>();
    F::lemma_add_commutative(F::spec_neg(a), a);
    F::lemma_add_neg(a);
}

/// `a + b = a + c` only if `b = c`
pub proof fn lemma_add_cancel<F: FiniteField>(a: F::V, b: F::V, c: F::V)
    requires
        F::member(a),
        F::member(b),
        F::member(c),
        F::spec_add(a, b) == F::spec_add(a, c),
    ensures
        b == c,
{
    lemma_closure::<F>();
    let na = F::spec_neg(a);
    lemma_neg_add_self::<F>(a);
    F::lemma_add_associative(na, a, b);
    F::lemma_add_associative(na, a, c);
    lemma_zero_add::<F>(b);
    lemma_zero_add::<F>(c);
}

/// `a + b = 0` only if `b = -a`
pub proof fn lemma_neg_unique<F: FiniteField>(a: F::V, b: F::V)
    requires
        F::member(a),
        F::member(b),
        F::spec_add(a, b) == F::spec_zero(),
    ensures
        b == F::spec_neg(a),
{
    lemma_closure::<F>();
    F::lemma_add_neg(a);
    lemma_add_cancel::<F>(a, b, F::spec_neg(a));
}

/// `-(-a) = a`
pub proof fn lemma_neg_neg<F: FiniteField>(a: F::V)
    requires
        F::member(a),
    ensures
        F::spec_neg(F::spec_neg(a)) == a,
{
    lemma_closure::<F>();
    lemma_neg_add_self::<F>(a);
    lemma_neg_unique::<F>(F::spec_neg(a), a);
}

/// `-0 = 0`
pub proof fn lemma_neg_zero<F: FiniteField>()
    ensures
        F::spec_neg(F::spec_zero()) == F::spec_zero(),
{
    lemma_closure::<F>();
    F::lemma_add_zero(F::spec_zero());
    lemma_neg_unique::<F>(F::spec_zero(), F::spec_zero());
}

/// `(a + b) + (c + d) = (a + c) + (b + d)`
pub proof fn lemma_add_interchange<F: FiniteField>(a: F::V, b: F::V, c: F::V, d: F::V)
    requires
        F::member(a),
        F::member(b),
        F::member(c),
        F::member(d),
    ensures
        F::spec_add(F::spec_add(a, b), F::spec_add(c, d)) == F::spec_add(
            F::spec_add(a, c),
            F::spec_add(b, d),
        ),
{
    lemma_closure::<F>();
    // (a + b) + (c + d) = a + (b + (c + d)) = a + ((b + c) + d)
    F::lemma_add_associative(a, b, F::spec_add(c, d));
    F::lemma_add_associative(b, c, d);
    // = a + ((c + b) + d) = a + (c + (b + d)) = (a + c) + (b + d)
    F::lemma_add_commutative(b, c);
    F::lemma_add_associative(c, b, d);
    F::lemma_add_associative(a, c, F::spec_add(b, d));
}

/// `-(a + b) = (-a) + (-b)`
pub proof fn lemma_neg_add<F: FiniteField>(a: F::V, b: F::V)
    requires
        F::member(a),
        F::member(b),
    ensures
        F::spec_neg(F::spec_add(a, b)) == F::spec_add(F::spec_neg(a), F::spec_neg(b)),
{
    lemma_closure::<F>();
    let na = F::spec_neg(a);
    let nb = F::spec_neg(b);
    lemma_add_interchange::<F>(a, b, na, nb);
    F::lemma_add_neg(a);
    F::lemma_add_neg(b);
    F::lemma_add_zero(F::spec_zero());
    lemma_neg_unique::<F>(F::spec_add(a, b), F::spec_add(na, nb));
}

/// `a * 0 = 0` and `0 * a = 0`
pub proof fn lemma_mul_zero<F: FiniteField>(a: F::V)
    requires
        F::member(a),
    ensures
        F::spec_mul(a, F::spec_zero()) == F::spec_zero(),
        F::spec_mul(F::spec_zero(), a) == F::spec_zero(),
{
    lemma_closure::<F>();
    let z = F::spec_zero();
    let az = F::spec_mul(a, z);
    // a * 0 = a * (0 + 0) = a * 0 + a * 0, and a * 0 = a * 0 + 0
    F::lemma_add_zero(z);
    F::lemma_distributive(a, z, z);
    F::lemma_add_zero(az);
    lemma_add_cancel::<F>(az, az, z);
    F::lemma_mul_commutative(a, z);
}

/// `1 * a = a`
pub proof fn lemma_one_mul<F: FiniteField>(a: F::V)
    requires
        F::member(a),
    ensures
        F::spec_mul(F::spec_one(), a) == a,
{
    F::lemma_identities();
    F::lemma_mul_commutative(F::spec_one(), a);
    F::lemma_mul_one(a);
}

/// `(a + b) * c = a * c + b * c`
pub proof fn lemma_distributive_right<F: FiniteField>(a: F::V, b: F::V, c: F::V)
    requires
        F::member(a),
        F::member(b),
        F::member(c),
    ensures
        F::spec_mul(F::spec_add(a, b), c) == F::spec_add(F::spec_mul(a, c), F::spec_mul(b, c)),
{
    lemma_closure::<F>();
    F::lemma_mul_commutative(F::spec_add(a, b), c);
    F::lemma_distributive(c, a, b);
    F::lemma_mul_commutative(c, a);
    F::lemma_mul_commutative(c, b);
}

/// `a * (-b) = -(a * b)` and `(-a) * b = -(a * b)`
pub proof fn lemma_mul_neg<F: FiniteField>(a: F::V, b: F::V)
    requires
        F::member(a),
        F::member(b),
    ensures
        F::spec_mul(a, F::spec_neg(b)) == F::spec_neg(F::spec_mul(a, b)),
        F::spec_mul(F::spec_neg(a), b) == F::spec_neg(F::spec_mul(a, b)),
{
    lemma_closure::<F>();
    let na = F::spec_neg(a);
    let nb = F::spec_neg(b);
    // a * b + a * (-b) = a * (b + (-b)) = a * 0 = 0
    F::lemma_distributive(a, b, nb);
    F::lemma_add_neg(b);
    lemma_mul_zero::<F>(a);
    lemma_neg_unique::<F>(F::spec_mul(a, b), F::spec_mul(a, nb));
    // a * b + (-a) * b = (a + (-a)) * b = 0 * b = 0
    lemma_distributive_right::<F>(a, na, b);
    F::lemma_add_neg(a);
    lemma_mul_zero::<F>(b);
    lemma_neg_unique::<F>(F::spec_mul(a, b), F::spec_mul(na, b));
}

/// A product of three members is the same in every order and grouping.
pub proof fn lemma_mul_three<F: FiniteField>(a: F::V, b: F::V, c: F::V)
    requires
        F::member(a),
        F::member(b),
        F::member(c),
    ensures
        F::spec_mul(a, F::spec_mul(b, c)) == F::spec_mul(F::spec_mul(a, b), c),
        F::spec_mul(a, F::spec_mul(c, b)) == F::spec_mul(F::spec_mul(a, b), c),
        F::spec_mul(F::spec_mul(a, c), b) == F::spec_mul(F::spec_mul(a, b), c),
        F::spec_mul(F::spec_mul(b, a), c) == F::spec_mul(F::spec_mul(a, b), c),
        F::spec_mul(b, F::spec_mul(a, c)) == F::spec_mul(F::spec_mul(a, b), c),
        F::spec_mul(b, F::spec_mul(c, a)) == F::spec_mul(F::spec_mul(a, b), c),
        F::spec_mul(F::spec_mul(b, c), a) == F::spec_mul(F::spec_mul(a, b), c),
        F::spec_mul(F::spec_mul(c, a), b) == F::spec_mul(F::spec_mul(a, b), c),
        F::spec_mul(c, F::spec_mul(a, b)) == F::spec_mul(F::spec_mul(a, b), c),
        F::spec_mul(c, F::spec_mul(b, a)) == F::spec_mul(F::spec_mul(a, b), c),
        F::spec_mul(F::spec_mul(c, b), a) == F::spec_mul(F::spec_mul(a, b), c),
{
    lemma_closure::<F>();
    F::lemma_mul_commutative(a, b);
    F::lemma_mul_commutative(a, c);
    F::lemma_mul_commutative(b, c);
    F::lemma_mul_associative(a, b, c);
    F::lemma_mul_associative(a, c, b);
    F::lemma_mul_associative(b, a, c);
    F::lemma_mul_commutative(F::spec_mul(b, c), a);
    F::lemma_mul_commutative(F::spec_mul(a, c), b);
    F::lemma_mul_commutative(F::spec_mul(a, b), c);
}

/// `a * b = 0` only if `a = 0` or `b = 0`
pub proof fn lemma_no_zero_divisors<F: FiniteField>(a: F::V, b: F::V)
    requires
        F::member(a),
        F::member(b),
        F::spec_mul(a, b) == F::spec_zero(),
    ensures
        a == F::spec_zero() || b == F::spec_zero(),
{
    lemma_closure::<F>();
    if a != F::spec_zero() {
        // b = (a^-1 * a) * b = a^-1 * (a * b) = a^-1 * 0 = 0
        let ia = F::spec_inv(a);
        F::lemma_mul_inv(a);
        lemma_mul_three::<F>(ia, a, b);
        F::lemma_mul_commutative(ia, a);
        lemma_one_mul::<F>(b);
        lemma_mul_zero::<F>(ia);
    }
}

/// `1^-1 = 1`
pub proof fn lemma_inv_one<F: FiniteField>()
    ensures
        F::spec_inv(F::spec_one()) == F::spec_one(),
{
    lemma_closure::<F>();
    F::lemma_identities();
    F::lemma_mul_inv(F::spec_one());
    lemma_one_mul::<F>(F::spec_inv(F::spec_one()));
}

/// `(a * b) * b^-1 = a` for every `b` but zero
pub proof fn lemma_mul_div_cancel<F: FiniteField>(a: F::V, b: F::V)
    requires
        F::member(a),
        F::member(b),
        b != F::spec_zero(),
    ensures
        F::spec_mul(F::spec_mul(a, b), F::spec_inv(b)) == a,
{
    lemma_closure::<F>();
    F::lemma_mul_associative(a, b, F::spec_inv(b));
    F::lemma_mul_inv(b);
    F::lemma_mul_one(a);
}

/// Two quotients are equal exactly if their cross products are:
/// `a / b = c / d` if and only if `a * d = c * b`, for `b` and `d` not zero.
pub proof fn lemma_cross_multiply<F: FiniteField>(a: F::V, b: F::V, c: F::V, d: F::V)
    requires
        F::member(a),
        F::member(b),
        F::member(c),
        F::member(d),
        b != F::spec_zero(),
        d != F::spec_zero(),
    ensures
        (F::spec_mul(a, F::spec_inv(b)) == F::spec_mul(c, F::spec_inv(d))) <==> (F::spec_mul(
            a,
            d,
        ) == F::spec_mul(c, b)),
{
    lemma_closure::<F>();
    let ib = F::spec_inv(b);
    let id = F::spec_inv(d);
    let bd = F::spec_mul(b, d);
    // (a * b^-1) * (b * d) = a * d and (c * d^-1) * (b * d) = c * b
    assert(F::spec_mul(F::spec_mul(a, ib), bd) == F::spec_mul(a, d)) by {
        F::lemma_mul_associative(a, ib, bd);
        lemma_mul_three::<F>(ib, b, d);
        F::lemma_mul_commutative(ib, b);
        F::lemma_mul_inv(b);
        lemma_one_mul::<F>(d);
    }
    assert(F::spec_mul(F::spec_mul(c, id), bd) == F::spec_mul(c, b)) by {
        F::lemma_mul_associative(c, id, bd);
        lemma_mul_three::<F>(id, b, d);
        F::lemma_mul_commutative(id, d);
        F::lemma_mul_inv(d);
        lemma_one_mul::<F>(b);
        F::lemma_mul_commutative(F::spec_mul(id, d), b);
    }
    // (a * d) * (b^-1 * d^-1) = a * b^-1 and (c * b) * (b^-1 * d^-1) = c * d^-1
    let ibd = F::spec_mul(ib, id);
    assert(F::spec_mul(F::spec_mul(a, d), ibd) == F::spec_mul(a, ib)) by {
        F::lemma_mul_associative(a, d, ibd);
        lemma_mul_three::<F>(d, ib, id);
        F::lemma_mul_inv(d);
        F::lemma_mul_commutative(d, id);
        F::lemma_mul_commutative(F::spec_mul(d, id), ib);
        F::lemma_mul_one(ib);
        F::lemma_mul_commutative(ib, F::spec_one());
    }
    assert(F::spec_mul(F::spec_mul(c, b), ibd) == F::spec_mul(c, id)) by {
        F::lemma_mul_associative(c, b, ibd);
        lemma_mul_three::<F>(b, ib, id);
        F::lemma_mul_inv(b);
        lemma_one_mul::<F>(id);
    }
}

/// Where `-1` is not a square, two squares sum to zero only if both are the
/// square of zero.
pub proof fn lemma_sum_of_squares<F: QuadraticBase>(a: F::V, b: F::V)
    requires
        F::member(a),
        F::member(b),
        F::spec_add(F::spec_mul(a, a), F::spec_mul(b, b)) == F::spec_zero(),
    ensures
        a == F::spec_zero(),
        b == F::spec_zero(),
{
    lemma_closure::<F>();
    let z = F::spec_zero();
    let aa = F::spec_mul(a, a);
    let bb = F::spec_mul(b, b);
    if b != z {
        // With q = a * b^-1: q * q = (a * a) * (b^-1 * b^-1) = -(b * b) * (b^-1 * b^-1) = -1
        let ib = F::spec_inv(b);
        let q = F::spec_mul(a, ib);
        let ibib = F::spec_mul(ib, ib);
        assert(F::spec_mul(q, q) == F::spec_mul(aa, ibib)) by {
            F::lemma_mul_associative(a, ib, q);
            lemma_mul_three::<F>(ib, a, ib);
            F::lemma_mul_associative(a, a, ibib);
        }
        assert(aa == F::spec_neg(bb)) by {
            F::lemma_add_commutative(aa, bb);
            lemma_neg_unique::<F>(bb, aa);
        }
        assert(F::spec_mul(bb, ibib) == F::spec_one()) by {
            F::lemma_mul_associative(b, b, ibib);
            lemma_mul_three::<F>(b, ib, ib);
            F::lemma_mul_inv(b);
            lemma_one_mul::<F>(ib);
        }
        lemma_mul_neg::<F>(bb, ibib);
        F::lemma_minus_one_not_square(q);
    }
    if a != z {
        lemma_mul_zero::<F>(b);
        F::lemma_add_zero(aa);
        lemma_no_zero_divisors::<F>(a, a);
    }
}

} // verus!

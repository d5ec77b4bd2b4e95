//! The laws of a finite field, stated of its elements
//!
//! What the operations of any `FiniteField` return is fixed by the field
//! axioms: here each law is stated of the values of arbitrary elements, as
//! `equals` compares them.

use crate::ff::algebra::lemma_mul_div_cancel;
use crate::ff::{Error, FiniteField};
use vstd::prelude::*;

verus! {

/// Addition and multiplication are commutative, zero and one are neutral,
/// and an element and its negation sum to zero:
/// `a + b = b + a`, `a * b = b * a`, `a + 0 = a`, `a * 1 = a`, `a + (-a) = 0`.
pub proof fn lemma_field_axioms<F: FiniteField>(a: F, b: F)
    ensures
        F::spec_add(a.value(), b.value()) == F::spec_add(b.value(), a.value()),
        F::spec_mul(a.value(), b.value()) == F::spec_mul(b.value(), a.value()),
        F::spec_add(a.value(), F::spec_zero()) == a.value(),
        F::spec_mul(a.value(), F::spec_one()) == a.value(),
        F::spec_add(a.value(), F::spec_neg(a.value())) == F::spec_zero(),
{
    a.lemma_value_member();
    b.lemma_value_member();
    F::lemma_add_commutative(a.value(), b.value());
    F::lemma_mul_commutative(a.value(), b.value());
    F::lemma_add_zero(a.value());
    F::lemma_mul_one(a.value());
    F::lemma_add_neg(a.value());
}

/// Addition and multiplication are associative, and multiplication
/// distributes over addition:
/// `(a + b) + c = a + (b + c)`, `(a * b) * c = a * (b * c)`,
/// `a * (b + c) = a * b + a * c`.
pub proof fn lemma_ring_axioms<F: FiniteField>(a: F, b: F, c: F)
    ensures
        F::spec_add(F::spec_add(a.value(), b.value()), c.value()) == F::spec_add(
            a.value(),
            F::spec_add(b.value(), c.value()),
        ),
        F::spec_mul(F::spec_mul(a.value(), b.value()), c.value()) == F::spec_mul(
            a.value(),
            F::spec_mul(b.value(), c.value()),
        ),
        F::spec_mul(a.value(), F::spec_add(b.value(), c.value())) == F::spec_add(
            F::spec_mul(a.value(), b.value()),
            F::spec_mul(a.value(), c.value()),
        ),
{
    a.lemma_value_member();
    b.lemma_value_member();
    c.lemma_value_member();
    F::lemma_add_associative(a.value(), b.value(), c.value());
    F::lemma_mul_associative(a.value(), b.value(), c.value());
    F::lemma_distributive(a.value(), b.value(), c.value());
}

/// The product of an element that is not zero with its inverse is one.
pub proof fn lemma_inverse_law<F: FiniteField>(a: F)
    requires
        a.value() != F::spec_zero(),
    ensures
        F::spec_mul(a.value(), F::spec_inv(a.value())) == F::spec_one(),
{
    a.lemma_value_member();
    F::lemma_mul_inv(a.value());
}

/// Dividing a product by one of its factors, where that is not zero, gives
/// the other factor: `(a * b) / b = a`.
pub proof fn lemma_division_law<F: FiniteField>(a: F, b: F)
    requires
        b.value() != F::spec_zero(),
    ensures
        F::spec_mul(F::spec_mul(a.value(), b.value()), F::spec_inv(b.value())) == a.value(),
{
    a.lemma_value_member();
    b.lemma_value_member();
    lemma_mul_div_cancel::<F>(a.value(), b.value());
}

/// The encoding of an element is decoded to the same element.
pub proof fn lemma_round_trip<F: FiniteField>(a: F)
    ensures
        F::decode(F::encode(a.value())) == Ok::<F::V, Error>(a.value()),
        F::encode(a.value()).len() == F::encoded_len(),
{
    a.lemma_value_member();
    F::lemma_decode_encode(a.value());
    F::lemma_encode_len(a.value());
}

} // verus!

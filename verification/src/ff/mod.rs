//! Finite fields
//!
//! Provides the contract that every finite field element type meets, and the
//! quadratic extension of a field in which `-1` is not a square.

pub mod algebra;
pub mod ff_p431;
pub mod laws;
pub mod modular;
pub mod quadratic;

pub use crate::ff::ff_p431::PrimeFieldP431;
pub use crate::ff::quadratic::QuadraticExtension;

use crate::utils::conversion::{pad_left, spec_next_power_of_two};
use vstd::prelude::*;

verus! {

/// Why an operation on field elements failed.
#[derive(Clone, Copy, Debug, PartialEq, Eq)]
pub enum Error {
    /// The additive identity has no multiplicative inverse.
    NoInverse,
    /// The bytes do not encode an element of the field: `actual` bytes were
    /// given where an element takes `expected`, or the bytes, though of the
    /// right length, stand for no element.
    MalformedEncoding { expected: usize, actual: usize },
}

/// Finite field element
///
/// Every element stands for a mathematical value, `self.value()`, that is a
/// member of the field. The operations of the field are stated on those
/// values, by the spec functions of this trait, which obey the field axioms.
/// Each executable operation computes the spec function of the same name.
pub trait FiniteField: Sized {
    /// The mathematical values that elements stand for.
    type V;

    /// The value that this element stands for.
    spec fn value(&self) -> Self::V;

    /// Whether a value belongs to the field.
    spec fn member(v: Self::V) -> bool;

    /// The dimension of the field over its prime field.
    spec fn dim() -> nat;

    /// The number of bytes that encode an element.
    spec fn encoded_len() -> nat;

    /// The additive identity.
    spec fn spec_zero() -> Self::V;

    /// The multiplicative identity.
    spec fn spec_one() -> Self::V;

    /// The additive inverse of `a`.
    spec fn spec_neg(a: Self::V) -> Self::V;

    /// The sum of `a` and `b`.
    spec fn spec_add(a: Self::V, b: Self::V) -> Self::V;

    /// The product of `a` and `b`.
    spec fn spec_mul(a: Self::V, b: Self::V) -> Self::V;

    /// The multiplicative inverse of `a`, where `a` is not zero.
    spec fn spec_inv(a: Self::V) -> Self::V;

    /// The canonical encoding of `a`.
    spec fn encode(a: Self::V) -> Seq<u8>;

    /// The value that `bytes` encode, or why they encode none.
    spec fn decode(bytes: Seq<u8>) -> Result<Self::V, Error>;

    /// Every element stands for a member of the field.
    proof fn lemma_value_member(&self)
        ensures
            Self::member(self.value()),
    ;

    /// Zero and one are members of the field, and they differ.
    proof fn lemma_identities()
        ensures
            Self::member(Self::spec_zero()),
            Self::member(Self::spec_one()),
            Self::spec_zero() != Self::spec_one(),
    ;

    /// The field is closed under negation, addition and multiplication, and
    /// under inversion of what is not zero.
    proof fn lemma_closed(a: Self::V, b: Self::V)
        requires
            Self::member(a),
            Self::member(b),
        ensures
            Self::member(Self::spec_neg(a)),
            Self::member(Self::spec_add(a, b)),
            Self::member(Self::spec_mul(a, b)),
            a != Self::spec_zero() ==> Self::member(Self::spec_inv(a)),
    ;

    /// `a + b = b + a`
    proof fn lemma_add_commutative(a: Self::V, b: Self::V)
        requires
            Self::member(a),
            Self::member(b),
        ensures
            Self::spec_add(a, b) == Self::spec_add(b, a),
    ;

    /// `(a + b) + c = a + (b + c)`
    proof fn lemma_add_associative(a: Self::V, b: Self::V, c: Self::V)
        requires
            Self::member(a),
            Self::member(b),
            Self::member(c),
        ensures
            Self::spec_add(Self::spec_add(a, b), c) == Self::spec_add(a, Self::spec_add(b, c)),
    ;

    /// `a + 0 = a`
    proof fn lemma_add_zero(a: Self::V)
        requires
            Self::member(a),
        ensures
            Self::spec_add(a, Self::spec_zero()) == a,
    ;

    /// `a + (-a) = 0`
    proof fn lemma_add_neg(a: Self::V)
        requires
            Self::member(a),
        ensures
            Self::spec_add(a, Self::spec_neg(a)) == Self::spec_zero(),
    ;

    /// `a * b = b * a`
    proof fn lemma_mul_commutative(a: Self::V, b: Self::V)
        requires
            Self::member(a),
            Self::member(b),
        ensures
            Self::spec_mul(a, b) == Self::spec_mul(b, a),
    ;

    /// `(a * b) * c = a * (b * c)`
    proof fn lemma_mul_associative(a: Self::V, b: Self::V, c: Self::V)
        requires
            Self::member(a),
            Self::member(b),
            Self::member(c),
        ensures
            Self::spec_mul(Self::spec_mul(a, b), c) == Self::spec_mul(a, Self::spec_mul(b, c)),
    ;

    /// `a * 1 = a`
    proof fn lemma_mul_one(a: Self::V)
        requires
            Self::member(a),
        ensures
            Self::spec_mul(a, Self::spec_one()) == a,
    ;

    /// `a * a^-1 = 1` for every `a` but zero
    proof fn lemma_mul_inv(a: Self::V)
        requires
            Self::member(a),
            a != Self::spec_zero(),
        ensures
            Self::spec_mul(a, Self::spec_inv(a)) == Self::spec_one(),
    ;

    /// `a * (b + c) = a * b + a * c`
    proof fn lemma_distributive(a: Self::V, b: Self::V, c: Self::V)
        requires
            Self::member(a),
            Self::member(b),
            Self::member(c),
        ensures
            Self::spec_mul(a, Self::spec_add(b, c)) == Self::spec_add(
                Self::spec_mul(a, b),
                Self::spec_mul(a, c),
            ),
    ;

    /// Every member is encoded in `encoded_len()` bytes.
    proof fn lemma_encode_len(a: Self::V)
        requires
            Self::member(a),
        ensures
            Self::encode(a).len() == Self::encoded_len(),
    ;

    /// Decoding undoes encoding.
    proof fn lemma_decode_encode(a: Self::V)
        requires
            Self::member(a),
        ensures
            Self::decode(Self::encode(a)) == Ok::<Self::V, Error>(a),
    ;

    /// Decoding undoes encoding also where zero bytes in front fill the
    /// encoding up to the next power of two.
    proof fn lemma_decode_padded(a: Self::V)
        requires
            Self::member(a),
        ensures
            Self::decode(pad_left(Self::encode(a), spec_next_power_of_two(Self::encoded_len())))
                == Ok::<Self::V, Error>(a),
    ;

    /// What is decoded is a member of the field, and decoding fails in one
    /// way only.
    proof fn lemma_decode_sound(bytes: Seq<u8>)
        ensures
            Self::decode(bytes) matches Ok(v) ==> Self::member(v),
            Self::decode(bytes) matches Err(e) ==> e is MalformedEncoding,
    ;

    /// Check if the element is the additive identity of the field
    fn is_zero(&self) -> (r: bool)
        ensures
            r == (self.value() == Self::spec_zero()),
    ;

    /// Returns the dimension of the finite field
    fn dimension() -> (r: usize)
        requires
            Self::dim() <= usize::MAX,
        ensures
            r == Self::dim(),
    ;

    /// Returns the additive identity of the field
    fn zero() -> (r: Self)
        ensures
            r.value() == Self::spec_zero(),
    ;

    /// Returns the multiplicative identity of the field
    fn one() -> (r: Self)
        ensures
            r.value() == Self::spec_one(),
    ;

    /// Returns the additive inverse of the element
    fn neg(&self) -> (r: Self)
        ensures
            r.value() == Self::spec_neg(self.value()),
    ;

    /// Returns the multiplicative inverse of the element, which every
    /// element but zero has
    fn inv(&self) -> (r: Result<Self, Error>)
        ensures
            match r {
                Ok(x) => self.value() != Self::spec_zero() && x.value() == Self::spec_inv(
                    self.value(),
                ),
                Err(e) => self.value() == Self::spec_zero() && e == Error::NoInverse,
            },
    ;

    /// Defines the addition of two elements
    fn add(&self, other: &Self) -> (r: Self)
        ensures
            r.value() == Self::spec_add(self.value(), other.value()),
    ;

    /// Defines the substraction of two elements
    fn sub(&self, other: &Self) -> (r: Self)
        ensures
            r.value() == Self::spec_add(self.value(), Self::spec_neg(other.value())),
    ;

    /// Defines the multiplication of two elements
    fn mul(&self, other: &Self) -> (r: Self)
        ensures
            r.value() == Self::spec_mul(self.value(), other.value()),
    ;

    /// Defines the divison of two elements, which fails for a divisor of zero
    /// only
    fn div(&self, other: &Self) -> (r: Result<Self, Error>)
        ensures
            match r {
                Ok(x) => other.value() != Self::spec_zero() && x.value() == Self::spec_mul(
                    self.value(),
                    Self::spec_inv(other.value()),
                ),
                Err(e) => other.value() == Self::spec_zero() && e == Error::NoInverse,
            },
    ;

    /// Checks if two elements are equal
    fn equals(&self, other: &Self) -> (r: bool)
        ensures
            r == (self.value() == other.value()),
    ;

    /// Converts the element to a bytes representation
    fn into_bytes(self) -> (r: Vec<u8>)
        requires
            Self::encoded_len() <= usize::MAX,
        ensures
            r@ == Self::encode(self.value()),
    ;

    /// Converts a bytes representation to an element of the finite field
    fn from_bytes(bytes: &[u8]) -> (r: Result<Self, Error>)
        ensures
            match r {
                Ok(x) => Self::decode(bytes@) == Ok::<Self::V, Error>(x.value()),
                Err(e) => Self::decode(bytes@) == Err::<Self::V, Error>(e),
            },
    ;
}

/// A field in which `-1` is not a square, so that adjoining a root of
/// `x^2 + 1` gives a field again.
pub trait QuadraticBase: FiniteField {
    /// No member squares to `-1`.
    proof fn lemma_minus_one_not_square(a: Self::V)
        requires
            Self::member(a),
        ensures
            Self::spec_mul(a, a) != Self::spec_neg(Self::spec_one()),
    ;
}

} // verus!

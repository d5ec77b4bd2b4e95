//! The quadratic extension of a field in which `-1` is not a square

use crate::ff::algebra::{
    lemma_add_interchange, lemma_closure, lemma_distributive_right, lemma_mul_neg,
    lemma_mul_three, lemma_mul_zero, lemma_neg_add, lemma_neg_add_self, lemma_neg_neg,
    lemma_neg_zero, lemma_one_mul, lemma_sum_of_squares, lemma_zero_add,
};
use crate::ff::{Error, FiniteField, QuadraticBase};
use crate::utils::conversion::{
    join_padded, lemma_join_padded_halves, lemma_next_power_of_two,
    lemma_next_power_of_two_fixed, pad_and_join, pad_left, spec_next_power_of_two,
};
use vstd::arithmetic::power2::{lemma_pow2_unfold, pow2};
use vstd::prelude::*;

verus! {

/// Given a specific finite field 𝔽ₚ, represents an element of
/// its quadratic extension 𝔽ₚ(i) as `x = a + ib`, (`i² = -1`)
#[derive(Clone, Copy, PartialEq, Debug)]
pub struct QuadraticExtension<F: FiniteField> {
    a: F,
    b: F,
}

/// The norm of `a + ib`: `a² + b²`.
pub open spec fn norm<F: FiniteField>(x: (F::V, F::V)) -> F::V {
    F::spec_add(F::spec_mul(x.0, x.0), F::spec_mul(x.1, x.1))
}

impl<F: FiniteField> QuadraticExtension<F> {
    /// The pair `(a, b)` of the values of the two components of `a + ib`.
    pub closed spec fn parts(&self) -> (F::V, F::V) {
        (self.a.value(), self.b.value())
    }

    /// Generates an element of the quadratic extension given two elements of the base field: `z = a + i b`.
    pub fn from(a: F, b: F) -> (r: Self)
        ensures
            r.parts() == (a.value(), b.value()),
    {
        Self { a, b }
    }

    /// The component `a` of `a + ib`.
    pub fn a(&self) -> (r: &F)
        ensures
            r.value() == self.parts().0,
    {
        &self.a
    }

    /// The component `b` of `a + ib`.
    pub fn b(&self) -> (r: &F)
        ensures
            r.value() == self.parts().1,
    {
        &self.b
    }
}

/// The real part of `(x * y) * z` is that of `x * (y * z)`.
proof fn lemma_mul_associative_real<F: FiniteField>(
    x: (F::V, F::V),
    y: (F::V, F::V),
    z: (F::V, F::V),
)
    requires
        F::member(x.0),
        F::member(x.1),
        F::member(y.0),
        F::member(y.1),
        F::member(z.0),
        F::member(z.1),
    ensures
        ({
            let p = F::spec_add(F::spec_mul(x.0, y.0), F::spec_neg(F::spec_mul(x.1, y.1)));
            let q = F::spec_add(F::spec_mul(x.0, y.1), F::spec_mul(y.0, x.1));
            let r = F::spec_add(F::spec_mul(y.0, z.0), F::spec_neg(F::spec_mul(y.1, z.1)));
            let s = F::spec_add(F::spec_mul(y.0, z.1), F::spec_mul(z.0, y.1));
            F::spec_add(F::spec_mul(p, z.0), F::spec_neg(F::spec_mul(q, z.1))) == F::spec_add(
                F::spec_mul(x.0, r),
                F::spec_neg(F::spec_mul(x.1, s)),
            )
        }),
{
    lemma_closure::<F>();
    let (a1, b1) = x;
    let (a2, b2) = y;
    let (a3, b3) = z;
    let t1 = F::spec_mul(F::spec_mul(a1, a2), a3);
    let t2 = F::spec_mul(F::spec_mul(b1, b2), a3);
    let t3 = F::spec_mul(F::spec_mul(a1, b2), b3);
    let t4 = F::spec_mul(F::spec_mul(a2, b1), b3);
    let p = F::spec_add(F::spec_mul(a1, a2), F::spec_neg(F::spec_mul(b1, b2)));
    let q = F::spec_add(F::spec_mul(a1, b2), F::spec_mul(a2, b1));
    let r = F::spec_add(F::spec_mul(a2, a3), F::spec_neg(F::spec_mul(b2, b3)));
    let s = F::spec_add(F::spec_mul(a2, b3), F::spec_mul(a3, b2));
    // p * a3 = t1 - t2
    assert(F::spec_mul(p, a3) == F::spec_add(t1, F::spec_neg(t2))) by {
        lemma_distributive_right::<F>(F::spec_mul(a1, a2), F::spec_neg(F::spec_mul(b1, b2)), a3);
        lemma_mul_neg::<F>(F::spec_mul(b1, b2), a3);
    }
    // -(q * b3) = -t3 - t4
    assert(F::spec_neg(F::spec_mul(q, b3)) == F::spec_add(F::spec_neg(t3), F::spec_neg(t4)))
        by {
        lemma_distributive_right::<F>(F::spec_mul(a1, b2), F::spec_mul(a2, b1), b3);
        lemma_neg_add::<F>(t3, t4);
    }
    // a1 * r = t1 - t3
    assert(F::spec_mul(a1, r) == F::spec_add(t1, F::spec_neg(t3))) by {
        F::lemma_distributive(a1, F::spec_mul(a2, a3), F::spec_neg(F::spec_mul(b2, b3)));
        lemma_mul_neg::<F>(a1, F::spec_mul(b2, b3));
        lemma_mul_three::<F>(a1, a2, a3);
        lemma_mul_three::<F>(a1, b2, b3);
    }
    // -(b1 * s) = -t4 - t2
    assert(F::spec_neg(F::spec_mul(b1, s)) == F::spec_add(F::spec_neg(t4), F::spec_neg(t2)))
        by {
        F::lemma_distributive(b1, F::spec_mul(a2, b3), F::spec_mul(a3, b2));
        lemma_mul_three::<F>(a2, b1, b3);
        lemma_mul_three::<F>(b1, b2, a3);
        lemma_neg_add::<F>(t4, t2);
    }
    // (t1 - t2) + (-t3 - t4) = (t1 - t3) + (-t4 - t2)
    lemma_add_interchange::<F>(t1, F::spec_neg(t2), F::spec_neg(t3), F::spec_neg(t4));
    F::lemma_add_commutative(F::spec_neg(t2), F::spec_neg(t4));
}

/// The imaginary part of `(x * y) * z` is that of `x * (y * z)`.
proof fn lemma_mul_associative_imaginary<F: FiniteField>(
    x: (F::V, F::V),
    y: (F::V, F::V),
    z: (F::V, F::V),
)
    requires
        F::member(x.0),
        F::member(x.1),
        F::member(y.0),
        F::member(y.1),
        F::member(z.0),
        F::member(z.1),
    ensures
        ({
            let p = F::spec_add(F::spec_mul(x.0, y.0), F::spec_neg(F::spec_mul(x.1, y.1)));
            let q = F::spec_add(F::spec_mul(x.0, y.1), F::spec_mul(y.0, x.1));
            let r = F::spec_add(F::spec_mul(y.0, z.0), F::spec_neg(F::spec_mul(y.1, z.1)));
            let s = F::spec_add(F::spec_mul(y.0, z.1), F::spec_mul(z.0, y.1));
            F::spec_add(F::spec_mul(p, z.1), F::spec_mul(z.0, q)) == F::spec_add(
                F::spec_mul(x.0, s),
                F::spec_mul(r, x.1),
            )
        }),
{
    lemma_closure::<F>();
    let (a1, b1) = x;
    let (a2, b2) = y;
    let (a3, b3) = z;
    let v1 = F::spec_mul(F::spec_mul(a1, a2), b3);
    let v2 = F::spec_mul(F::spec_mul(b1, b2), b3);
    let v3 = F::spec_mul(F::spec_mul(a1, a3), b2);
    let v4 = F::spec_mul(F::spec_mul(a2, a3), b1);
    let p = F::spec_add(F::spec_mul(a1, a2), F::spec_neg(F::spec_mul(b1, b2)));
    let q = F::spec_add(F::spec_mul(a1, b2), F::spec_mul(a2, b1));
    let r = F::spec_add(F::spec_mul(a2, a3), F::spec_neg(F::spec_mul(b2, b3)));
    let s = F::spec_add(F::spec_mul(a2, b3), F::spec_mul(a3, b2));
    // p * b3 = v1 - v2
    assert(F::spec_mul(p, b3) == F::spec_add(v1, F::spec_neg(v2))) by {
        lemma_distributive_right::<F>(F::spec_mul(a1, a2), F::spec_neg(F::spec_mul(b1, b2)), b3);
        lemma_mul_neg::<F>(F::spec_mul(b1, b2), b3);
    }
    // a3 * q = v3 + v4
    assert(F::spec_mul(a3, q) == F::spec_add(v3, v4)) by {
        F::lemma_distributive(a3, F::spec_mul(a1, b2), F::spec_mul(a2, b1));
        lemma_mul_three::<F>(a1, a3, b2);
        lemma_mul_three::<F>(a2, a3, b1);
    }
    // a1 * s = v1 + v3
    assert(F::spec_mul(a1, s) == F::spec_add(v1, v3)) by {
        F::lemma_distributive(a1, F::spec_mul(a2, b3), F::spec_mul(a3, b2));
        lemma_mul_three::<F>(a1, a2, b3);
        lemma_mul_three::<F>(a1, a3, b2);
    }
    // r * b1 = v4 - v2
    assert(F::spec_mul(r, b1) == F::spec_add(v4, F::spec_neg(v2))) by {
        lemma_distributive_right::<F>(F::spec_mul(a2, a3), F::spec_neg(F::spec_mul(b2, b3)), b1);
        lemma_mul_neg::<F>(F::spec_mul(b2, b3), b1);
        lemma_mul_three::<F>(b1, b2, b3);
    }
    // (v1 - v2) + (v3 + v4) = (v1 + v3) + (v4 - v2)
    lemma_add_interchange::<F>(v1, F::spec_neg(v2), v3, v4);
    F::lemma_add_commutative(F::spec_neg(v2), v4);
}

impl<F: QuadraticBase> QuadraticExtension<F> {
    /// The norm of `a + ib` is zero exactly if `a + ib` is.
    pub proof fn lemma_norm_not_zero(x: (F::V, F::V))
        requires
            Self::member(x),
        ensures
            (norm::<F>(x) == F::spec_zero()) <==> (x == Self::spec_zero()),
    {
        lemma_closure::<F>();
        if norm::<F>(x) == F::spec_zero() {
            lemma_sum_of_squares::<F>(x.0, x.1);
        }
        if x == Self::spec_zero() {
            lemma_mul_zero::<F>(F::spec_zero());
            F::lemma_add_zero(F::spec_zero());
        }
    }
}

impl<F: QuadraticBase> QuadraticExtension<F> {
    /// The element `i = 0 + i1` is a square root of `-1`.
    pub proof fn lemma_i_squared()
        ensures
            Self::spec_mul((F::spec_zero(), F::spec_one()), (F::spec_zero(), F::spec_one()))
                == Self::spec_neg(Self::spec_one()),
    {
        lemma_closure::<F>();
        lemma_mul_zero::<F>(F::spec_zero());
        lemma_mul_zero::<F>(F::spec_one());
        F::lemma_mul_one(F::spec_one());
        lemma_zero_add::<F>(F::spec_neg(F::spec_one()));
        F::lemma_add_zero(F::spec_zero());
        lemma_neg_zero::<F>();
    }

    /// The base field lies in the extension as the elements `a + i0`: their
    /// sums, products and negations are those of the base field.
    pub proof fn lemma_base_embeds(a: F::V, b: F::V)
        requires
            F::member(a),
            F::member(b),
        ensures
            Self::spec_add((a, F::spec_zero()), (b, F::spec_zero())) == (
                F::spec_add(a, b),
                F::spec_zero(),
            ),
            Self::spec_mul((a, F::spec_zero()), (b, F::spec_zero())) == (
                F::spec_mul(a, b),
                F::spec_zero(),
            ),
            Self::spec_neg((a, F::spec_zero())) == (F::spec_neg(a), F::spec_zero()),
    {
        lemma_closure::<F>();
        F::lemma_add_zero(F::spec_zero());
        lemma_neg_zero::<F>();
        lemma_mul_zero::<F>(F::spec_zero());
        lemma_mul_zero::<F>(a);
        lemma_mul_zero::<F>(b);
        F::lemma_add_zero(F::spec_mul(a, b));
    }
}

impl<F: QuadraticBase> FiniteField for QuadraticExtension<F> {
    type V = (F::V, F::V);

    open spec fn value(&self) -> (F::V, F::V) {
        self.parts()
    }

    open spec fn member(v: (F::V, F::V)) -> bool {
        F::member(v.0) && F::member(v.1)
    }

    open spec fn dim() -> nat {
        2 * F::dim()
    }

    open spec fn encoded_len() -> nat {
        2 * spec_next_power_of_two(F::encoded_len())
    }

    open spec fn spec_zero() -> (F::V, F::V) {
        (F::spec_zero(), F::spec_zero())
    }

    open spec fn spec_one() -> (F::V, F::V) {
        (F::spec_one(), F::spec_zero())
    }

    open spec fn spec_neg(a: (F::V, F::V)) -> (F::V, F::V) {
        (F::spec_neg(a.0), F::spec_neg(a.1))
    }

    open spec fn spec_add(a: (F::V, F::V), b: (F::V, F::V)) -> (F::V, F::V) {
        (F::spec_add(a.0, b.0), F::spec_add(a.1, b.1))
    }

    /// `(a1 + i b1) * (a2 + i b2) = (a1 a2 - b1 b2) + i (a1 b2 + a2 b1)`
    open spec fn spec_mul(a: (F::V, F::V), b: (F::V, F::V)) -> (F::V, F::V) {
        let m1 = F::spec_mul(a.0, b.0);
        let m2 = F::spec_mul(a.1, b.1);
        let m3 = F::spec_mul(a.0, b.1);
        let m4 = F::spec_mul(b.0, a.1);
        (F::spec_add(m1, F::spec_neg(m2)), F::spec_add(m3, m4))
    }

    /// `(a + ib)^-1 = (a - ib) / (a² + b²)`
    open spec fn spec_inv(a: (F::V, F::V)) -> (F::V, F::V) {
        let inv_norm = F::spec_inv(norm::<F>(a));
        (F::spec_mul(inv_norm, a.0), F::spec_mul(inv_norm, F::spec_neg(a.1)))
    }

    /// Each component is encoded by the base field and padded in front with
    /// zero bytes up to the next power of two; the two follow each other.
    open spec fn encode(a: (F::V, F::V)) -> Seq<u8> {
        join_padded(F::encode(a.0), F::encode(a.1))
    }

    /// The first half of the bytes is decoded by the base field, then the
    /// second half; the first failure is passed on.
    open spec fn decode(bytes: Seq<u8>) -> Result<(F::V, F::V), Error> {
        let n = bytes.len() / 2;
        match F::decode(bytes.subrange(0, n as int)) {
            Err(e) => Err(e),
            Ok(a) => match F::decode(bytes.subrange(n as int, bytes.len() as int)) {
                Err(e) => Err(e),
                Ok(b) => Ok((a, b)),
            },
        }
    }

    proof fn lemma_value_member(&self) {
        self.a.lemma_value_member();
        self.b.lemma_value_member();
    }

    proof fn lemma_identities() {
        F::lemma_identities();
    }

    proof fn lemma_closed(a: (F::V, F::V), b: (F::V, F::V)) {
        lemma_closure::<F>();
        if a != Self::spec_zero() {
            Self::lemma_norm_not_zero(a);
        }
    }

    proof fn lemma_add_commutative(a: (F::V, F::V), b: (F::V, F::V)) {
        F::lemma_add_commutative(a.0, b.0);
        F::lemma_add_commutative(a.1, b.1);
    }

    proof fn lemma_add_associative(a: (F::V, F::V), b: (F::V, F::V), c: (F::V, F::V)) {
        F::lemma_add_associative(a.0, b.0, c.0);
        F::lemma_add_associative(a.1, b.1, c.1);
    }

    proof fn lemma_add_zero(a: (F::V, F::V)) {
        F::lemma_add_zero(a.0);
        F::lemma_add_zero(a.1);
    }

    proof fn lemma_add_neg(a: (F::V, F::V)) {
        F::lemma_add_neg(a.0);
        F::lemma_add_neg(a.1);
    }

    proof fn lemma_mul_commutative(a: (F::V, F::V), b: (F::V, F::V)) {
        lemma_closure::<F>();
        F::lemma_mul_commutative(a.0, b.0);
        F::lemma_mul_commutative(a.1, b.1);
        F::lemma_add_commutative(F::spec_mul(a.0, b.1), F::spec_mul(b.0, a.1));
    }

    proof fn lemma_mul_associative(a: (F::V, F::V), b: (F::V, F::V), c: (F::V, F::V)) {
        lemma_mul_associative_real::<F>(a, b, c);
        lemma_mul_associative_imaginary::<F>(a, b, c);
    }

    proof fn lemma_mul_one(a: (F::V, F::V)) {
        lemma_closure::<F>();
        F::lemma_mul_one(a.0);
        lemma_mul_zero::<F>(a.0);
        lemma_mul_zero::<F>(a.1);
        lemma_one_mul::<F>(a.1);
        lemma_neg_zero::<F>();
        F::lemma_add_zero(a.0);
        lemma_zero_add::<F>(a.1);
    }

    proof fn lemma_mul_inv(a: (F::V, F::V)) {
        lemma_closure::<F>();
        Self::lemma_norm_not_zero(a);
        let (x, y) = a;
        let n = norm::<F>(a);
        let ni = F::spec_inv(n);
        let ny = F::spec_neg(y);
        // x * (ni * x) - y * (ni * -y) = ni * (x * x) + ni * (y * y) = ni * n = 1
        assert(F::spec_mul(x, F::spec_mul(ni, x)) == F::spec_mul(ni, F::spec_mul(x, x))) by {
            lemma_mul_three::<F>(ni, x, x);
        }
        assert(F::spec_neg(F::spec_mul(y, F::spec_mul(ni, ny))) == F::spec_mul(
            ni,
            F::spec_mul(y, y),
        )) by {
            lemma_mul_three::<F>(ni, y, ny);
            lemma_mul_neg::<F>(F::spec_mul(ni, y), y);
            lemma_neg_neg::<F>(F::spec_mul(F::spec_mul(ni, y), y));
            lemma_mul_three::<F>(ni, y, y);
        }
        F::lemma_distributive(ni, F::spec_mul(x, x), F::spec_mul(y, y));
        F::lemma_mul_commutative(ni, n);
        F::lemma_mul_inv(n);
        // x * (ni * -y) + (ni * x) * y = -(ni * x * y) + ni * x * y = 0
        let t = F::spec_mul(F::spec_mul(ni, x), y);
        assert(F::spec_mul(x, F::spec_mul(ni, ny)) == F::spec_neg(t)) by {
            lemma_mul_three::<F>(ni, x, ny);
            lemma_mul_neg::<F>(F::spec_mul(ni, x), y);
        }
        lemma_neg_add_self::<F>(t);
    }

    proof fn lemma_distributive(a: (F::V, F::V), b: (F::V, F::V), c: (F::V, F::V)) {
        lemma_closure::<F>();
        F::lemma_distributive(a.0, b.0, c.0);
        F::lemma_distributive(a.1, b.1, c.1);
        lemma_neg_add::<F>(F::spec_mul(a.1, b.1), F::spec_mul(a.1, c.1));
        lemma_add_interchange::<F>(
            F::spec_mul(a.0, b.0),
            F::spec_mul(a.0, c.0),
            F::spec_neg(F::spec_mul(a.1, b.1)),
            F::spec_neg(F::spec_mul(a.1, c.1)),
        );
        F::lemma_distributive(a.0, b.1, c.1);
        lemma_distributive_right::<F>(b.0, c.0, a.1);
        lemma_add_interchange::<F>(
            F::spec_mul(a.0, b.1),
            F::spec_mul(a.0, c.1),
            F::spec_mul(b.0, a.1),
            F::spec_mul(c.0, a.1),
        );
    }

    proof fn lemma_encode_len(a: (F::V, F::V)) {
        F::lemma_encode_len(a.0);
        F::lemma_encode_len(a.1);
        lemma_join_padded_halves(F::encode(a.0), F::encode(a.1));
    }

    proof fn lemma_decode_encode(a: (F::V, F::V)) {
        F::lemma_encode_len(a.0);
        F::lemma_encode_len(a.1);
        lemma_join_padded_halves(F::encode(a.0), F::encode(a.1));
        F::lemma_decode_padded(a.0);
        F::lemma_decode_padded(a.1);
    }

    proof fn lemma_decode_padded(a: (F::V, F::V)) {
        Self::lemma_encode_len(a);
        Self::lemma_decode_encode(a);
        // The encoding's length is a power of two already: nothing is added.
        let half = spec_next_power_of_two(F::encoded_len());
        lemma_next_power_of_two(F::encoded_len());
        let e = choose|e: nat| half == pow2(e);
        lemma_pow2_unfold(e + 1);
        lemma_next_power_of_two_fixed(e + 1);
        assert(pad_left(Self::encode(a), Self::encoded_len()) =~= Self::encode(a));
    }

    proof fn lemma_decode_sound(bytes: Seq<u8>) {
        let n = bytes.len() / 2;
        F::lemma_decode_sound(bytes.subrange(0, n as int));
        F::lemma_decode_sound(bytes.subrange(n as int, bytes.len() as int));
    }

    fn is_zero(&self) -> (r: bool) {
        self.a.is_zero() && self.b.is_zero()
    }

    fn dimension() -> (r: usize) {
        2 * F::dimension()
    }

    fn zero() -> (r: Self) {
        Self { a: F::zero(), b: F::zero() }
    }

    fn one() -> (r: Self) {
        Self { a: F::one(), b: F::zero() }
    }

    fn neg(&self) -> (r: Self) {
        Self { a: self.a.neg(), b: self.b.neg() }
    }

    fn add(&self, other: &Self) -> (r: Self) {
        Self { a: self.a.add(&other.a), b: self.b.add(&other.b) }
    }

    fn sub(&self, other: &Self) -> (r: Self) {
        self.add(&other.neg())
    }

    fn div(&self, other: &Self) -> (r: Result<Self, Error>) {
        Ok(self.mul(&other.inv()?))
    }

    fn mul(&self, other: &Self) -> (r: Self) {
        let m1 = self.a.mul(&other.a);
        let m2 = self.b.mul(&other.b);

        let m3 = self.a.mul(&other.b);
        let m4 = other.a.mul(&self.b);

        Self { a: m1.sub(&m2), b: m3.add(&m4) }
    }

    fn inv(&self) -> (r: Result<Self, Error>) {
        let asq = self.a.mul(&self.a);
        let bsq = self.b.mul(&self.b);
        proof {
            self.lemma_value_member();
            Self::lemma_norm_not_zero(self.value());
        }
        let inv_norm = asq.add(&bsq).inv()?;

        Ok(Self { a: inv_norm.mul(&self.a), b: inv_norm.mul(&self.b.neg()) })
    }

    fn equals(&self, other: &Self) -> (r: bool) {
        self.a.equals(&other.a) && self.b.equals(&other.b)
    }

    /// Byte representation: both components, each padded in front with zero
    /// bytes to the next power of two
    fn into_bytes(self) -> (r: Vec<u8>) {
        proof {
            self.lemma_value_member();
            F::lemma_encode_len(self.a.value());
            F::lemma_encode_len(self.b.value());
            lemma_next_power_of_two(F::encoded_len());
        }
        let part1 = self.a.into_bytes();
        let part2 = self.b.into_bytes();

        pad_and_join(part1.as_slice(), part2.as_slice())
    }

    /// Element from byte representation (ref `ostofp2` Algorithm 1.2.4.)
    ///
    /// The bytes are split at their midpoint, whatever their number: they
    /// are taken to be what `into_bytes` gave, two components padded to one
    /// length. Bytes put together in another way are decoded as their halves
    /// stand.
    fn from_bytes(bytes: &[u8]) -> (r: Result<Self, Error>) {
        let n = bytes.len() / 2;
        let (first, second) = bytes.split_at(n);
        let a = F::from_bytes(first)?;
        let b = F::from_bytes(second)?;
        Ok(Self::from(a, b))
    }
}

} // verus!

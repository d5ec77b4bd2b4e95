//! Points in projective coordinates

use crate::ff::algebra::{
    lemma_closure, lemma_cross_multiply, lemma_inv_one, lemma_mul_div_cancel,
};
use crate::ff::FiniteField;
use vstd::prelude::*;
use vstd::std_specs::cmp::PartialEqSpec;

verus! {

/// Point defined by (X: Z) in projective coordinates
#[derive(Clone, Debug)]
pub struct Point<K: FiniteField + Clone> {
    /// X coordinate in projective space
    pub x: K,
    /// Z coordinate in projective space
    pub z: K,
}

/// Whether `(x1 : z1)` and `(x2 : z2)` are the same point of the projective
/// line: both lie at infinity, `z1 = z2 = 0`, or neither does and
/// `x1 / z1 = x2 / z2`.
pub open spec fn same_point<K: FiniteField>(p: (K::V, K::V), q: (K::V, K::V)) -> bool {
    if p.1 == K::spec_zero() {
        q.1 == K::spec_zero()
    } else if q.1 == K::spec_zero() {
        false
    } else {
        K::spec_mul(p.0, K::spec_inv(p.1)) == K::spec_mul(q.0, K::spec_inv(q.1))
    }
}

/// Every point is the same point as itself.
pub proof fn lemma_same_point_reflexive<K: FiniteField>(p: (K::V, K::V))
    ensures
        same_point::<K>(p, p),
{
}

/// If `p` is the same point as `q`, then `q` is the same point as `p`.
pub proof fn lemma_same_point_symmetric<K: FiniteField>(p: (K::V, K::V), q: (K::V, K::V))
    ensures
        same_point::<K>(p, q) == same_point::<K>(q, p),
{
}

/// If `p` is the same point as `q` and `q` the same as `r`, then `p` is the
/// same point as `r`.
pub proof fn lemma_same_point_transitive<K: FiniteField>(
    p: (K::V, K::V),
    q: (K::V, K::V),
    r: (K::V, K::V),
)
    requires
        same_point::<K>(p, q),
        same_point::<K>(q, r),
    ensures
        same_point::<K>(p, r),
{
}

/// Scaling both coordinates by a scalar that is not zero leaves the point
/// unchanged: `(k : 1)` is the point `(k * s : s)`.
pub proof fn lemma_scale_invariance<K: FiniteField>(k: K::V, s: K::V)
    requires
        K::member(k),
        K::member(s),
        s != K::spec_zero(),
    ensures
        same_point::<K>((k, K::spec_one()), (K::spec_mul(k, s), s)),
        same_point::<K>((K::spec_mul(k, s), s), (k, K::spec_one())),
{
    lemma_closure::<K>();
    K::lemma_identities();
    lemma_inv_one::<K>();
    K::lemma_mul_one(k);
    lemma_mul_div_cancel::<K>(k, s);
}

/// All points with `z = 0` are one point, the point at infinity, and no
/// point with another `z` is that point.
pub proof fn lemma_infinity<K: FiniteField>(k: K::V, p: (K::V, K::V))
    ensures
        same_point::<K>((k, K::spec_zero()), p) <==> p.1 == K::spec_zero(),
        same_point::<K>(p, (k, K::spec_zero())) <==> p.1 == K::spec_zero(),
{
}

/// Two points that do not lie at infinity are the same point exactly if
/// their cross products agree: `x1 * z2 = x2 * z1`.
pub proof fn lemma_same_point_cross_product<K: FiniteField>(p: (K::V, K::V), q: (K::V, K::V))
    requires
        K::member(p.0),
        K::member(p.1),
        K::member(q.0),
        K::member(q.1),
        p.1 != K::spec_zero(),
        q.1 != K::spec_zero(),
    ensures
        same_point::<K>(p, q) <==> K::spec_mul(p.0, q.1) == K::spec_mul(q.0, p.1),
{
    lemma_cross_multiply::<K>(p.0, p.1, q.0, q.1);
}

impl<K: FiniteField + Clone> Point<K> {
    /// The values of the two coordinates, `(x, z)`.
    pub open spec fn coordinates(&self) -> (K::V, K::V) {
        (self.x.value(), self.z.value())
    }

    /// Returns the points (x : 1)
    #[inline]
    pub fn from_x(x: K) -> (r: Self)
        ensures
            r.x == x,
            r.z.value() == K::spec_one(),
            r.coordinates() == (x.value(), K::spec_one()),
    {
        Self { x, z: K::one() }
    }
}

/// The point `(k : 1)` equals the point `(k * s : s)`, whatever the scalar
/// `s`, unless that is zero.
pub proof fn lemma_scaled_point_is_equal<K: FiniteField + Clone>(p: Point<K>, q: Point<K>, s: K)
    requires
        p.z.value() == K::spec_one(),
        s.value() != K::spec_zero(),
        q.x.value() == K::spec_mul(p.x.value(), s.value()),
        q.z.value() == s.value(),
    ensures
        p.eq_spec(&q),
        q.eq_spec(&p),
{
    p.x.lemma_value_member();
    s.lemma_value_member();
    lemma_scale_invariance::<K>(p.x.value(), s.value());
}

/// A point with `z = 0` equals every point with `z = 0`, and no other.
pub proof fn lemma_point_at_infinity<K: FiniteField + Clone>(p: Point<K>, q: Point<K>)
    requires
        p.z.value() == K::spec_zero(),
    ensures
        p.eq_spec(&q) <==> q.z.value() == K::spec_zero(),
        q.eq_spec(&p) <==> q.z.value() == K::spec_zero(),
{
}

impl<K: FiniteField + Clone> PartialEq for Point<K> {
    /// Two points are equal if (z != 0 and x/z) match, or if z = 0 for both
    fn eq(&self, other: &Self) -> (r: bool) {
        let other_zero = other.z.is_zero();
        if self.z.is_zero() {
            other_zero
        } else if other_zero {
            false
        } else {
            // Z / Z' are not zero and operation take place on finite field, div cannot panic
            let ratio = self.x.div(&self.z).unwrap();
            let other_ratio = other.x.div(&other.z).unwrap();
            ratio.equals(&other_ratio)
        }
    }
}

impl<K: FiniteField + Clone> vstd::std_specs::cmp::PartialEqSpecImpl for Point<K> {
    open spec fn obeys_eq_spec() -> bool {
        true
    }

    open spec fn eq_spec(&self, other: &Self) -> bool {
        same_point::<K>(self.coordinates(), other.coordinates())
    }
}

} // verus!

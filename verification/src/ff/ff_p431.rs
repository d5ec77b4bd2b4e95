//! The prime field of 431 elements
//!
//! `431 = 2^4 * 3^3 - 1` has the shape `2^e2 * 3^e3 - 1` of the primes of the
//! parameter sets, and its field is small enough to follow every operation
//! by hand. `-1` is not a square in it, so that its quadratic extension is a
//! field.

use crate::ff::modular::{
    divides, gcd, is_prime, lemma_add_mod_associative, lemma_gcd_with_prime,
    lemma_inverse_exists, lemma_inverse_unique, lemma_mul_mod_associative,
    lemma_mul_mod_distributive,
};
use crate::ff::{Error, FiniteField, QuadraticBase};
use crate::utils::conversion::{pad_left, spec_next_power_of_two};
use vstd::arithmetic::div_mod::{
    lemma_fundamental_div_mod, lemma_fundamental_div_mod_converse_mod,
};
use vstd::prelude::*;

verus! {

/// Prime p = 2^4 3^3 - 1
pub const P431: u16 = 431;

/// Number of bytes that encode an element
pub const P431_BYTES: usize = 2;

/// Element of the prime field 𝔽ₚ with `p = 431`, held as the number below
/// `p` that stands for it
#[derive(Clone, Copy, Debug, PartialEq, Eq)]
pub struct PrimeFieldP431 {
    n: u16,
}

/// 431 is a prime.
pub proof fn lemma_p431_is_prime()
    ensures
        is_prime(431),
{
    assert forall|d: int| 1 < d < 431 implies !#[trigger] divides(d, 431) by {
        let e = d as u32;
        assert(1 < e && e < 431 ==> 431u32 % e != 0) by (bit_vector);
    }
}

/// The square of no number below 431 leaves the remainder 430.
pub proof fn lemma_p431_minus_one_not_square(a: int)
    requires
        0 <= a < 431,
    ensures
        (a * a) % 431 != 430,
{
    let x = a as u32;
    assert(x < 431 ==> (x * x) % 431 != 430) by (bit_vector);
    assert(x * x == a * a) by (nonlinear_arith)
        requires
            x == a,
    ;
}

impl PrimeFieldP431 {
    #[verifier::type_invariant]
    spec fn reduced(self) -> bool {
        self.n < 431
    }

    /// The element that `n` stands for, which is that of `n mod 431`.
    pub fn new(n: u16) -> (r: Self)
        ensures
            r.value() == n as int % 431,
    {
        Self { n: n % P431 }
    }

    /// The number below 431 that stands for the element.
    pub fn number(&self) -> (r: u16)
        ensures
            r == self.value(),
    {
        proof {
            use_type_invariant(self);
        }
        self.n
    }
}

impl FiniteField for PrimeFieldP431 {
    type V = int;

    closed spec fn value(&self) -> int {
        self.n as int % 431
    }

    open spec fn member(v: int) -> bool {
        0 <= v < 431
    }

    open spec fn dim() -> nat {
        1
    }

    open spec fn encoded_len() -> nat {
        2
    }

    open spec fn spec_zero() -> int {
        0
    }

    open spec fn spec_one() -> int {
        1
    }

    open spec fn spec_neg(a: int) -> int {
        (431 - a) % 431
    }

    open spec fn spec_add(a: int, b: int) -> int {
        (a + b) % 431
    }

    open spec fn spec_mul(a: int, b: int) -> int {
        (a * b) % 431
    }

    /// The one number below 431 whose product with `a` leaves the remainder 1.
    open spec fn spec_inv(a: int) -> int {
        choose|x: int| 0 <= x < 431 && #[trigger] ((a * x) % 431) == 1
    }

    /// Two bytes, the more significant one first.
    open spec fn encode(a: int) -> Seq<u8> {
        seq![(a / 256) as u8, (a % 256) as u8]
    }

    /// Two bytes, the more significant one first, that stand for a number
    /// below 431.
    open spec fn decode(bytes: Seq<u8>) -> Result<int, Error> {
        if bytes.len() != 2 {
            Err(Error::MalformedEncoding { expected: 2, actual: bytes.len() as usize })
        } else if bytes[0] as int * 256 + bytes[1] as int >= 431 {
            Err(Error::MalformedEncoding { expected: 2, actual: 2 })
        } else {
            Ok(bytes[0] as int * 256 + bytes[1] as int)
        }
    }

    proof fn lemma_value_member(&self) {
    }

    proof fn lemma_identities() {
    }

    proof fn lemma_closed(a: int, b: int) {
        if a != 0 {
            lemma_p431_is_prime();
            lemma_inverse_exists(431, a);
        }
    }

    proof fn lemma_add_commutative(a: int, b: int) {
    }

    proof fn lemma_add_associative(a: int, b: int, c: int) {
        lemma_add_mod_associative(431, a, b, c);
    }

    proof fn lemma_add_zero(a: int) {
    }

    proof fn lemma_add_neg(a: int) {
    }

    proof fn lemma_mul_commutative(a: int, b: int) {
        assert(a * b == b * a) by (nonlinear_arith);
    }

    proof fn lemma_mul_associative(a: int, b: int, c: int) {
        lemma_mul_mod_associative(431, a, b, c);
    }

    proof fn lemma_mul_one(a: int) {
        assert(a * 1 == a);
    }

    proof fn lemma_mul_inv(a: int) {
        lemma_p431_is_prime();
        lemma_inverse_exists(431, a);
    }

    proof fn lemma_distributive(a: int, b: int, c: int) {
        lemma_mul_mod_distributive(431, a, b, c);
    }

    proof fn lemma_encode_len(a: int) {
    }

    proof fn lemma_decode_encode(a: int) {
    }

    proof fn lemma_decode_padded(a: int) {
        reveal_with_fuel(spec_next_power_of_two, 2);
        assert(pad_left(Self::encode(a), 2) =~= Self::encode(a));
    }

    proof fn lemma_decode_sound(bytes: Seq<u8>) {
    }

    fn is_zero(&self) -> (r: bool) {
        proof {
            use_type_invariant(self);
        }
        self.n == 0
    }

    fn dimension() -> (r: usize) {
        1
    }

    fn zero() -> (r: Self) {
        Self { n: 0 }
    }

    fn one() -> (r: Self) {
        Self { n: 1 }
    }

    fn neg(&self) -> (r: Self) {
        proof {
            use_type_invariant(self);
        }
        Self { n: (P431 - self.n) % P431 }
    }

    fn inv(&self) -> (r: Result<Self, Error>) {
        proof {
            use_type_invariant(self);
        }
        if self.n == 0 {
            return Err(Error::NoInverse);
        }
        let a: u32 = self.n as u32;
        // Euclid's algorithm on 431 and a; t0 * a and t1 * a leave the
        // remainders r0 and r1.
        let mut r0: u32 = 431;
        let mut r1: u32 = a;
        let mut t0: u32 = 0;
        let mut t1: u32 = 1;
        let ghost mut k0: int = -1;
        let ghost mut k1: int = 0;
        while r1 != 0
            invariant
                0 < a < 431,
                0 < r0 <= 431,
                r1 < 431,
                t0 < 431,
                t1 < 431,
                gcd(r0 as nat, r1 as nat) == gcd(431, a as nat),
                t0 * a == r0 + k0 * 431,
                t1 * a == r1 + k1 * 431,
            decreases r1,
        {
            let q = r0 / r1;
            let r2 = r0 % r1;
            proof {
                lemma_fundamental_div_mod(r0 as int, r1 as int);
                assert(q <= 431 && q * t1 <= 431 * 431) by (nonlinear_arith)
                    requires
                        r0 == r1 * q + r2,
                        r0 <= 431,
                        r1 >= 1,
                        t1 <= 431,
                ;
            }
            let s = (q * t1) % 431;
            let t2 = (t0 + (431 - s)) % 431;
            proof {
                let m1 = (q * t1) as int / 431;
                let m2 = (t0 + (431 - s)) as int / 431;
                let k2 = k0 - q * k1 + (1 - m2 + m1) * a;
                assert(t2 * a == r2 + k2 * 431) by (nonlinear_arith)
                    requires
                        r0 == r1 * q + r2,
                        q * t1 == 431 * m1 + s,
                        t0 + (431 - s) == 431 * m2 + t2,
                        t0 * a == r0 + k0 * 431,
                        t1 * a == r1 + k1 * 431,
                        k2 == k0 - q * k1 + (1 - m2 + m1) * a,
                ;
                k0 = k1;
                k1 = k2;
            }
            r0 = r1;
            r1 = r2;
            t0 = t1;
            t1 = t2;
        }
        proof {
            lemma_p431_is_prime();
            lemma_gcd_with_prime(431, a as nat);
            assert(r0 == 1);
            lemma_fundamental_div_mod_converse_mod(a * t0, 431, k0, 1);
            assert(a * t0 == t0 * a) by (nonlinear_arith);
            assert((a * t0) % 431 == 1);
            lemma_inverse_exists(431, a as int);
            lemma_inverse_unique(431, a as int, t0 as int, Self::spec_inv(a as int));
        }
        Ok(Self { n: t0 as u16 })
    }

    fn add(&self, other: &Self) -> (r: Self) {
        proof {
            use_type_invariant(self);
            use_type_invariant(other);
        }
        Self { n: (self.n + other.n) % P431 }
    }

    fn sub(&self, other: &Self) -> (r: Self) {
        self.add(&other.neg())
    }

    fn mul(&self, other: &Self) -> (r: Self) {
        proof {
            use_type_invariant(self);
            use_type_invariant(other);
            assert(self.n * other.n <= 430 * 430) by (nonlinear_arith)
                requires
                    self.n <= 430,
                    other.n <= 430,
            ;
        }
        Self { n: ((self.n as u32 * other.n as u32) % 431) as u16 }
    }

    fn div(&self, other: &Self) -> (r: Result<Self, Error>) {
        Ok(self.mul(&other.inv()?))
    }

    fn equals(&self, other: &Self) -> (r: bool) {
        proof {
            use_type_invariant(self);
            use_type_invariant(other);
        }
        self.n == other.n
    }

    fn into_bytes(self) -> (r: Vec<u8>) {
        proof {
            use_type_invariant(&self);
        }
        let mut r: Vec<u8> = Vec::new();
        r.push((self.n / 256) as u8);
        r.push((self.n % 256) as u8);
        assert(r@ =~= Self::encode(self.value()));
        r
    }

    fn from_bytes(bytes: &[u8]) -> (r: Result<Self, Error>) {
        if bytes.len() != P431_BYTES {
            return Err(Error::MalformedEncoding { expected: P431_BYTES, actual: bytes.len() });
        }
        let n: u16 = bytes[0] as u16 * 256 + bytes[1] as u16;
        if n >= P431 {
            return Err(Error::MalformedEncoding { expected: P431_BYTES, actual: P431_BYTES });
        }
        Ok(Self { n })
    }
}

impl QuadraticBase for PrimeFieldP431 {
    proof fn lemma_minus_one_not_square(a: int) {
        lemma_p431_minus_one_not_square(a);
    }
}

} // verus!

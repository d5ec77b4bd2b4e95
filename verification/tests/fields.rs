//! The quadratic extension and the projective points over the SIKE prime
//! fields, which are written out here in plain arithmetic on limbs.

use sike::constants::cs_p434::{SIKE_P434_P, SIKE_P434_XP20, SIKE_P434_XP21};
use sike::constants::cs_p610::{SIKE_P610_P, SIKE_P610_XP20, SIKE_P610_XP21, SIKE_P610_XQ20};
use sike::ff::{Error, FiniteField, QuadraticBase, QuadraticExtension};
use sike::isogeny::point::Point;
use std::fmt::Debug;
use std::marker::PhantomData;

const LIMBS: usize = 20;

/// An unsigned integer below 2^640, least significant limb first.
type Limbs = [u32; LIMBS];

fn limbs_from_bytes(bytes: &[u8]) -> Option<Limbs> {
    let mut limbs = [0u32; LIMBS];
    for (i, byte) in bytes.iter().rev().enumerate() {
        if i / 4 >= LIMBS {
            if *byte != 0 {
                return None;
            }
        } else {
            limbs[i / 4] |= (*byte as u32) << (8 * (i % 4));
        }
    }
    Some(limbs)
}

fn limbs_from_hex(hex: &str) -> Option<Limbs> {
    let digits: Vec<u8> = hex.bytes().collect();
    if digits.len() % 2 != 0 {
        return None;
    }
    let mut bytes = Vec::new();
    for pair in digits.chunks(2) {
        let high = (pair[0] as char).to_digit(16)?;
        let low = (pair[1] as char).to_digit(16)?;
        bytes.push((high * 16 + low) as u8);
    }
    limbs_from_bytes(&bytes)
}

fn limbs_to_bytes(limbs: &Limbs, len: usize) -> Vec<u8> {
    let mut bytes = vec![0u8; len];
    for i in 0..len {
        bytes[len - 1 - i] = (limbs[i / 4] >> (8 * (i % 4))) as u8;
    }
    bytes
}

fn less(a: &Limbs, b: &Limbs) -> bool {
    for i in (0..LIMBS).rev() {
        if a[i] != b[i] {
            return a[i] < b[i];
        }
    }
    false
}

fn plus(a: &Limbs, b: &Limbs) -> Limbs {
    let mut r = [0u32; LIMBS];
    let mut carry = 0u64;
    for i in 0..LIMBS {
        let s = a[i] as u64 + b[i] as u64 + carry;
        r[i] = s as u32;
        carry = s >> 32;
    }
    assert_eq!(carry, 0);
    r
}

fn minus(a: &Limbs, b: &Limbs) -> Limbs {
    let mut r = [0u32; LIMBS];
    let mut borrow = 0i64;
    for i in 0..LIMBS {
        let d = a[i] as i64 - b[i] as i64 - borrow;
        r[i] = d.rem_euclid(1 << 32) as u32;
        borrow = if d < 0 { 1 } else { 0 };
    }
    assert_eq!(borrow, 0);
    r
}

fn bit(a: &Limbs, i: usize) -> bool {
    (a[i / 32] >> (i % 32)) & 1 == 1
}

fn plus_mod(a: &Limbs, b: &Limbs, p: &Limbs) -> Limbs {
    let s = plus(a, b);
    if less(&s, p) {
        s
    } else {
        minus(&s, p)
    }
}

fn times_mod(a: &Limbs, b: &Limbs, p: &Limbs) -> Limbs {
    let mut r = [0u32; LIMBS];
    for i in (0..32 * LIMBS).rev() {
        r = plus_mod(&r, &r, p);
        if bit(b, i) {
            r = plus_mod(&r, a, p);
        }
    }
    r
}

fn power_mod(a: &Limbs, e: &Limbs, p: &Limbs) -> Limbs {
    let mut r = [0u32; LIMBS];
    r[0] = 1;
    let mut started = false;
    for i in (0..32 * LIMBS).rev() {
        if started {
            r = times_mod(&r, &r, p);
        }
        if bit(e, i) {
            r = times_mod(&r, a, p);
            started = true;
        }
    }
    r
}

/// A prime `p` with `p = 3 mod 4`, and the number of bytes that hold it.
trait Modulus: Copy + Debug + PartialEq {
    fn hex() -> &'static str;
    fn bytes() -> usize;
}

#[derive(Clone, Copy, Debug, PartialEq)]
struct P434;

impl Modulus for P434 {
    fn hex() -> &'static str {
        SIKE_P434_P
    }

    fn bytes() -> usize {
        55
    }
}

#[derive(Clone, Copy, Debug, PartialEq)]
struct P610;

impl Modulus for P610 {
    fn hex() -> &'static str {
        SIKE_P610_P
    }

    fn bytes() -> usize {
        77
    }
}

/// An element of the prime field of `M`, held as the integer below the
/// prime that stands for it.
#[derive(Clone, Copy, Debug, PartialEq)]
struct PrimeField<M: Modulus> {
    n: Limbs,
    modulus: PhantomData<M>,
}

type PrimeFieldP434 = PrimeField<P434>;

type PrimeFieldP610 = PrimeField<P610>;

impl<M: Modulus> PrimeField<M> {
    fn prime() -> Limbs {
        limbs_from_hex(M::hex()).unwrap()
    }

    fn new(n: Limbs) -> Self {
        PrimeField { n, modulus: PhantomData }
    }

    fn from_u32(n: u32) -> Self {
        let mut limbs = [0u32; LIMBS];
        limbs[0] = n;
        Self::new(limbs)
    }

    fn from_string(hex: &str) -> Result<Self, Error> {
        let malformed = Error::MalformedEncoding { expected: M::bytes(), actual: hex.len() / 2 };
        match limbs_from_hex(hex) {
            Some(n) if less(&n, &Self::prime()) => Ok(Self::new(n)),
            _ => Err(malformed),
        }
    }
}

impl<M: Modulus> FiniteField for PrimeField<M> {
    type V = ();

    fn value(&self) {
        unreachable!()
    }

    fn member(_v: ()) -> bool {
        unreachable!()
    }

    fn dim() -> vstd::prelude::nat {
        unreachable!()
    }

    fn encoded_len() -> vstd::prelude::nat {
        unreachable!()
    }

    fn spec_zero() {
        unreachable!()
    }

    fn spec_one() {
        unreachable!()
    }

    fn spec_neg(_a: ()) {
        unreachable!()
    }

    fn spec_add(_a: (), _b: ()) {
        unreachable!()
    }

    fn spec_mul(_a: (), _b: ()) {
        unreachable!()
    }

    fn spec_inv(_a: ()) {
        unreachable!()
    }

    fn encode(_a: ()) -> vstd::seq::Seq<u8> {
        unreachable!()
    }

    fn decode(_bytes: vstd::seq::Seq<u8>) -> Result<(), Error> {
        unreachable!()
    }

    fn lemma_value_member(&self) {
    }

    fn lemma_identities() {
    }

    fn lemma_closed(_a: (), _b: ()) {
    }

    fn lemma_add_commutative(_a: (), _b: ()) {
    }

    fn lemma_add_associative(_a: (), _b: (), _c: ()) {
    }

    fn lemma_add_zero(_a: ()) {
    }

    fn lemma_add_neg(_a: ()) {
    }

    fn lemma_mul_commutative(_a: (), _b: ()) {
    }

    fn lemma_mul_associative(_a: (), _b: (), _c: ()) {
    }

    fn lemma_mul_one(_a: ()) {
    }

    fn lemma_mul_inv(_a: ()) {
    }

    fn lemma_distributive(_a: (), _b: (), _c: ()) {
    }

    fn lemma_encode_len(_a: ()) {
    }

    fn lemma_decode_encode(_a: ()) {
    }

    fn lemma_decode_padded(_a: ()) {
    }

    fn lemma_decode_sound(_bytes: vstd::seq::Seq<u8>) {
    }

    fn is_zero(&self) -> bool {
        self.n == [0u32; LIMBS]
    }

    fn dimension() -> usize {
        1
    }

    fn zero() -> Self {
        Self::from_u32(0)
    }

    fn one() -> Self {
        Self::from_u32(1)
    }

    fn neg(&self) -> Self {
        if self.is_zero() {
            *self
        } else {
            Self::new(minus(&Self::prime(), &self.n))
        }
    }

    fn inv(&self) -> Result<Self, Error> {
        if self.is_zero() {
            return Err(Error::NoInverse);
        }
        let mut two = [0u32; LIMBS];
        two[0] = 2;
        let exponent = minus(&Self::prime(), &two);
        Ok(Self::new(power_mod(&self.n, &exponent, &Self::prime())))
    }

    fn add(&self, other: &Self) -> Self {
        Self::new(plus_mod(&self.n, &other.n, &Self::prime()))
    }

    fn sub(&self, other: &Self) -> Self {
        self.add(&other.neg())
    }

    fn mul(&self, other: &Self) -> Self {
        Self::new(times_mod(&self.n, &other.n, &Self::prime()))
    }

    fn div(&self, other: &Self) -> Result<Self, Error> {
        Ok(self.mul(&other.inv()?))
    }

    fn equals(&self, other: &Self) -> bool {
        self.n == other.n
    }

    fn into_bytes(self) -> Vec<u8> {
        limbs_to_bytes(&self.n, M::bytes())
    }

    fn from_bytes(bytes: &[u8]) -> Result<Self, Error> {
        let malformed = Error::MalformedEncoding { expected: M::bytes(), actual: bytes.len() };
        match limbs_from_bytes(bytes) {
            Some(n) if less(&n, &Self::prime()) => Ok(Self::new(n)),
            _ => Err(malformed),
        }
    }
}

impl<M: Modulus> QuadraticBase for PrimeField<M> {
    fn lemma_minus_one_not_square(_a: ()) {
    }
}

type Fp = PrimeFieldP434;

type Fp2 = QuadraticExtension<PrimeFieldP434>;

fn fp(n: u32) -> Fp {
    Fp::from_u32(n)
}

fn fp2(a: u32, b: u32) -> Fp2 {
    QuadraticExtension::from(fp(a), fp(b))
}

#[test]
fn test_conversion_ff434_bytes() {
    let num = PrimeFieldP434::from_string(SIKE_P434_XP20).unwrap();

    let b = num.clone().into_bytes();
    let num_recovered = PrimeFieldP434::from_bytes(&b).unwrap();

    println!("{:?}", num);
    println!("{:?}", num_recovered);

    assert!(num.equals(&num_recovered));
}

#[test]
fn test_conversion_quadratic_bytes() {
    let num1 = PrimeFieldP434::from_string(SIKE_P434_XP20).unwrap();
    let num2 = PrimeFieldP434::from_string(SIKE_P434_XP21).unwrap();

    let q = QuadraticExtension::from(num1, num2);
    let b = q.clone().into_bytes();
    let q_recovered = QuadraticExtension::from_bytes(&b).unwrap();

    println!("{:?}", q);
    println!("{:?}", q_recovered);

    assert!(q.equals(&q_recovered));
}

#[test]
fn test_ff() {
    let one = PrimeFieldP434::one();
    let two = one.add(&one);
    let three = two.add(&one);
    let four1 = two.add(&two);
    let four2 = two.mul(&two);
    let zero = one.sub(&one);

    println!("zero = {:?}", zero);
    println!("one = {:?}", one);
    println!("two = {:?}", two);
    println!("three = {:?}", three);
    println!("four1 = {:?}", four1);
    println!("four2 = {:?}", four2);

    assert!(zero.is_zero());
    assert_eq!(three, fp(3));
    assert_eq!(four1, fp(4));
    assert_eq!(four2, fp(4));
}

#[test]
fn test_qff() {
    let one = PrimeFieldP434::one();
    let two = one.add(&one);
    let x = QuadraticExtension::from(two.clone(), two.clone());

    let eight_i = x.mul(&x);

    println!("eight_i = {:?}", eight_i);

    let two_plus_two_i = eight_i.div(&x).unwrap();

    println!("two_plus_two_i = {:?}", two_plus_two_i);

    assert_eq!(two_plus_two_i, x)
}

#[test]
fn square_of_two_plus_two_i_is_eight_i() {
    assert_eq!(fp2(2, 2).mul(&fp2(2, 2)), fp2(0, 8));
}

#[test]
fn product_follows_the_complex_rule() {
    // (3 + 4i)(5 + 6i) = (15 - 24) + (18 + 20)i
    let expected = QuadraticExtension::from(fp(9).neg(), fp(38));
    assert_eq!(fp2(3, 4).mul(&fp2(5, 6)), expected);
    // i * i = -1
    assert_eq!(fp2(0, 1).mul(&fp2(0, 1)), Fp2::one().neg());
}

#[test]
fn sum_difference_and_negation_are_componentwise() {
    assert_eq!(fp2(3, 4).add(&fp2(5, 6)), fp2(8, 10));
    assert_eq!(fp2(8, 10).sub(&fp2(5, 6)), fp2(3, 4));
    assert_eq!(fp2(3, 4).neg(), QuadraticExtension::from(fp(3).neg(), fp(4).neg()));
    assert_eq!(fp2(3, 4).sub(&fp2(5, 6)), QuadraticExtension::from(fp(2).neg(), fp(2).neg()));
}

#[test]
fn identities_of_the_extension() {
    assert_eq!(Fp2::zero(), fp2(0, 0));
    assert_eq!(Fp2::one(), fp2(1, 0));
    assert!(Fp2::zero().is_zero());
    assert!(!Fp2::one().is_zero());
    assert!(!fp2(0, 1).is_zero());
    assert!(!fp2(1, 0).is_zero());
}

#[test]
fn dimension_doubles() {
    assert_eq!(Fp::dimension(), 1);
    assert_eq!(Fp2::dimension(), 2);
}

#[test]
fn components_are_handed_out() {
    let x = fp2(3, 4);
    assert_eq!(*x.a(), fp(3));
    assert_eq!(*x.b(), fp(4));
}

#[test]
fn inverse_divides_the_conjugate_by_the_norm() {
    // (3 + 4i)^-1 = (3 - 4i) / 25
    let inv_norm = fp(25).inv().unwrap();
    let expected = QuadraticExtension::from(inv_norm.mul(&fp(3)), inv_norm.mul(&fp(4).neg()));
    assert_eq!(fp2(3, 4).inv().unwrap(), expected);
}

#[test]
fn field_axioms_hold_in_the_base_field() {
    let a = Fp::from_string(SIKE_P434_XP20).unwrap();
    let b = Fp::from_string(SIKE_P434_XP21).unwrap();
    assert!(a.add(&b).equals(&b.add(&a)));
    assert!(a.mul(&b).equals(&b.mul(&a)));
    assert!(a.add(&Fp::zero()).equals(&a));
    assert!(a.mul(&Fp::one()).equals(&a));
    assert!(a.add(&a.neg()).equals(&Fp::zero()));
}

#[test]
fn field_axioms_hold_in_the_extension() {
    let x = Fp::from_string(SIKE_P434_XP20).unwrap();
    let y = Fp::from_string(SIKE_P434_XP21).unwrap();
    let a = QuadraticExtension::from(x, y);
    let b = QuadraticExtension::from(y.mul(&y), x.add(&fp(7)));
    let c = fp2(11, 13);
    assert!(a.add(&b).equals(&b.add(&a)));
    assert!(a.mul(&b).equals(&b.mul(&a)));
    assert!(a.add(&Fp2::zero()).equals(&a));
    assert!(a.mul(&Fp2::one()).equals(&a));
    assert!(a.add(&a.neg()).equals(&Fp2::zero()));
    assert!(a.mul(&b).mul(&c).equals(&a.mul(&b.mul(&c))));
    assert!(a.add(&b).add(&c).equals(&a.add(&b.add(&c))));
    assert!(a.mul(&b.add(&c)).equals(&a.mul(&b).add(&a.mul(&c))));
}

#[test]
fn inverse_law_in_the_base_field() {
    let a = Fp::from_string(SIKE_P434_XP20).unwrap();
    assert!(a.mul(&a.inv().unwrap()).equals(&Fp::one()));
    assert_eq!(Fp::zero().inv(), Err(Error::NoInverse));
    assert_eq!(a.div(&Fp::zero()), Err(Error::NoInverse));
}

#[test]
fn inverse_law_in_the_extension() {
    let x = Fp::from_string(SIKE_P434_XP20).unwrap();
    let y = Fp::from_string(SIKE_P434_XP21).unwrap();
    let a = QuadraticExtension::from(x, y);
    assert!(a.mul(&a.inv().unwrap()).equals(&Fp2::one()));
    assert!(fp2(0, 1).mul(&fp2(0, 1).inv().unwrap()).equals(&Fp2::one()));
    assert!(fp2(5, 0).mul(&fp2(5, 0).inv().unwrap()).equals(&Fp2::one()));
    assert_eq!(Fp2::zero().inv(), Err(Error::NoInverse));
}

#[test]
fn division_by_zero_fails() {
    assert_eq!(fp2(3, 4).div(&Fp2::zero()), Err(Error::NoInverse));
    assert_eq!(Fp2::zero().div(&Fp2::zero()), Err(Error::NoInverse));
    assert_eq!(Fp2::zero().div(&fp2(3, 4)), Ok(Fp2::zero()));
}

#[test]
fn division_undoes_multiplication() {
    let a = fp2(3, 4);
    let b = fp2(5, 6);
    assert_eq!(a.mul(&b).div(&b), Ok(a));
    assert_eq!(a.div(&a), Ok(Fp2::one()));
}

#[test]
fn equality_is_componentwise() {
    assert!(fp2(3, 4).equals(&fp2(3, 4)));
    assert!(!fp2(3, 4).equals(&fp2(3, 5)));
    assert!(!fp2(3, 4).equals(&fp2(2, 4)));
    assert!(!fp2(3, 4).equals(&fp2(4, 3)));
}

#[test]
fn encoding_pads_each_component_to_a_power_of_two() {
    let bytes = fp2(1, 0x0203).into_bytes();
    assert_eq!(bytes.len(), 128);
    let mut expected = vec![0u8; 128];
    expected[63] = 1;
    expected[126] = 2;
    expected[127] = 3;
    assert_eq!(bytes, expected);
}

#[test]
fn encoding_of_a_generator_coordinate() {
    let x = Fp::from_string(SIKE_P434_XP20).unwrap();
    let y = Fp::from_string(SIKE_P434_XP21).unwrap();
    let bytes = QuadraticExtension::from(x, y).into_bytes();
    assert_eq!(bytes.len(), 128);
    assert_eq!(&bytes[..10], &[0u8; 10]);
    assert_eq!(&bytes[10..13], &[0x3C, 0xCF, 0xC5]);
    assert_eq!(&bytes[61..64], &[0x46, 0xCB, 0x48]);
    assert_eq!(&bytes[64..73], &[0u8; 9]);
    assert_eq!(&bytes[73..77], &[0x01, 0xAD, 0x1C, 0x1C]);
    assert_eq!(&bytes[125..], &[0xE3, 0xEA, 0x50]);
}

#[test]
fn round_trip_in_the_extension() {
    for (a, b) in [(0, 0), (1, 0), (0, 1), (77, 1 << 31)] {
        let x = fp2(a, b);
        assert!(Fp2::from_bytes(&x.into_bytes()).unwrap().equals(&x));
    }
}

#[test]
fn decoding_splits_at_the_midpoint() {
    assert_eq!(Fp2::from_bytes(&[0, 7, 1, 2]), Ok(fp2(7, 0x0102)));
    assert_eq!(Fp2::from_bytes(&[7, 9]), Ok(fp2(7, 9)));
    // An odd number of bytes leaves the longer half to the second component.
    assert_eq!(Fp2::from_bytes(&[7, 1, 2]), Ok(fp2(7, 0x0102)));
    assert_eq!(Fp2::from_bytes(&[]), Ok(fp2(0, 0)));
}

#[test]
fn decoding_passes_on_the_first_failure() {
    let mut bytes = vec![0u8; 128];
    // The first component is too large for the field.
    bytes[8] = 0xFF;
    assert_eq!(
        Fp2::from_bytes(&bytes),
        Err(Error::MalformedEncoding { expected: 55, actual: 64 })
    );
    // Now the second one is, too: the first is still the one reported.
    bytes[72] = 0xFF;
    assert_eq!(
        Fp2::from_bytes(&bytes),
        Err(Error::MalformedEncoding { expected: 55, actual: 64 })
    );
    // Only the second component is too large.
    bytes[8] = 0;
    let short = &bytes[2..];
    assert_eq!(
        Fp2::from_bytes(short),
        Err(Error::MalformedEncoding { expected: 55, actual: 63 })
    );
}

#[test]
fn round_trip_of_the_p610_generators() {
    let x = PrimeFieldP610::from_string(SIKE_P610_XP20).unwrap();
    let y = PrimeFieldP610::from_string(SIKE_P610_XP21).unwrap();
    let z = PrimeFieldP610::from_string(SIKE_P610_XQ20).unwrap();
    assert!(PrimeFieldP610::from_bytes(&x.into_bytes()).unwrap().equals(&x));
    let q = QuadraticExtension::from(x, y);
    let bytes = q.into_bytes();
    assert_eq!(bytes.len(), 256);
    assert_eq!(&bytes[..51], &[0u8; 51]);
    assert_eq!(&bytes[51..54], &[0x01, 0xB3, 0x68]);
    assert!(QuadraticExtension::<PrimeFieldP610>::from_bytes(&bytes).unwrap().equals(&q));
    let r = QuadraticExtension::from(z, y);
    assert!(QuadraticExtension::<PrimeFieldP610>::from_bytes(&r.into_bytes()).unwrap().equals(&r));
    assert!(q.mul(&r).div(&r).unwrap().equals(&q));
}

#[test]
fn point_from_x_has_denominator_one() {
    let p = Point::from_x(fp(5));
    assert_eq!(p.x, fp(5));
    assert_eq!(p.z, Fp::one());
}

#[test]
fn scaling_keeps_the_point() {
    let k = Fp::from_string(SIKE_P434_XP20).unwrap();
    let s = Fp::from_string(SIKE_P434_XP21).unwrap();
    let p = Point::from_x(k);
    let q = Point { x: k.mul(&s), z: s };
    assert!(p == q);
    assert!(q == p);
    let r = Point { x: k.mul(&s).add(&Fp::one()), z: s };
    assert!(p != r);
}

#[test]
fn scaling_keeps_the_point_over_the_extension() {
    let k = fp2(3, 4);
    let s = fp2(5, 6);
    let p = Point::from_x(k);
    let q = Point { x: k.mul(&s), z: s };
    assert!(p == q);
    assert!(Point::from_x(fp2(3, 5)) != q);
}

#[test]
fn points_at_infinity_are_one_point() {
    let p = Point { x: fp(3), z: Fp::zero() };
    let q = Point { x: fp(4), z: Fp::zero() };
    assert!(p == q);
    assert!(p == p.clone());
    let finite = Point { x: fp(3), z: fp(1) };
    assert!(p != finite);
    assert!(finite != p);
    let origin = Point { x: Fp::zero(), z: fp(2) };
    assert!(origin != p);
    assert!(origin == Point::from_x(Fp::zero()));
}

#[test]
fn finite_points_compare_by_their_ratio() {
    // 6 / 4 = 9 / 6
    assert!(Point { x: fp(6), z: fp(4) } == Point { x: fp(9), z: fp(6) });
    assert!(Point { x: fp(6), z: fp(4) } != Point { x: fp(9), z: fp(5) });
}

#[test]
fn the_pair_of_zeros_counts_as_infinity() {
    let nowhere = Point { x: Fp::zero(), z: Fp::zero() };
    assert!(nowhere == Point { x: fp(3), z: Fp::zero() });
    assert!(nowhere == nowhere.clone());
    // The cross products of these two agree, yet they are not one point.
    assert!(nowhere != Point { x: fp(3), z: fp(4) });
    assert!(Point { x: fp(3), z: fp(4) } != nowhere);
}

/// Doubles a point of the curve `y^2 = x^3 + 6x^2 + x`.
fn double(p: &Point<Fp2>) -> Point<Fp2> {
    let xx = p.x.mul(&p.x);
    let zz = p.z.mul(&p.z);
    let xz = p.x.mul(&p.z);
    let difference = xx.sub(&zz);
    let middle = xx.add(&fp2(6, 0).mul(&xz)).add(&zz);
    Point { x: difference.mul(&difference), z: fp2(4, 0).mul(&xz).mul(&middle) }
}

#[test]
fn generator_has_order_two_to_the_e2() {
    let x = Fp::from_string(SIKE_P434_XP20).unwrap();
    let y = Fp::from_string(SIKE_P434_XP21).unwrap();
    let infinity = Point { x: Fp2::one(), z: Fp2::zero() };
    let mut p = Point::from_x(QuadraticExtension::from(x, y));
    for _ in 0..215 {
        p = double(&p);
        assert!(p != infinity);
    }
    assert!(double(&p) == infinity);
}

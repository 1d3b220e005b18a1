//! The two groups of BLS12-381. Both are cyclic of the same prime order, so an
//! element is modelled by its index: the number `k` below the order for which
//! it is `k` times the standard generator. Adding elements adds indices and
//! scaling an element multiplies its index, both modulo the order.
//!
//! The arithmetic itself is that of `ark_ec`, which documents a `Group` as a
//! group of prime order `r` with the scalar field of that order. The trusted
//! functions at the end of this file say what that means for indices; nothing
//! here proves it of the curve.

use crate::field::{field_add, field_mul, field_sub, scalar_modulus, Scalar};
use ark_bls12_381::{Fr, G1Affine, G1Projective, G2Affine, G2Projective};
use ark_ec::{AffineRepr, CurveGroup, Group, VariableBaseMSM};
use ark_ff::{BigInt, PrimeField};
use ark_serialize::{CanonicalDeserialize, CanonicalSerialize};
use ark_std::UniformRand;
use rand::rngs::ThreadRng;
use vstd::prelude::*;

verus! {

/// The uncompressed encoding of `k` times the standard generator of G1.
pub uninterp spec fn g1_encoding(k: nat) -> Seq<u8>;

/// The uncompressed encoding of `k` times the standard generator of G2.
pub uninterp spec fn g2_encoding(k: nat) -> Seq<u8>;

/// The text that `Display` writes for `k` times the standard generator of G1,
/// which stands for the element in a transcript.
pub uninterp spec fn g1_text(k: nat) -> Seq<char>;

/// The text that `Display` writes for `k` times the standard generator of G2,
/// which stands for the element in a transcript.
pub uninterp spec fn g2_text(k: nat) -> Seq<char>;

/// The index of the sum of two group elements.
pub open spec fn group_add(p: nat, q: nat) -> nat {
    field_add(p, q)
}

/// The index of the difference of two group elements.
pub open spec fn group_sub(p: nat, q: nat) -> nat {
    field_sub(p, q)
}

/// The index of a group element taken `k` times.
pub open spec fn group_scale(p: nat, k: nat) -> nat {
    field_mul(p, k)
}

/// The sum of the products of indices and scalars, not yet reduced.
pub open spec fn index_dot(points: Seq<nat>, scalars: Seq<nat>) -> nat
    decreases points.len(),
{
    if points.len() == 0 {
        0
    } else {
        index_dot(points.drop_last(), scalars.drop_last()) + points.last() * scalars.last()
    }
}

/// The index of the sum of the group elements, each taken as many times as
/// its scalar says.
pub open spec fn group_msm(points: Seq<nat>, scalars: Seq<nat>) -> nat {
    index_dot(points, scalars) % scalar_modulus()
}

/// The indices of a sequence of elements of G1.
pub open spec fn point_indices(points: Seq<G1Point>) -> Seq<nat> {
    points.map_values(|p: G1Point| p@)
}

/// The values of a sequence of scalars.
pub open spec fn scalar_values(scalars: Seq<Scalar>) -> Seq<nat> {
    scalars.map_values(|k: Scalar| k@)
}

/// The multi-scalar product of three terms, written out.
pub proof fn lemma_msm3(b0: nat, k0: nat, b1: nat, k1: nat, b2: nat, k2: nat)
    ensures
        group_msm(seq![b0, b1, b2], seq![k0, k1, k2]) == (b0 * k0 + b1 * k1 + b2 * k2)
            % scalar_modulus(),
{
    reveal_with_fuel(index_dot, 4);
}

/// The multi-scalar product of four terms, written out.
pub proof fn lemma_msm4(
    b0: nat,
    k0: nat,
    b1: nat,
    k1: nat,
    b2: nat,
    k2: nat,
    b3: nat,
    k3: nat,
)
    ensures
        group_msm(seq![b0, b1, b2, b3], seq![k0, k1, k2, k3]) == (b0 * k0 + b1 * k1 + b2 * k2 + b3
            * k3) % scalar_modulus(),
{
    reveal_with_fuel(index_dot, 5);
}

/// An element of G1, held in its uncompressed encoding.
#[derive(Clone, Copy, Debug, PartialEq, Eq)]
pub struct G1Point {
    bytes: [u8; 96],
}

/// An element of G2, held in its uncompressed encoding.
#[derive(Clone, Copy, Debug, PartialEq, Eq)]
pub struct G2Point {
    bytes: [u8; 192],
}

impl View for G1Point {
    type V = nat;

    /// The index of the element.
    closed spec fn view(&self) -> nat {
        choose|k: nat| k < scalar_modulus() && g1_encoding(k) == self.bytes@
    }
}

impl View for G2Point {
    type V = nat;

    /// The index of the element.
    closed spec fn view(&self) -> nat {
        choose|k: nat| k < scalar_modulus() && g2_encoding(k) == self.bytes@
    }
}

impl G1Point {
    /// The bytes held are the encoding of an element of the group: of the
    /// generator taken some number of times below the order.
    pub closed spec fn wf(self) -> bool {
        exists|k: nat| k < scalar_modulus() && g1_encoding(k) == self.bytes@
    }

    #[verifier::type_invariant]
    pub open spec fn inv(self) -> bool {
        self.wf()
    }

    /// The standard generator taken `k` times.
    pub fn generator_mul(k: &Scalar) -> (r: G1Point)
        ensures
            r@ == k@,
    {
        proof {
            use_type_invariant(k);
        }
        g1_generator_mul(k)
    }

    /// The sum of two elements.
    pub fn add(&self, rhs: &G1Point) -> (r: G1Point)
        ensures
            r@ == group_add(self@, rhs@),
    {
        proof {
            use_type_invariant(self);
            use_type_invariant(rhs);
        }
        g1_add(self, rhs)
    }

    /// The difference of two elements.
    pub fn sub(&self, rhs: &G1Point) -> (r: G1Point)
        ensures
            r@ == group_sub(self@, rhs@),
    {
        proof {
            use_type_invariant(self);
            use_type_invariant(rhs);
        }
        g1_sub(self, rhs)
    }

    /// The element taken `k` times.
    pub fn mul(&self, k: &Scalar) -> (r: G1Point)
        ensures
            r@ == group_scale(self@, k@),
    {
        proof {
            use_type_invariant(self);
            use_type_invariant(k);
        }
        g1_mul(self, k)
    }

    /// The sum of the elements, each taken as many times as its scalar says.
    pub(crate) fn msm(points: &[G1Point], scalars: &[Scalar]) -> (r: G1Point)
        requires
            points@.len() == scalars@.len(),
            forall|i: int| 0 <= i < points@.len() ==> (#[trigger] points@[i]).wf(),
            forall|i: int| 0 <= i < scalars@.len() ==> (#[trigger] scalars@[i]).wf(),
        ensures
            r@ == group_msm(point_indices(points@), scalar_values(scalars@)),
    {
        g1_msm(points, scalars)
    }

    /// The text that stands for the element in a transcript.
    pub fn to_string(&self) -> (s: String)
        ensures
            s@ == g1_text(self@),
    {
        proof {
            use_type_invariant(self);
        }
        g1_to_string(self)
    }

    /// An element drawn from the generator of randomness.
    pub fn random(rng: &mut ThreadRng) -> (r: G1Point)
        ensures
            r@ < scalar_modulus(),
    {
        g1_random(rng)
    }
}

impl G2Point {
    /// The bytes held are the encoding of an element of the group: of the
    /// generator taken some number of times below the order.
    pub closed spec fn wf(self) -> bool {
        exists|k: nat| k < scalar_modulus() && g2_encoding(k) == self.bytes@
    }

    #[verifier::type_invariant]
    pub open spec fn inv(self) -> bool {
        self.wf()
    }

    /// The standard generator taken `k` times.
    pub fn generator_mul(k: &Scalar) -> (r: G2Point)
        ensures
            r@ == k@,
    {
        proof {
            use_type_invariant(k);
        }
        g2_generator_mul(k)
    }

    /// The difference of two elements.
    pub fn sub(&self, rhs: &G2Point) -> (r: G2Point)
        ensures
            r@ == group_sub(self@, rhs@),
    {
        proof {
            use_type_invariant(self);
            use_type_invariant(rhs);
        }
        g2_sub(self, rhs)
    }

    /// The element taken `k` times.
    pub fn mul(&self, k: &Scalar) -> (r: G2Point)
        ensures
            r@ == group_scale(self@, k@),
    {
        proof {
            use_type_invariant(self);
            use_type_invariant(k);
        }
        g2_mul(self, k)
    }

    /// The text that stands for the element in a transcript.
    pub fn to_string(&self) -> (s: String)
        ensures
            s@ == g2_text(self@),
    {
        proof {
            use_type_invariant(self);
        }
        g2_to_string(self)
    }

    /// An element drawn from the generator of randomness.
    pub fn random(rng: &mut ThreadRng) -> (r: G2Point)
        ensures
            r@ < scalar_modulus(),
    {
        g2_random(rng)
    }
}

/// Calls `*` of `ark_ec::short_weierstrass::Projective` on the generator that
/// `ark_ec::Group::generator` gives for G1. The contract claims that the
/// result is the element whose index is the scalar: this is what the index of
/// an element means.
#[verifier::external_body]
fn g1_generator_mul(k: &Scalar) -> (r: G1Point)
    requires
        k.wf(),
    ensures
        r.bytes@ == g1_encoding(k@),
        r@ == k@,
{
    let s = Fr::from_bigint(BigInt::new(k.to_limbs())).unwrap();
    let mut out = [0u8; 96];
    (G1Projective::generator() * s).into_affine().serialize_uncompressed(&mut out[..]).unwrap();
    G1Point { bytes: out }
}

/// Calls `+` of `ark_ec::short_weierstrass::Projective` on two elements of
/// G1. The contract claims that the sum is an element of the group and that
/// its index is the sum of the two indices modulo the order.
#[verifier::external_body]
fn g1_add(p: &G1Point, q: &G1Point) -> (r: G1Point)
    requires
        p.wf(),
        q.wf(),
    ensures
        r.wf(),
        r@ == (p@ + q@) % scalar_modulus(),
{
    let a = G1Affine::deserialize_uncompressed_unchecked(&p.bytes[..]).unwrap();
    let b = G1Affine::deserialize_uncompressed_unchecked(&q.bytes[..]).unwrap();
    let mut out = [0u8; 96];
    (a.into_group() + b.into_group()).into_affine().serialize_uncompressed(&mut out[..]).unwrap();
    G1Point { bytes: out }
}

/// Calls `-` of `ark_ec::short_weierstrass::Projective` on two elements of
/// G1. The contract claims that the difference is an element of the group and
/// that its index is the difference of the two indices modulo the order.
#[verifier::external_body]
fn g1_sub(p: &G1Point, q: &G1Point) -> (r: G1Point)
    requires
        p.wf(),
        q.wf(),
    ensures
        r.wf(),
        r@ == (p@ as int - q@ as int) % (scalar_modulus() as int),
{
    let a = G1Affine::deserialize_uncompressed_unchecked(&p.bytes[..]).unwrap();
    let b = G1Affine::deserialize_uncompressed_unchecked(&q.bytes[..]).unwrap();
    let mut out = [0u8; 96];
    (a.into_group() - b.into_group()).into_affine().serialize_uncompressed(&mut out[..]).unwrap();
    G1Point { bytes: out }
}

/// Calls `*` of `ark_ec::short_weierstrass::Projective` on an element of G1
/// and a scalar. The contract claims that the result is an element of the
/// group and that its index is the product of the index and the scalar modulo
/// the order.
#[verifier::external_body]
fn g1_mul(p: &G1Point, k: &Scalar) -> (r: G1Point)
    requires
        p.wf(),
        k.wf(),
    ensures
        r.wf(),
        r@ == (p@ * k@) % scalar_modulus(),
{
    let a = G1Affine::deserialize_uncompressed_unchecked(&p.bytes[..]).unwrap();
    let s = Fr::from_bigint(BigInt::new(k.to_limbs())).unwrap();
    let mut out = [0u8; 96];
    (a.into_group() * s).into_affine().serialize_uncompressed(&mut out[..]).unwrap();
    G1Point { bytes: out }
}

/// Calls `ark_ec::VariableBaseMSM::msm` for G1, which fails only where the
/// two slices differ in length. The contract claims that the result is an
/// element of the group and that its index is the sum of the products of each
/// index and its scalar, modulo the order.
#[verifier::external_body]
fn g1_msm(points: &[G1Point], scalars: &[Scalar]) -> (r: G1Point)
    requires
        points@.len() == scalars@.len(),
        forall|i: int| 0 <= i < points@.len() ==> (#[trigger] points@[i]).wf(),
        forall|i: int| 0 <= i < scalars@.len() ==> (#[trigger] scalars@[i]).wf(),
    ensures
        r.wf(),
        r@ == index_dot(
            points@.map_values(|p: G1Point| p@),
            scalars@.map_values(|k: Scalar| k@),
        ) % scalar_modulus(),
{
    let bases: Vec<G1Affine> = points.iter().map(
        |p| G1Affine::deserialize_uncompressed_unchecked(&p.bytes[..]).unwrap(),
    ).collect();
    let coeffs: Vec<Fr> = scalars.iter().map(
        |k| Fr::from_bigint(BigInt::new(k.to_limbs())).unwrap(),
    ).collect();
    let mut out = [0u8; 96];
    G1Projective::msm(&bases, &coeffs).unwrap().into_affine().serialize_uncompressed(
        &mut out[..],
    ).unwrap();
    G1Point { bytes: out }
}

/// Calls `to_string`, that is the `Display` of
/// `ark_ec::short_weierstrass::Projective`, on an element of G1. The contract
/// claims that the text depends on the element alone.
#[verifier::external_body]
fn g1_to_string(p: &G1Point) -> (s: String)
    requires
        p.wf(),
    ensures
        s@ == g1_text(p@),
{
    let a = G1Affine::deserialize_uncompressed_unchecked(&p.bytes[..]).unwrap();
    a.into_group().to_string()
}

/// Calls `ark_ff::UniformRand::rand` for G1, which clears the cofactor of a
/// random point of the curve. The contract claims only that the sample is an
/// element of the group.
#[verifier::external_body]
fn g1_random(rng: &mut ThreadRng) -> (r: G1Point)
    ensures
        r.wf(),
{
    let mut out = [0u8; 96];
    G1Projective::rand(rng).into_affine().serialize_uncompressed(&mut out[..]).unwrap();
    G1Point { bytes: out }
}

/// Calls `*` of `ark_ec::short_weierstrass::Projective` on the generator that
/// `ark_ec::Group::generator` gives for G2. The contract claims that the
/// result is the element whose index is the scalar: this is what the index of
/// an element means.
#[verifier::external_body]
fn g2_generator_mul(k: &Scalar) -> (r: G2Point)
    requires
        k.wf(),
    ensures
        r.bytes@ == g2_encoding(k@),
        r@ == k@,
{
    let s = Fr::from_bigint(BigInt::new(k.to_limbs())).unwrap();
    let mut out = [0u8; 192];
    (G2Projective::generator() * s).into_affine().serialize_uncompressed(&mut out[..]).unwrap();
    G2Point { bytes: out }
}

/// Calls `-` of `ark_ec::short_weierstrass::Projective` on two elements of
/// G2. The contract claims that the difference is an element of the group and
/// that its index is the difference of the two indices modulo the order.
#[verifier::external_body]
fn g2_sub(p: &G2Point, q: &G2Point) -> (r: G2Point)
    requires
        p.wf(),
        q.wf(),
    ensures
        r.wf(),
        r@ == (p@ as int - q@ as int) % (scalar_modulus() as int),
{
    let a = G2Affine::deserialize_uncompressed_unchecked(&p.bytes[..]).unwrap();
    let b = G2Affine::deserialize_uncompressed_unchecked(&q.bytes[..]).unwrap();
    let mut out = [0u8; 192];
    (a.into_group() - b.into_group()).into_affine().serialize_uncompressed(&mut out[..]).unwrap();
    G2Point { bytes: out }
}

/// Calls `*` of `ark_ec::short_weierstrass::Projective` on an element of G2
/// and a scalar. The contract claims that the result is an element of the
/// group and that its index is the product of the index and the scalar modulo
/// the order.
#[verifier::external_body]
fn g2_mul(p: &G2Point, k: &Scalar) -> (r: G2Point)
    requires
        p.wf(),
        k.wf(),
    ensures
        r.wf(),
        r@ == (p@ * k@) % scalar_modulus(),
{
    let a = G2Affine::deserialize_uncompressed_unchecked(&p.bytes[..]).unwrap();
    let s = Fr::from_bigint(BigInt::new(k.to_limbs())).unwrap();
    let mut out = [0u8; 192];
    (a.into_group() * s).into_affine().serialize_uncompressed(&mut out[..]).unwrap();
    G2Point { bytes: out }
}

/// Calls `to_string`, that is the `Display` of
/// `ark_ec::short_weierstrass::Projective`, on an element of G2. The contract
/// claims that the text depends on the element alone.
#[verifier::external_body]
fn g2_to_string(p: &G2Point) -> (s: String)
    requires
        p.wf(),
    ensures
        s@ == g2_text(p@),
{
    let a = G2Affine::deserialize_uncompressed_unchecked(&p.bytes[..]).unwrap();
    a.into_group().to_string()
}

/// Calls `ark_ff::UniformRand::rand` for G2, which clears the cofactor of a
/// random point of the curve. The contract claims only that the sample is an
/// element of the group.
#[verifier::external_body]
fn g2_random(rng: &mut ThreadRng) -> (r: G2Point)
    ensures
        r.wf(),
{
    let mut out = [0u8; 192];
    G2Projective::rand(rng).into_affine().serialize_uncompressed(&mut out[..]).unwrap();
    G2Point { bytes: out }
}

} // verus!

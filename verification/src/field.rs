//! The scalar field: integers modulo the prime order of the BLS12-381 groups.

use crate::congruence::lemma_field_inverse_unique;
use ark_bls12_381::Fr;
use ark_ff::{BigInt, Field, PrimeField};
use ark_std::UniformRand;
use rand::rngs::ThreadRng;
use vstd::prelude::*;

verus! {

/// The order `r` of the groups G1 and G2, a 255-bit prime.
pub open spec fn scalar_modulus() -> nat {
    0x73eda753299d7d483339d80809a1d80553bda402fffe5bfeffffffff00000001nat
}

/// The least significant limb of the modulus.
pub const MODULUS_LIMB_0: u64 = 0xffffffff00000001;

/// The second limb of the modulus.
pub const MODULUS_LIMB_1: u64 = 0x53bda402fffe5bfe;

/// The third limb of the modulus.
pub const MODULUS_LIMB_2: u64 = 0x3339d80809a1d805;

/// The most significant limb of the modulus.
pub const MODULUS_LIMB_3: u64 = 0x73eda753299d7d48;

/// The number that four 64-bit limbs stand for, least significant limb first.
pub open spec fn limbs_value(l0: u64, l1: u64, l2: u64, l3: u64) -> nat {
    (l0 as nat) + (l1 as nat) * 0x1_0000_0000_0000_0000nat
        + (l2 as nat) * 0x1_0000_0000_0000_0000_0000_0000_0000_0000nat
        + (l3 as nat) * 0x1_0000_0000_0000_0000_0000_0000_0000_0000_0000_0000_0000_0000nat
}

/// Sum in the scalar field.
pub open spec fn field_add(a: nat, b: nat) -> nat {
    (a + b) % scalar_modulus()
}

/// Difference in the scalar field.
pub open spec fn field_sub(a: nat, b: nat) -> nat {
    ((a as int - b as int) % (scalar_modulus() as int)) as nat
}

/// Product in the scalar field.
pub open spec fn field_mul(a: nat, b: nat) -> nat {
    (a * b) % scalar_modulus()
}

/// Additive inverse in the scalar field.
pub open spec fn field_neg(a: nat) -> nat {
    ((-(a as int)) % (scalar_modulus() as int)) as nat
}

/// Whether `x` is a reduced multiplicative inverse of `a`.
pub open spec fn is_field_inverse(a: nat, x: nat) -> bool {
    x < scalar_modulus() && (a * x) % scalar_modulus() == 1
}

/// The multiplicative inverse of `a` in the scalar field, where it has one.
pub open spec fn field_inv(a: nat) -> nat {
    choose|x: nat| is_field_inverse(a, x)
}

/// Whether `a` has a multiplicative inverse in the scalar field.
pub open spec fn has_field_inverse(a: nat) -> bool {
    is_field_inverse(a, field_inv(a))
}

/// The number that a string of bytes stands for, most significant byte first.
pub open spec fn be_bytes_value(bytes: Seq<u8>) -> nat
    decreases bytes.len(),
{
    if bytes.len() == 0 {
        0
    } else {
        be_bytes_value(bytes.drop_last()) * 256 + bytes.last() as nat
    }
}

/// A number written as a 64-bit digit and the rest above it determines both.
proof fn lemma_digit_split(x: int, a: int, y: int, b: int)
    requires
        0 <= x < 0x1_0000_0000_0000_0000,
        0 <= y < 0x1_0000_0000_0000_0000,
        x + 0x1_0000_0000_0000_0000 * a == y + 0x1_0000_0000_0000_0000 * b,
    ensures
        x == y,
        a == b,
{
}

/// The outside generator of randomness, carried through to the sampling calls.
#[verifier::external_type_specification]
#[verifier::external_body]
pub struct ExThreadRng(ThreadRng);

/// An element of the scalar field, held as four little-endian limbs of its
/// reduced representative.
#[derive(Clone, Copy, Debug, PartialEq, Eq, Structural)]
pub struct Scalar {
    l0: u64,
    l1: u64,
    l2: u64,
    l3: u64,
}

impl View for Scalar {
    type V = nat;

    closed spec fn view(&self) -> nat {
        limbs_value(self.l0, self.l1, self.l2, self.l3)
    }
}

impl Scalar {
    /// A scalar is well formed when its limbs hold a number below the modulus.
    pub open spec fn wf(self) -> bool {
        self@ < scalar_modulus()
    }

    #[verifier::type_invariant]
    pub open spec fn inv(self) -> bool {
        self.wf()
    }

    /// Two scalars with the same value have the same limbs.
    pub proof fn lemma_view_injective(a: Scalar, b: Scalar)
        ensures
            (a@ == b@) <==> (a == b),
    {
        if a@ == b@ {
            let w = 0x1_0000_0000_0000_0000int;
            let a1 = a.l1 as int + w * (a.l2 as int + w * (a.l3 as int));
            let b1 = b.l1 as int + w * (b.l2 as int + w * (b.l3 as int));
            assert(a@ == a.l0 as int + w * a1) by (nonlinear_arith)
                requires
                    w == 0x1_0000_0000_0000_0000int,
                    a1 == a.l1 as int + w * (a.l2 as int + w * (a.l3 as int)),
                    a@ == limbs_value(a.l0, a.l1, a.l2, a.l3),
            ;
            assert(b@ == b.l0 as int + w * b1) by (nonlinear_arith)
                requires
                    w == 0x1_0000_0000_0000_0000int,
                    b1 == b.l1 as int + w * (b.l2 as int + w * (b.l3 as int)),
                    b@ == limbs_value(b.l0, b.l1, b.l2, b.l3),
            ;
            lemma_digit_split(a.l0 as int, a1, b.l0 as int, b1);
            lemma_digit_split(
                a.l1 as int,
                a.l2 as int + w * (a.l3 as int),
                b.l1 as int,
                b.l2 as int + w * (b.l3 as int),
            );
            lemma_digit_split(a.l2 as int, a.l3 as int, b.l2 as int, b.l3 as int);
        }
    }

    /// The scalar with the value of `v`.
    pub fn from_u64(v: u64) -> (s: Scalar)
        ensures
            s@ == v,
    {
        Scalar { l0: v, l1: 0, l2: 0, l3: 0 }
    }

    /// The scalar with the given limbs, least significant first, if they hold
    /// a reduced representative.
    pub fn from_limbs(limbs: [u64; 4]) -> (r: Option<Scalar>)
        ensures
            r is Some <==> limbs_value(limbs[0], limbs[1], limbs[2], limbs[3]) < scalar_modulus(),
            r matches Some(s) ==> s@ == limbs_value(limbs[0], limbs[1], limbs[2], limbs[3]),
    {
        let l0 = limbs[0];
        let l1 = limbs[1];
        let l2 = limbs[2];
        let l3 = limbs[3];
        // Compare with the limbs of the modulus, from the most significant down.
        let below = if l3 != MODULUS_LIMB_3 {
            l3 < MODULUS_LIMB_3
        } else if l2 != MODULUS_LIMB_2 {
            l2 < MODULUS_LIMB_2
        } else if l1 != MODULUS_LIMB_1 {
            l1 < MODULUS_LIMB_1
        } else {
            l0 < MODULUS_LIMB_0
        };
        if below {
            Some(Scalar { l0, l1, l2, l3 })
        } else {
            None
        }
    }

    /// The limbs of the reduced representative, least significant first.
    pub fn to_limbs(&self) -> (limbs: [u64; 4])
        ensures
            limbs_value(limbs[0], limbs[1], limbs[2], limbs[3]) == self@,
    {
        [self.l0, self.l1, self.l2, self.l3]
    }

    /// Whether this is the zero of the field.
    pub fn is_zero(&self) -> (z: bool)
        ensures
            z == (self@ == 0),
    {
        self.l0 == 0 && self.l1 == 0 && self.l2 == 0 && self.l3 == 0
    }
}

impl Scalar {
    /// The sum of two scalars.
    pub fn add(&self, rhs: &Scalar) -> (r: Scalar)
        ensures
            r@ == field_add(self@, rhs@),
    {
        proof {
            use_type_invariant(self);
            use_type_invariant(rhs);
        }
        fr_add(self, rhs)
    }

    /// The difference of two scalars.
    pub fn sub(&self, rhs: &Scalar) -> (r: Scalar)
        ensures
            r@ == field_sub(self@, rhs@),
    {
        proof {
            use_type_invariant(self);
            use_type_invariant(rhs);
        }
        fr_sub(self, rhs)
    }

    /// The product of two scalars.
    pub fn mul(&self, rhs: &Scalar) -> (r: Scalar)
        ensures
            r@ == field_mul(self@, rhs@),
    {
        proof {
            use_type_invariant(self);
            use_type_invariant(rhs);
        }
        fr_mul(self, rhs)
    }

    /// The additive inverse of a scalar.
    pub fn neg(&self) -> (r: Scalar)
        ensures
            r@ == field_neg(self@),
    {
        proof {
            use_type_invariant(self);
        }
        fr_neg(self)
    }

    /// The multiplicative inverse of a scalar; zero has none.
    pub fn inverse(&self) -> (r: Option<Scalar>)
        ensures
            r is Some <==> self@ != 0,
            r matches Some(x) ==> x@ == field_inv(self@) && has_field_inverse(self@),
    {
        proof {
            use_type_invariant(self);
        }
        let r = fr_inverse(self);
        proof {
            if let Some(x) = r {
                use_type_invariant(&x);
                lemma_field_inverse_unique(self@, x@, field_inv(self@));
            }
        }
        r
    }

    /// A scalar drawn from the generator of randomness.
    pub fn random(rng: &mut ThreadRng) -> (r: Scalar)
        ensures
            r.wf(),
    {
        fr_random(rng)
    }

    /// The scalar that a string of bytes, read as a big-endian number, reduces
    /// to.
    pub fn from_be_bytes_mod_order(bytes: &[u8]) -> (r: Scalar)
        ensures
            r@ == be_bytes_value(bytes@) % scalar_modulus(),
    {
        fr_from_be_bytes_mod_order(bytes)
    }
}

/// Calls `+` of `ark_ff::Fp` on two elements of `ark_bls12_381::Fr`. The
/// contract claims that the result is the reduced sum of the two
/// representatives.
#[verifier::external_body]
fn fr_add(a: &Scalar, b: &Scalar) -> (r: Scalar)
    requires
        a.wf(),
        b.wf(),
    ensures
        r@ == (a@ + b@) % scalar_modulus(),
{
    let x = Fr::from_bigint(BigInt::new([a.l0, a.l1, a.l2, a.l3])).unwrap();
    let y = Fr::from_bigint(BigInt::new([b.l0, b.l1, b.l2, b.l3])).unwrap();
    let z = (x + y).into_bigint().0;
    Scalar { l0: z[0], l1: z[1], l2: z[2], l3: z[3] }
}

/// Calls `-` of `ark_ff::Fp` on two elements of `ark_bls12_381::Fr`. The
/// contract claims that the result is the reduced difference of the two
/// representatives.
#[verifier::external_body]
fn fr_sub(a: &Scalar, b: &Scalar) -> (r: Scalar)
    requires
        a.wf(),
        b.wf(),
    ensures
        r@ == (a@ as int - b@ as int) % (scalar_modulus() as int),
{
    let x = Fr::from_bigint(BigInt::new([a.l0, a.l1, a.l2, a.l3])).unwrap();
    let y = Fr::from_bigint(BigInt::new([b.l0, b.l1, b.l2, b.l3])).unwrap();
    let z = (x - y).into_bigint().0;
    Scalar { l0: z[0], l1: z[1], l2: z[2], l3: z[3] }
}

/// Calls `*` of `ark_ff::Fp` on two elements of `ark_bls12_381::Fr`. The
/// contract claims that the result is the reduced product of the two
/// representatives.
#[verifier::external_body]
fn fr_mul(a: &Scalar, b: &Scalar) -> (r: Scalar)
    requires
        a.wf(),
        b.wf(),
    ensures
        r@ == (a@ * b@) % scalar_modulus(),
{
    let x = Fr::from_bigint(BigInt::new([a.l0, a.l1, a.l2, a.l3])).unwrap();
    let y = Fr::from_bigint(BigInt::new([b.l0, b.l1, b.l2, b.l3])).unwrap();
    let z = (x * y).into_bigint().0;
    Scalar { l0: z[0], l1: z[1], l2: z[2], l3: z[3] }
}

/// Calls unary `-` of `ark_ff::Fp` on an element of `ark_bls12_381::Fr`. The
/// contract claims that the result is the reduced negative of the
/// representative.
#[verifier::external_body]
fn fr_neg(a: &Scalar) -> (r: Scalar)
    requires
        a.wf(),
    ensures
        r@ == (-(a@ as int)) % (scalar_modulus() as int),
{
    let x = Fr::from_bigint(BigInt::new([a.l0, a.l1, a.l2, a.l3])).unwrap();
    let z = (-x).into_bigint().0;
    Scalar { l0: z[0], l1: z[1], l2: z[2], l3: z[3] }
}

/// Calls `ark_ff::Field::inverse` on an element of `ark_bls12_381::Fr`. The
/// contract claims that zero, and only zero, has no inverse, and that the
/// product of an element and its inverse reduces to one.
#[verifier::external_body]
fn fr_inverse(a: &Scalar) -> (r: Option<Scalar>)
    requires
        a.wf(),
    ensures
        r is None <==> a@ == 0,
        r matches Some(x) ==> x.wf() && (a@ * x@) % scalar_modulus() == 1,
{
    let x = Fr::from_bigint(BigInt::new([a.l0, a.l1, a.l2, a.l3])).unwrap();
    x.inverse().map(|y| y.into_bigint().0).map(
        |z| Scalar { l0: z[0], l1: z[1], l2: z[2], l3: z[3] },
    )
}

/// Calls `ark_ff::UniformRand::rand` for `ark_bls12_381::Fr`. The contract
/// claims only that the sample is a reduced representative.
#[verifier::external_body]
fn fr_random(rng: &mut ThreadRng) -> (r: Scalar)
    ensures
        r@ < scalar_modulus(),
{
    let z = Fr::rand(rng).into_bigint().0;
    Scalar { l0: z[0], l1: z[1], l2: z[2], l3: z[3] }
}

/// Calls `ark_ff::PrimeField::from_be_bytes_mod_order` for
/// `ark_bls12_381::Fr`. The contract claims that the result is the big-endian
/// number that the bytes spell, reduced modulo the field's order.
#[verifier::external_body]
fn fr_from_be_bytes_mod_order(bytes: &[u8]) -> (r: Scalar)
    ensures
        r@ == be_bytes_value(bytes@) % scalar_modulus(),
{
    let z = Fr::from_be_bytes_mod_order(bytes).into_bigint().0;
    Scalar { l0: z[0], l1: z[1], l2: z[2], l3: z[3] }
}

} // verus!

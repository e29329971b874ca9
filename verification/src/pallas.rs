//! The base field of the Pallas curve as a [`Field`].
//!
//! An element is kept as the 32 little-endian bytes of its residue. The
//! arithmetic itself is done by `halo2_proofs::pasta::Fp`. Nothing is
//! proved of that type: what is assumed of it stands, function by
//! function, on the private functions at the end of this file. Each of
//! them turns the bytes into an `Fp` with `PrimeField::from_repr`, which
//! accepts reduced residues only, and reads the result back with
//! `PrimeField::to_repr`, which gives the residue least significant byte
//! first.

use vstd::prelude::*;
use ff::PrimeField;
use halo2_proofs::pasta::Fp;
use crate::field::{add_mod, mul_mod, neg_mod, sub_mod, Field};

verus! {

/// The number that a little-endian string of bytes denotes.
pub open spec fn le_value(bytes: Seq<u8>) -> nat
    decreases bytes.len(),
{
    if bytes.len() == 0 {
        0
    } else {
        bytes[0] as nat + 256 * le_value(bytes.drop_first())
    }
}

/// The order of the field.
pub open spec fn pallas_base_modulus() -> nat {
    0x40000000000000000000000000000000224698fc094cf91b992d30ed00000001nat
}

/// An element of the Pallas base field.
#[derive(Clone, Copy, Debug, PartialEq, Eq)]
pub struct PallasBase {
    repr: [u8; 32],
}

impl PallasBase {
    /// The stored bytes denote a reduced residue.
    #[verifier::type_invariant]
    spec fn canonical(self) -> bool {
        le_value(self.repr@) < pallas_base_modulus()
    }

    /// The element that stands for `x`.
    pub fn from_u64(x: u64) -> (r: Self)
        ensures
            r.value() == x,
    {
        let repr = fp_from_u64(x);
        PallasBase { repr }
    }

    /// The element whose residue `bytes` denote in little-endian order, if
    /// they denote a reduced residue.
    pub fn from_bytes(bytes: [u8; 32]) -> (r: Option<Self>)
        ensures
            r is Some <==> le_value(bytes@) < pallas_base_modulus(),
            r matches Some(e) ==> e.value() == le_value(bytes@),
    {
        if fp_is_canonical(&bytes) {
            Some(PallasBase { repr: bytes })
        } else {
            None
        }
    }

    /// The residue in little-endian order.
    pub fn to_bytes(&self) -> (bytes: [u8; 32])
        ensures
            le_value(bytes@) == self.value(),
    {
        proof {
            use_type_invariant(self);
        }
        self.repr
    }
}

impl Field for PallasBase {
    open spec fn modulus() -> nat {
        pallas_base_modulus()
    }

    closed spec fn value(&self) -> nat {
        le_value(self.repr@) % pallas_base_modulus()
    }

    proof fn lemma_modulus() {
    }

    proof fn lemma_value(&self) {
    }

    fn zero() -> (r: Self) {
        let repr = fp_zero();
        PallasBase { repr }
    }

    fn one() -> (r: Self) {
        let repr = fp_one();
        PallasBase { repr }
    }

    fn add(&self, rhs: &Self) -> (r: Self) {
        proof {
            use_type_invariant(self);
            use_type_invariant(rhs);
        }
        let repr = fp_add(&self.repr, &rhs.repr);
        PallasBase { repr }
    }

    fn sub(&self, rhs: &Self) -> (r: Self) {
        proof {
            use_type_invariant(self);
            use_type_invariant(rhs);
        }
        let repr = fp_sub(&self.repr, &rhs.repr);
        PallasBase { repr }
    }

    fn mul(&self, rhs: &Self) -> (r: Self) {
        proof {
            use_type_invariant(self);
            use_type_invariant(rhs);
        }
        let repr = fp_mul(&self.repr, &rhs.repr);
        PallasBase { repr }
    }

    fn neg(&self) -> (r: Self) {
        proof {
            use_type_invariant(self);
        }
        let repr = fp_neg(&self.repr);
        PallasBase { repr }
    }

    fn same(&self, rhs: &Self) -> (b: bool) {
        proof {
            use_type_invariant(self);
            use_type_invariant(rhs);
        }
        fp_eq(&self.repr, &rhs.repr)
    }
}

/// Calls `Fp::from` on a `u64`. Assumed: the element stands for `x`
/// itself, so that its bytes denote `x`.
#[verifier::external_body]
fn fp_from_u64(x: u64) -> (r: [u8; 32])
    ensures
        le_value(r@) == x,
{
    Fp::from(x).to_repr()
}

/// Calls `PrimeField::from_repr_vartime` on `Fp`. Assumed: it accepts
/// exactly the byte strings that denote a number below the modulus.
#[verifier::external_body]
fn fp_is_canonical(bytes: &[u8; 32]) -> (b: bool)
    ensures
        b == (le_value(bytes@) < pallas_base_modulus()),
{
    Fp::from_repr_vartime(*bytes).is_some()
}

/// Reads `ff::Field::ZERO` of `Fp`. Assumed: its bytes denote zero.
#[verifier::external_body]
fn fp_zero() -> (r: [u8; 32])
    ensures
        le_value(r@) == 0,
{
    <Fp as ff::Field>::ZERO.to_repr()
}

/// Reads `ff::Field::ONE` of `Fp`. Assumed: its bytes denote one.
#[verifier::external_body]
fn fp_one() -> (r: [u8; 32])
    ensures
        le_value(r@) == 1,
{
    <Fp as ff::Field>::ONE.to_repr()
}

/// Calls `+` on `Fp`. Assumed: the result stands for the sum of the two
/// residues, reduced modulo the order of the field.
#[verifier::external_body]
fn fp_add(a: &[u8; 32], b: &[u8; 32]) -> (r: [u8; 32])
    requires
        le_value(a@) < pallas_base_modulus(),
        le_value(b@) < pallas_base_modulus(),
    ensures
        le_value(r@) == add_mod(le_value(a@), le_value(b@), pallas_base_modulus()),
{
    (Fp::from_repr(*a).unwrap() + Fp::from_repr(*b).unwrap()).to_repr()
}

/// Calls binary `-` on `Fp`. Assumed: the result stands for the
/// difference of the two residues, reduced modulo the order of the field.
#[verifier::external_body]
fn fp_sub(a: &[u8; 32], b: &[u8; 32]) -> (r: [u8; 32])
    requires
        le_value(a@) < pallas_base_modulus(),
        le_value(b@) < pallas_base_modulus(),
    ensures
        le_value(r@) == sub_mod(le_value(a@), le_value(b@), pallas_base_modulus()),
{
    (Fp::from_repr(*a).unwrap() - Fp::from_repr(*b).unwrap()).to_repr()
}

/// Calls `*` on `Fp`. Assumed: the result stands for the product of the
/// two residues, reduced modulo the order of the field.
#[verifier::external_body]
fn fp_mul(a: &[u8; 32], b: &[u8; 32]) -> (r: [u8; 32])
    requires
        le_value(a@) < pallas_base_modulus(),
        le_value(b@) < pallas_base_modulus(),
    ensures
        le_value(r@) == mul_mod(le_value(a@), le_value(b@), pallas_base_modulus()),
{
    (Fp::from_repr(*a).unwrap() * Fp::from_repr(*b).unwrap()).to_repr()
}

/// Calls unary `-` on `Fp`. Assumed: the result stands for the negated
/// residue, reduced modulo the order of the field.
#[verifier::external_body]
fn fp_neg(a: &[u8; 32]) -> (r: [u8; 32])
    requires
        le_value(a@) < pallas_base_modulus(),
    ensures
        le_value(r@) == neg_mod(le_value(a@), pallas_base_modulus()),
{
    (-Fp::from_repr(*a).unwrap()).to_repr()
}

/// Calls `==` on `Fp`. Assumed: two elements are equal exactly where
/// their residues are the same number.
#[verifier::external_body]
fn fp_eq(a: &[u8; 32], b: &[u8; 32]) -> (r: bool)
    requires
        le_value(a@) < pallas_base_modulus(),
        le_value(b@) < pallas_base_modulus(),
    ensures
        r == (le_value(a@) == le_value(b@)),
{
    Fp::from_repr(*a).unwrap() == Fp::from_repr(*b).unwrap()
}

} // verus!

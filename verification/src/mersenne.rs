//! The integers modulo the prime 2^61 - 1 as a [`Field`].
//!
//! The field is small enough for machine arithmetic, so every operation
//! is proved here from its definition.

use vstd::prelude::*;
use crate::field::{add_mod, lemma_residue_nearby, mul_mod, neg_mod, sub_mod, Field};

verus! {

/// 2^61 - 1.
pub const MERSENNE61: u64 = 2305843009213693951;

/// An element of the field of 2^61 - 1 elements.
#[derive(Clone, Copy, Debug, PartialEq, Eq)]
pub struct Mersenne61 {
    residue: u64,
}

impl Mersenne61 {
    /// The residue is reduced.
    #[verifier::type_invariant]
    spec fn reduced(self) -> bool {
        self.residue < MERSENNE61
    }

    /// The element that stands for `x`.
    pub fn from_u64(x: u64) -> (r: Self)
        ensures
            r.value() == x as nat % (MERSENNE61 as nat),
    {
        Mersenne61 { residue: x % MERSENNE61 }
    }

    /// The residue.
    pub fn to_u64(&self) -> (x: u64)
        ensures
            x == self.value(),
    {
        proof {
            use_type_invariant(self);
        }
        self.residue
    }
}

impl Field for Mersenne61 {
    open spec fn modulus() -> nat {
        MERSENNE61 as nat
    }

    closed spec fn value(&self) -> nat {
        self.residue as nat % (MERSENNE61 as nat)
    }

    proof fn lemma_modulus() {
    }

    proof fn lemma_value(&self) {
    }

    fn zero() -> (r: Self) {
        Mersenne61 { residue: 0 }
    }

    fn one() -> (r: Self) {
        Mersenne61 { residue: 1 }
    }

    fn add(&self, rhs: &Self) -> (r: Self) {
        proof {
            use_type_invariant(self);
            use_type_invariant(rhs);
            lemma_residue_nearby(self.residue + rhs.residue, MERSENNE61 as int);
        }
        let sum = self.residue + rhs.residue;
        if sum >= MERSENNE61 {
            Mersenne61 { residue: sum - MERSENNE61 }
        } else {
            Mersenne61 { residue: sum }
        }
    }

    fn sub(&self, rhs: &Self) -> (r: Self) {
        proof {
            use_type_invariant(self);
            use_type_invariant(rhs);
            lemma_residue_nearby(self.residue - rhs.residue, MERSENNE61 as int);
        }
        if self.residue >= rhs.residue {
            Mersenne61 { residue: self.residue - rhs.residue }
        } else {
            Mersenne61 { residue: self.residue + (MERSENNE61 - rhs.residue) }
        }
    }

    fn mul(&self, rhs: &Self) -> (r: Self) {
        proof {
            use_type_invariant(self);
            use_type_invariant(rhs);
            assert(self.residue * rhs.residue <= MERSENNE61 * MERSENNE61) by (nonlinear_arith)
                requires
                    self.residue < MERSENNE61,
                    rhs.residue < MERSENNE61,
            ;
        }
        let product = self.residue as u128 * rhs.residue as u128;
        Mersenne61 { residue: (product % MERSENNE61 as u128) as u64 }
    }

    fn neg(&self) -> (r: Self) {
        proof {
            use_type_invariant(self);
            lemma_residue_nearby(0 - self.residue, MERSENNE61 as int);
        }
        if self.residue == 0 {
            Mersenne61 { residue: 0 }
        } else {
            Mersenne61 { residue: MERSENNE61 - self.residue }
        }
    }

    fn same(&self, rhs: &Self) -> (b: bool) {
        proof {
            use_type_invariant(self);
            use_type_invariant(rhs);
        }
        self.residue == rhs.residue
    }
}

} // verus!

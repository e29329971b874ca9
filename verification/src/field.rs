//! The scalar type over which circuits are written.
//!
//! A circuit needs four operations, two constants and equality from its
//! scalars. Contracts describe an element by the residue it stands for, a
//! natural number below the modulus of the field.

use vstd::prelude::*;

verus! {

/// The residue of `a + b`.
pub open spec fn add_mod(a: nat, b: nat, m: nat) -> nat {
    (a + b) % m
}

/// The residue of `a - b`.
pub open spec fn sub_mod(a: nat, b: nat, m: nat) -> nat {
    ((a - b) % (m as int)) as nat
}

/// The residue of `a * b`.
pub open spec fn mul_mod(a: nat, b: nat, m: nat) -> nat {
    (a * b) % m
}

/// The residue of `-a`.
pub open spec fn neg_mod(a: nat, m: nat) -> nat {
    ((0 - a) % (m as int)) as nat
}

/// An element of the ring of integers modulo `modulus()`.
///
/// Any implementation can stand in for any other: the circuit model, the
/// table and the satisfiability verdict use nothing but what is declared
/// here.
pub trait Field: Sized + Copy {
    /// The number of elements.
    spec fn modulus() -> nat;

    /// The residue that this element stands for.
    spec fn value(&self) -> nat;

    /// Zero and one are different elements.
    proof fn lemma_modulus()
        ensures
            Self::modulus() >= 2,
    ;

    /// Residues are reduced.
    proof fn lemma_value(&self)
        ensures
            self.value() < Self::modulus(),
    ;

    /// The additive identity.
    fn zero() -> (r: Self)
        ensures
            r.value() == 0,
    ;

    /// The multiplicative identity.
    fn one() -> (r: Self)
        ensures
            r.value() == 1,
    ;

    /// The sum.
    fn add(&self, rhs: &Self) -> (r: Self)
        ensures
            r.value() == add_mod(self.value(), rhs.value(), Self::modulus()),
    ;

    /// The difference.
    fn sub(&self, rhs: &Self) -> (r: Self)
        ensures
            r.value() == sub_mod(self.value(), rhs.value(), Self::modulus()),
    ;

    /// The product.
    fn mul(&self, rhs: &Self) -> (r: Self)
        ensures
            r.value() == mul_mod(self.value(), rhs.value(), Self::modulus()),
    ;

    /// The additive inverse.
    fn neg(&self) -> (r: Self)
        ensures
            r.value() == neg_mod(self.value(), Self::modulus()),
    ;

    /// Whether two elements stand for the same residue.
    fn same(&self, rhs: &Self) -> (b: bool)
        ensures
            b == (self.value() == rhs.value()),
    ;
}


/// The residue of a number that lies within one modulus of the range of
/// residues.
pub proof fn lemma_residue_nearby(v: int, m: int)
    requires
        m > 0,
        -m <= v < 2 * m,
    ensures
        v % m == if v < 0 {
            v + m
        } else if v < m {
            v
        } else {
            v - m
        },
{
    if v < 0 {
        vstd::arithmetic::div_mod::lemma_fundamental_div_mod_converse(v, m, -1, v + m);
    } else if v < m {
        vstd::arithmetic::div_mod::lemma_fundamental_div_mod_converse(v, m, 0, v);
    } else {
        vstd::arithmetic::div_mod::lemma_fundamental_div_mod_converse(v, m, 1, v - m);
    }
}

} // verus!

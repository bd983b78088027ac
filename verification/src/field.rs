//! The prime field over which the curve is defined.
//!
//! A [`FieldElement`] keeps the canonical residue as four 64-bit words. The
//! arithmetic itself is done by the `ff_ce` field implementation that
//! `babyjubjub_rs` exports as `Fr`; the functions at the end of this file call
//! it, and their contracts are taken on trust.

use crate::limbs::{limbs_equal, limbs_from_u64, limbs_less_than, limbs_value};
use babyjubjub_rs::Fr;
use ff_ce::{Field, PrimeField, SqrtField};
use poseidon_rs::FrRepr;
use vstd::prelude::*;

verus! {

/// The field's prime modulus.
pub open spec fn modulus() -> nat {
    21888242871839275222246405745257275088548364400416034343698204186575808495617nat
}

/// Whether `a` is the square of some residue.
pub open spec fn is_square(a: nat) -> bool {
    exists|w: nat| w < modulus() && #[trigger] ((w * w) % modulus()) == a
}

/// A residue modulo [`modulus`], always in canonical form.
#[derive(Clone, Copy, Debug, Eq)]
pub struct FieldElement {
    limbs: [u64; 4],
}

impl View for FieldElement {
    type V = nat;

    closed spec fn view(&self) -> nat {
        limbs_value(self.limbs)
    }
}

impl PartialEq for FieldElement {
    fn eq(&self, other: &FieldElement) -> (r: bool) {
        limbs_equal(&self.limbs, &other.limbs)
    }
}

impl vstd::std_specs::cmp::PartialEqSpecImpl for FieldElement {
    open spec fn obeys_eq_spec() -> bool {
        true
    }

    open spec fn eq_spec(&self, other: &FieldElement) -> bool {
        self@ == other@
    }
}

/// The words of the modulus.
fn modulus_limbs() -> (r: [u64; 4])
    ensures
        limbs_value(r) == modulus(),
{
    [0x43e1f593f0000001, 0x2833e84879b97091, 0xb85045b68181585d, 0x30644e72e131a029]
}

impl FieldElement {
    #[verifier::type_invariant]
    closed spec fn canonical(self) -> bool {
        limbs_value(self.limbs) < modulus()
    }

    /// The additive identity.
    pub fn zero() -> (r: FieldElement)
        ensures
            r@ == 0,
    {
        FieldElement { limbs: limbs_from_u64(0) }
    }

    /// The multiplicative identity.
    pub fn one() -> (r: FieldElement)
        ensures
            r@ == 1,
    {
        FieldElement { limbs: limbs_from_u64(1) }
    }

    /// The element that a 64-bit number stands for.
    pub fn from_u64(v: u64) -> (r: FieldElement)
        ensures
            r@ == v,
    {
        FieldElement { limbs: limbs_from_u64(v) }
    }

    /// The element with the given little-endian words, if they are a canonical
    /// residue.
    pub fn from_limbs(limbs: [u64; 4]) -> (r: Option<FieldElement>)
        ensures
            r is Some <==> limbs_value(limbs) < modulus(),
            r matches Some(e) ==> e@ == limbs_value(limbs),
    {
        let m = modulus_limbs();
        if limbs_less_than(&limbs, &m) {
            Some(FieldElement { limbs })
        } else {
            None
        }
    }

    /// The element with the given little-endian words, which are known to be a
    /// canonical residue.
    pub(crate) fn from_canonical_limbs(limbs: [u64; 4]) -> (r: FieldElement)
        requires
            limbs_value(limbs) < modulus(),
        ensures
            r@ == limbs_value(limbs),
    {
        FieldElement { limbs }
    }

    /// The canonical residue as little-endian words.
    pub fn to_limbs(&self) -> (r: [u64; 4])
        ensures
            limbs_value(r) == self@,
            self@ < modulus(),
    {
        proof {
            use_type_invariant(self);
        }
        self.limbs
    }

    /// Whether this element's canonical residue is the smaller one.
    pub fn less_than(&self, other: &FieldElement) -> (r: bool)
        ensures
            r == (self@ < other@),
    {
        limbs_less_than(&self.limbs, &other.limbs)
    }

    /// The sum of two elements.
    pub fn add(&self, rhs: &FieldElement) -> (r: FieldElement)
        ensures
            r@ == (self@ + rhs@) % modulus(),
    {
        proof {
            use_type_invariant(self);
            use_type_invariant(rhs);
        }
        FieldElement { limbs: fr_add(&self.limbs, &rhs.limbs) }
    }

    /// The difference of two elements.
    pub fn sub(&self, rhs: &FieldElement) -> (r: FieldElement)
        ensures
            r@ == (self@ - rhs@) % (modulus() as int),
    {
        proof {
            use_type_invariant(self);
            use_type_invariant(rhs);
        }
        FieldElement { limbs: fr_sub(&self.limbs, &rhs.limbs) }
    }

    /// The product of two elements.
    pub fn mul(&self, rhs: &FieldElement) -> (r: FieldElement)
        ensures
            r@ == (self@ * rhs@) % modulus(),
    {
        proof {
            use_type_invariant(self);
            use_type_invariant(rhs);
        }
        FieldElement { limbs: fr_mul(&self.limbs, &rhs.limbs) }
    }

    /// The square of an element.
    pub fn square(&self) -> (r: FieldElement)
        ensures
            r@ == (self@ * self@) % modulus(),
    {
        proof {
            use_type_invariant(self);
        }
        FieldElement { limbs: fr_square(&self.limbs) }
    }

    /// The multiplicative inverse, which every element but zero has.
    pub fn inverse(&self) -> (r: Option<FieldElement>)
        ensures
            r is None <==> self@ == 0,
            r matches Some(w) ==> w@ < modulus() && (self@ * w@) % modulus() == 1,
    {
        proof {
            use_type_invariant(self);
        }
        match fr_inverse(&self.limbs) {
            Some(limbs) => Some(FieldElement { limbs }),
            None => None,
        }
    }

    /// A square root, where the element is a square: one of the two, for a
    /// square other than zero.
    pub fn sqrt(&self) -> (r: Option<FieldElement>)
        ensures
            r is Some <==> is_square(self@),
            r matches Some(w) ==> w@ < modulus() && (w@ * w@) % modulus() == self@,
    {
        proof {
            use_type_invariant(self);
        }
        match fr_sqrt(&self.limbs) {
            Some(limbs) => {
                assert(is_square(self@)) by {
                    let w = limbs_value(limbs);
                    assert((w * w) % modulus() == self@);
                }
                Some(FieldElement { limbs })
            },
            None => None,
        }
    }
}

/// `Fr::add_assign` on two canonical residues: the canonical residue of their
/// sum.
#[verifier::external_body]
fn fr_add(a: &[u64; 4], b: &[u64; 4]) -> (r: [u64; 4])
    requires
        limbs_value(*a) < modulus(),
        limbs_value(*b) < modulus(),
    ensures
        limbs_value(r) == (limbs_value(*a) + limbs_value(*b)) % modulus(),
{
    let mut x = Fr::from_repr(FrRepr(*a)).unwrap();
    x.add_assign(&Fr::from_repr(FrRepr(*b)).unwrap());
    x.into_repr().0
}

/// `Fr::sub_assign` on two canonical residues: the canonical residue of their
/// difference.
#[verifier::external_body]
fn fr_sub(a: &[u64; 4], b: &[u64; 4]) -> (r: [u64; 4])
    requires
        limbs_value(*a) < modulus(),
        limbs_value(*b) < modulus(),
    ensures
        limbs_value(r) == (limbs_value(*a) - limbs_value(*b)) % (modulus() as int),
{
    let mut x = Fr::from_repr(FrRepr(*a)).unwrap();
    x.sub_assign(&Fr::from_repr(FrRepr(*b)).unwrap());
    x.into_repr().0
}

/// `Fr::mul_assign` on two canonical residues: the canonical residue of their
/// product.
#[verifier::external_body]
fn fr_mul(a: &[u64; 4], b: &[u64; 4]) -> (r: [u64; 4])
    requires
        limbs_value(*a) < modulus(),
        limbs_value(*b) < modulus(),
    ensures
        limbs_value(r) == (limbs_value(*a) * limbs_value(*b)) % modulus(),
{
    let mut x = Fr::from_repr(FrRepr(*a)).unwrap();
    x.mul_assign(&Fr::from_repr(FrRepr(*b)).unwrap());
    x.into_repr().0
}

/// `Fr::square` on a canonical residue: the canonical residue of its square.
#[verifier::external_body]
fn fr_square(a: &[u64; 4]) -> (r: [u64; 4])
    requires
        limbs_value(*a) < modulus(),
    ensures
        limbs_value(r) == (limbs_value(*a) * limbs_value(*a)) % modulus(),
{
    let mut x = Fr::from_repr(FrRepr(*a)).unwrap();
    x.square();
    x.into_repr().0
}

/// `Fr::inverse` on a canonical residue: nothing for zero, and for any other
/// residue the canonical residue whose product with it is one.
#[verifier::external_body]
fn fr_inverse(a: &[u64; 4]) -> (r: Option<[u64; 4]>)
    requires
        limbs_value(*a) < modulus(),
    ensures
        r is None <==> limbs_value(*a) == 0,
        r matches Some(w) ==> limbs_value(w) < modulus() && (limbs_value(*a) * limbs_value(w))
            % modulus() == 1,
{
    Fr::from_repr(FrRepr(*a)).unwrap().inverse().map(|w| w.into_repr().0)
}

/// `Fr::sqrt` on a canonical residue: a canonical residue whose square is the
/// argument, and nothing exactly where no residue has that square.
#[verifier::external_body]
fn fr_sqrt(a: &[u64; 4]) -> (r: Option<[u64; 4]>)
    requires
        limbs_value(*a) < modulus(),
    ensures
        r is None <==> !is_square(limbs_value(*a)),
        r matches Some(w) ==> limbs_value(w) < modulus() && (limbs_value(w) * limbs_value(w))
            % modulus() == limbs_value(*a),
{
    Fr::from_repr(FrRepr(*a)).unwrap().sqrt().map(|w| w.into_repr().0)
}

} // verus!

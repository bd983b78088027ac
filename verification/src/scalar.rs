//! The integers that points are multiplied by.

use crate::field::FieldElement;
use crate::limbs::{limbs_from_u64, limbs_value};
use vstd::prelude::*;

verus! {

/// The order of the curve's large prime subgroup.
pub open spec fn prime_subgroup_order() -> nat {
    2736030358979909402780800718157159386076813972158567259200215660948447373041nat
}

/// A non-negative integer below 2^256, as four little-endian 64-bit words.
#[derive(Clone, Copy, Debug, PartialEq, Eq)]
pub struct Scalar {
    pub limbs: [u64; 4],
}

impl View for Scalar {
    type V = nat;

    open spec fn view(&self) -> nat {
        limbs_value(self.limbs)
    }
}

impl Scalar {
    /// The scalar that a 64-bit number stands for.
    pub fn from_u64(v: u64) -> (r: Scalar)
        ensures
            r@ == v,
    {
        Scalar { limbs: limbs_from_u64(v) }
    }

    /// The scalar with the given little-endian words.
    pub fn from_limbs(limbs: [u64; 4]) -> (r: Scalar)
        ensures
            r@ == limbs_value(limbs),
    {
        Scalar { limbs }
    }

    /// The canonical residue of a field element, as an integer.
    pub fn from_field(e: &FieldElement) -> (r: Scalar)
        ensures
            r@ == e@,
    {
        Scalar { limbs: e.to_limbs() }
    }

    /// The order of the curve's large prime subgroup.
    pub fn subgroup_order() -> (r: Scalar)
        ensures
            r@ == prime_subgroup_order(),
    {
        Scalar {
            limbs: [0x677297dc392126f1, 0xab3eedb83920ee0a, 0x370a08b6d0302b0b, 0x060c89ce5c263405],
        }
    }
}

} // verus!

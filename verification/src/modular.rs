//! Congruences modulo the field's prime.

use crate::field::modulus;
use vstd::arithmetic::div_mod::{
    lemma_add_mod_noop, lemma_mod_twice, lemma_mul_mod_noop_general, lemma_small_mod,
    lemma_sub_mod_noop,
};
use vstd::prelude::*;

verus! {

/// Whether two integers leave the same residue.
pub open spec fn congruent(a: int, b: int) -> bool {
    a % (modulus() as int) == b % (modulus() as int)
}

/// A residue is congruent to the number it was reduced from.
pub proof fn lemma_residue_congruent(a: int)
    ensures
        congruent(a % (modulus() as int), a),
        congruent(a, a % (modulus() as int)),
        0 <= a % (modulus() as int) < modulus(),
{
    lemma_mod_twice(a, modulus() as int);
}

/// Congruent numbers below the modulus are equal.
pub proof fn lemma_congruent_canonical(a: int, b: int)
    requires
        congruent(a, b),
        0 <= a < modulus(),
        0 <= b < modulus(),
    ensures
        a == b,
{
    lemma_small_mod(a as nat, modulus());
    lemma_small_mod(b as nat, modulus());
}

/// Sums of congruent numbers are congruent.
pub proof fn lemma_congruent_add(a: int, b: int, c: int, d: int)
    requires
        congruent(a, b),
        congruent(c, d),
    ensures
        congruent(a + c, b + d),
{
    lemma_add_mod_noop(a, c, modulus() as int);
    lemma_add_mod_noop(b, d, modulus() as int);
}

/// Differences of congruent numbers are congruent.
pub proof fn lemma_congruent_sub(a: int, b: int, c: int, d: int)
    requires
        congruent(a, b),
        congruent(c, d),
    ensures
        congruent(a - c, b - d),
{
    lemma_sub_mod_noop(a, c, modulus() as int);
    lemma_sub_mod_noop(b, d, modulus() as int);
}

/// Products of congruent numbers are congruent.
pub proof fn lemma_congruent_mul(a: int, b: int, c: int, d: int)
    requires
        congruent(a, b),
        congruent(c, d),
    ensures
        congruent(a * c, b * d),
{
    lemma_mul_mod_noop_general(a, c, modulus() as int);
    lemma_mul_mod_noop_general(b, d, modulus() as int);
}

} // verus!

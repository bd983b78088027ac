//! The search for points of small order by rejection sampling.

use crate::field::{modulus, FieldElement};
use crate::modular::{lemma_congruent_mul, lemma_residue_congruent};
use crate::point::{from_x, is_identity_point, on_curve, CurvePoint};
use crate::scalar::prime_subgroup_order;
use crate::subgroup::{
    compute_r, enumerate_small_subgroup, in_small_subgroup, is_on_small_subgroup, multiple,
    multiples_up_to,
};
use crate::subgroup_set::{strictly_ascending, SmallSubgroupSet};
use rand_core::{OsRng, RngCore};
use vstd::prelude::*;

verus! {

/// Why a search ended without a result.
#[derive(Clone, Copy, Debug, PartialEq, Eq, Structural)]
pub enum SearchError {
    /// The allowed number of attempts was used up.
    Exhausted,
    /// The system's random source gave nothing.
    EntropyUnavailable,
}

/// Whether `r` is the multiple, by the order of the prime subgroup, of some
/// point of the curve, and not the neutral element.
pub open spec fn is_cofactor_projection(r: (nat, nat)) -> bool {
    &&& !is_identity_point(r.0, r.1)
    &&& exists|x: nat, y: nat|
        on_curve(x, y) && r == #[trigger] multiple((x, y), prime_subgroup_order())
}

/// Whether `found` is what a search may return: the multiples, in ascending
/// order, of a projection of small order.
pub open spec fn is_small_subgroup_found(found: Seq<(nat, nat)>) -> bool {
    &&& strictly_ascending(found)
    &&& exists|seed: (nat, nat)|
        is_cofactor_projection(seed) && in_small_subgroup(seed) && found.to_set()
            == #[trigger] multiples_up_to(seed, 8)
}

/// The residue of the product of four 64-bit words.
pub open spec fn words_residue(words: [u64; 4]) -> nat {
    ((words[0] as nat) * (words[1] as nat) * (words[2] as nat) * (words[3] as nat)) % modulus()
}

/// The element that four 64-bit words stand for: their product, reduced.
pub fn field_element_from_words(words: [u64; 4]) -> (r: FieldElement)
    ensures
        r@ == words_residue(words),
{
    let w0 = FieldElement::from_u64(words[0]);
    let w1 = FieldElement::from_u64(words[1]);
    let w2 = FieldElement::from_u64(words[2]);
    let w3 = FieldElement::from_u64(words[3]);
    let first_two = w0.mul(&w1);
    let first_three = first_two.mul(&w2);
    let all_four = first_three.mul(&w3);
    proof {
        let (a, b, c, d) = (words[0] as int, words[1] as int, words[2] as int, words[3] as int);
        lemma_residue_congruent(a * b);
        lemma_congruent_mul(first_two@ as int, a * b, c, c);
        lemma_residue_congruent(first_two@ * c);
        lemma_congruent_mul(first_three@ as int, a * b * c, d, d);
        lemma_residue_congruent(first_three@ * d);
        lemma_residue_congruent(a * b * c * d);
    }
    all_four
}

/// The point whose `x` is the product of four 64-bit words, if the curve has
/// one.
pub fn point_from_words(words: [u64; 4]) -> (r: Option<CurvePoint>)
    ensures
        r is Some <==> exists|y: nat| y < modulus() && #[trigger] on_curve(words_residue(words), y),
        r matches Some(p) ==> on_curve(p.x@, p.y@) && p.x@ == words_residue(words),
{
    from_x(field_element_from_words(words))
}

/// The set of the multiples of the point of small order that `p` projects to,
/// if it projects to one other than the neutral element.
pub fn small_subgroup_from(p: &CurvePoint) -> (r: Option<SmallSubgroupSet>)
    requires
        on_curve(p.x@, p.y@),
    ensures
        r is Some <==> {
            let q = multiple(p@, prime_subgroup_order());
            !is_identity_point(q.0, q.1) && in_small_subgroup(q)
        },
        r matches Some(found) ==> found@.to_set() == multiples_up_to(
            multiple(p@, prime_subgroup_order()),
            8,
        ) && strictly_ascending(found@),
{
    match compute_r(p) {
        Some(seed) => {
            if is_on_small_subgroup(&seed) {
                Some(enumerate_small_subgroup(&seed))
            } else {
                None
            }
        },
        None => None,
    }
}

/// Four words from the system's random source.
fn random_words() -> (r: Option<[u64; 4]>) {
    let first = os_random_word();
    let second = os_random_word();
    let third = os_random_word();
    words_from_draws([first, second, third, os_random_word()])
}

/// The four words that four draws gave, in their order, unless a draw gave
/// nothing.
pub fn words_from_draws(draws: [Option<u64>; 4]) -> (r: Option<[u64; 4]>)
    ensures
        r is Some <==> forall|i: int| 0 <= i < 4 ==> (#[trigger] draws[i]) is Some,
        r matches Some(words) ==> forall|i: int|
            0 <= i < 4 ==> #[trigger] draws[i] == Some(words[i]),
{
    match (draws[0], draws[1], draws[2], draws[3]) {
        (Some(a), Some(b), Some(c), Some(d)) => Some([a, b, c, d]),
        _ => None,
    }
}

/// A point of the curve at a random `x`. Each attempt draws an `x`; about
/// half of all `x` have a point.
pub fn random_point(max_attempts: u64) -> (r: Result<CurvePoint, SearchError>)
    ensures
        r matches Ok(p) ==> on_curve(p.x@, p.y@),
        max_attempts == 0 ==> r == Err::<CurvePoint, SearchError>(SearchError::Exhausted),
{
    let mut attempts: u64 = 0;
    while attempts < max_attempts
        invariant
            attempts <= max_attempts,
        decreases max_attempts - attempts,
    {
        match random_words() {
            Some(words) => {
                if let Some(p) = point_from_words(words) {
                    return Ok(p);
                }
            },
            None => {
                return Err(SearchError::EntropyUnavailable);
            },
        }
        attempts += 1;
    }
    Err(SearchError::Exhausted)
}

/// A point of small order other than the neutral element: the projection of
/// a random point of the curve.
pub fn random_small(max_attempts: u64) -> (r: Result<CurvePoint, SearchError>)
    ensures
        r matches Ok(s) ==> is_cofactor_projection(s@),
        max_attempts == 0 ==> r == Err::<CurvePoint, SearchError>(SearchError::Exhausted),
{
    let mut attempts: u64 = 0;
    while attempts < max_attempts
        invariant
            attempts <= max_attempts,
        decreases max_attempts - attempts,
    {
        match random_point(max_attempts) {
            Ok(p) => {
                if let Some(s) = compute_r(&p) {
                    assert(s@ == multiple((p.x@, p.y@), prime_subgroup_order()));
                    return Ok(s);
                }
            },
            Err(e) => {
                return Err(e);
            },
        }
        attempts += 1;
    }
    Err(SearchError::Exhausted)
}

/// The points of a small subgroup: the multiples of the first random
/// projection that passes the small-order test.
pub fn find_small_subgroup_points(max_attempts: u64) -> (r: Result<SmallSubgroupSet, SearchError>)
    ensures
        r matches Ok(found) ==> is_small_subgroup_found(found@),
        max_attempts == 0 ==> r matches Err(SearchError::Exhausted),
{
    let mut attempts: u64 = 0;
    while attempts < max_attempts
        invariant
            attempts <= max_attempts,
        decreases max_attempts - attempts,
    {
        match random_point(max_attempts) {
            Ok(p) => {
                if let Some(found) = small_subgroup_from(&p) {
                    proof {
                        let seed = multiple(p@, prime_subgroup_order());
                        assert(seed == multiple((p.x@, p.y@), prime_subgroup_order()));
                        assert(is_cofactor_projection(seed));
                        assert(found@.to_set() == multiples_up_to(seed, 8));
                    }
                    return Ok(found);
                }
            },
            Err(e) => {
                return Err(e);
            },
        }
        attempts += 1;
    }
    Err(SearchError::Exhausted)
}

/// Eight bytes from `OsRng::try_fill_bytes`, read as a little-endian word as
/// `OsRng::next_u64` reads them; nothing where the system's source fails.
#[verifier::external_body]
fn os_random_word() -> (r: Option<u64>) {
    let mut bytes = [0u8; 8];
    match OsRng.try_fill_bytes(&mut bytes) {
        Ok(()) => Some(u64::from_le_bytes(bytes)),
        Err(_) => None,
    }
}

} // verus!

//! The subgroup of points whose order divides the cofactor.

use crate::point::{is_identity, is_identity_point, on_curve, scalar_multiple, CurvePoint};
use crate::scalar::{prime_subgroup_order, Scalar};
use crate::subgroup_set::{
    lemma_ascending_is_duplicate_free, strictly_ascending, SmallSubgroupSet,
};
use vstd::prelude::*;

verus! {

/// The multiple of the point `p` by `k`.
pub open spec fn multiple(p: (nat, nat), k: nat) -> (nat, nat) {
    scalar_multiple(p.0, p.1, k)
}

/// Whether the double, the fourfold or the eightfold of `p` is the neutral
/// element.
pub open spec fn in_small_subgroup(p: (nat, nat)) -> bool {
    ||| is_identity_point(multiple(p, 2).0, multiple(p, 2).1)
    ||| is_identity_point(multiple(p, 4).0, multiple(p, 4).1)
    ||| is_identity_point(multiple(p, 8).0, multiple(p, 8).1)
}

/// The multiples of `p` by `1` to `n`.
pub open spec fn multiples_up_to(p: (nat, nat), n: nat) -> Set<(nat, nat)> {
    Set::new(|q: (nat, nat)| exists|i: nat| 1 <= i <= n && q == #[trigger] multiple(p, i))
}

/// The multiple of `p` by the order of the prime subgroup, unless that is the
/// neutral element. In a group of eight times that order, the multiple has an
/// order that divides eight.
pub fn compute_r(p: &CurvePoint) -> (r: Option<CurvePoint>)
    requires
        on_curve(p.x@, p.y@),
    ensures
        r is None <==> is_identity_point(
            multiple(p@, prime_subgroup_order()).0,
            multiple(p@, prime_subgroup_order()).1,
        ),
        r matches Some(q) ==> q@ == multiple(p@, prime_subgroup_order()),
        is_identity_point(p.x@, p.y@) ==> r is None,
{
    p.mul_scalar(&Scalar::subgroup_order()).nonidentity()
}

/// Whether the order of `p` divides the cofactor: whether `2p`, `4p` or `8p`
/// is the neutral element. The neutral element itself passes.
pub fn is_on_small_subgroup(p: &CurvePoint) -> (r: bool)
    ensures
        r == in_small_subgroup(p@),
        is_identity_point(p.x@, p.y@) ==> r,
{
    let double = p.mul_scalar(&Scalar::from_u64(2));
    let fourfold = p.mul_scalar(&Scalar::from_u64(4));
    let eightfold = p.mul_scalar(&Scalar::from_u64(8));
    is_identity(&double) || is_identity(&fourfold) || is_identity(&eightfold)
}

/// The multiples of `seed` by `1` to `8`, each once.
pub fn enumerate_small_subgroup(seed: &CurvePoint) -> (r: SmallSubgroupSet)
    ensures
        r@.to_set() == multiples_up_to(seed@, 8),
        strictly_ascending(r@),
        1 <= r@.len() <= 8,
{
    let mut found = SmallSubgroupSet::new();
    let mut i: u64 = 1;
    assert(found@.to_set() =~= multiples_up_to(seed@, 0));
    while i <= 8
        invariant
            1 <= i <= 9,
            found@.to_set() == multiples_up_to(seed@, (i - 1) as nat),
            strictly_ascending(found@),
            found@.len() <= i - 1,
            i > 1 ==> found@.len() >= 1,
        decreases 9 - i,
    {
        let q = seed.mul_scalar(&Scalar::from_u64(i));
        let ghost before = found@.to_set();
        found.insert(q);
        assert(before.insert(q@) =~= multiples_up_to(seed@, i as nat)) by {
            assert(q@ == multiple(seed@, i as nat));
        }
        i += 1;
    }
    found
}

/// Whether the multiples of `p` repeat with the period `k` and no shorter
/// one: `i·p` and `j·p` are the same point exactly where `i` and `j` leave the
/// same remainder. In a group that is what it means for `p` to have the order
/// `k`.
pub open spec fn has_order(p: (nat, nat), k: nat) -> bool {
    forall|i: nat, j: nat|
        1 <= i <= 8 && 1 <= j <= 8 ==> ((#[trigger] multiple(p, i) == #[trigger] multiple(p, j))
            <==> i % k == j % k)
}

/// The index between `1` and `k` that leaves the same remainder as `i`.
pub open spec fn wrapped_index(i: nat, k: nat) -> nat {
    if i % k == 0 {
        k
    } else {
        i % k
    }
}

/// The first `n` multiples of a point of order `k` are `n` different points,
/// as long as `n` is not more than `k`.
proof fn lemma_first_multiples_differ(p: (nat, nat), k: nat, n: nat)
    requires
        k == 1 || k == 2 || k == 4 || k == 8,
        has_order(p, k),
        n <= k,
    ensures
        multiples_up_to(p, n).finite(),
        multiples_up_to(p, n).len() == n,
    decreases n,
{
    if n == 0 {
        assert(multiples_up_to(p, 0) =~= Set::<(nat, nat)>::empty());
    } else {
        let fewer = multiples_up_to(p, (n - 1) as nat);
        lemma_first_multiples_differ(p, k, (n - 1) as nat);
        assert(multiples_up_to(p, n) =~= fewer.insert(multiple(p, n)));
        if fewer.contains(multiple(p, n)) {
            let i = choose|i: nat| 1 <= i <= n - 1 && multiple(p, n) == #[trigger] multiple(p, i);
            assert(i % k != n % k);
            assert(multiple(p, i) != multiple(p, n));
        }
    }
}

/// The points that the enumeration from a seed of order `k` yields are `k` in
/// number, and they are the multiples of the seed by `1` to `k`: a further
/// multiple is the one at the wrapped index.
pub proof fn lemma_enumeration_of_order(seed: (nat, nat), k: nat, found: Seq<(nat, nat)>)
    requires
        k == 1 || k == 2 || k == 4 || k == 8,
        has_order(seed, k),
        strictly_ascending(found),
        found.to_set() == multiples_up_to(seed, 8),
    ensures
        found.len() == k,
        found.to_set() == multiples_up_to(seed, k),
        forall|i: nat|
            1 <= i <= 8 ==> #[trigger] multiple(seed, i) == multiple(seed, wrapped_index(i, k))
                && found.contains(multiple(seed, i)),
{
    assert forall|i: nat| 1 <= i <= 8 implies #[trigger] multiple(seed, i) == multiple(
        seed,
        wrapped_index(i, k),
    ) && found.contains(multiple(seed, i)) by {
        let j = wrapped_index(i, k);
        assert(1 <= j <= k && j % k == i % k);
        assert(multiples_up_to(seed, 8).contains(multiple(seed, i)));
    }
    assert(multiples_up_to(seed, 8) =~= multiples_up_to(seed, k)) by {
        assert forall|q: (nat, nat)| multiples_up_to(seed, 8).contains(q) implies multiples_up_to(
            seed,
            k,
        ).contains(q) by {
            let i = choose|i: nat| 1 <= i <= 8 && q == #[trigger] multiple(seed, i);
            let j = wrapped_index(i, k);
            assert(1 <= j <= k && j % k == i % k);
            assert(q == multiple(seed, j));
        }
    }
    lemma_first_multiples_differ(seed, k, k);
    lemma_ascending_is_duplicate_free(found);
}

} // verus!

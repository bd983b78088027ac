//! The confinement of an EdDSA-style verifier to the small subgroup: forged
//! signatures `(R, 0)` with `R` of small order, and the verifier's verdict on
//! each.

use crate::field::{modulus, FieldElement};
use crate::limbs::limbs_value;
use crate::point::{is_identity, is_identity_point, point_sum, CurvePoint};
use crate::scalar::Scalar;
use crate::search::{find_small_subgroup_points, is_small_subgroup_found, SearchError};
use crate::subgroup::{in_small_subgroup, is_on_small_subgroup, multiple};
use crate::subgroup_set::SmallSubgroupSet;
use babyjubjub_rs::{Fr, Point, Signature};
use ff_ce::PrimeField;
use num_bigint::{BigInt, Sign};
use poseidon_rs::{FrRepr, Poseidon};
use vstd::prelude::*;

verus! {

/// The Poseidon hash of five field elements, as `poseidon_rs::Poseidon::hash`
/// computes it.
pub uninterp spec fn poseidon_digest(a: nat, b: nat, c: nat, d: nat, e: nat) -> nat;

/// The generator of the prime subgroup that signatures are made with.
pub open spec fn base_point() -> (nat, nat) {
    (
        5299619240641551281634865583518297030282874472190772894086521144482721001553nat,
        16950150798460657717958625567821834550301663161624707787222815936182638968203nat,
    )
}

/// The verifier's equation `s·B = R + (8·H(R, A, m))·A` for the public key
/// `a`, the signature `(r, s)` and the message `m`.
pub open spec fn eddsa_accepts(a: (nat, nat), r: (nat, nat), s: nat, m: nat) -> bool {
    let ka = multiple(a, 8 * challenge_of(r, a, m));
    multiple(base_point(), s) == point_sum(r.0, r.1, ka.0, ka.1)
}

/// A signature `(R, s)`. The forged ones have `s = 0`.
#[derive(Clone, Copy, Debug, PartialEq, Eq)]
pub struct ForgedSignature {
    pub r: CurvePoint,
    pub s: Scalar,
}

/// The verifier that a forgery is tried on.
#[derive(Clone, Copy, Debug, PartialEq, Eq, Structural)]
pub enum Verifier {
    /// The verifier as it is.
    Unguarded,
    /// The verifier behind a test that turns away every `R` whose order
    /// divides the cofactor.
    RejectingSmallOrder,
}

/// What one candidate `R` led to.
#[derive(Clone, Copy, Debug, PartialEq, Eq)]
pub struct Probe {
    /// The forged signature `(R, 0)`.
    pub signature: ForgedSignature,
    /// The verifier's verdict on it.
    pub accepted: bool,
    /// The point `R + H(R, A, m)·A`.
    pub cross_check: CurvePoint,
}

/// The challenge `H(R, A, m)`.
pub open spec fn challenge_of(r: (nat, nat), a: (nat, nat), m: nat) -> nat {
    poseidon_digest(r.0, r.1, a.0, a.1, m)
}

/// The point `R + H(R, A, m)·A`.
pub open spec fn cross_check_of(r: (nat, nat), a: (nat, nat), m: nat) -> (nat, nat) {
    let ka = multiple(a, challenge_of(r, a, m));
    point_sum(r.0, r.1, ka.0, ka.1)
}

/// Whether the verifier accepts `(R, s)` for the key `A` and the message `m`.
pub open spec fn verdict_of(verifier: Verifier, a: (nat, nat), r: (nat, nat), s: nat, m: nat) -> bool {
    match verifier {
        Verifier::Unguarded => eddsa_accepts(a, r, s, m),
        Verifier::RejectingSmallOrder => !in_small_subgroup(r) && eddsa_accepts(a, r, s, m),
    }
}

/// Whether `probe` is what the candidate `r` leads to.
pub open spec fn is_probe_of(
    probe: Probe,
    verifier: Verifier,
    a: (nat, nat),
    m: nat,
    r: (nat, nat),
) -> bool {
    &&& probe.signature.r@ == r
    &&& probe.signature.s@ == 0
    &&& probe.accepted == verdict_of(verifier, a, r, 0, m)
    &&& probe.cross_check@ == cross_check_of(r, a, m)
}

/// Whether `probes` are what the candidates lead to, one for one.
pub open spec fn are_probes_of(
    probes: Seq<Probe>,
    verifier: Verifier,
    a: (nat, nat),
    m: nat,
    candidates: Seq<(nat, nat)>,
) -> bool {
    &&& probes.len() == candidates.len()
    &&& forall|i: int|
        0 <= i < probes.len() ==> is_probe_of(#[trigger] probes[i], verifier, a, m, candidates[i])
}

/// The probes that the verifier accepted, in their order.
pub open spec fn accepted_probes(probes: Seq<Probe>) -> Seq<Probe> {
    probes.filter(|p: Probe| p.accepted)
}

impl Probe {
    /// Whether the cross-check point is the neutral element: the sign that an
    /// accepted forgery is due to confinement to the small subgroup.
    pub fn shows_confinement(&self) -> (r: bool)
        ensures
            r == is_identity_point(self.cross_check.x@, self.cross_check.y@),
    {
        is_identity(&self.cross_check)
    }
}

/// The forged signature `(R, 0)`.
pub fn forge(r: CurvePoint) -> (signature: ForgedSignature)
    ensures
        signature.r == r,
        signature.s@ == 0,
{
    ForgedSignature { r, s: Scalar::from_u64(0) }
}

/// The challenge `H(R, A, m)`.
pub fn challenge(r: &CurvePoint, public_key: &CurvePoint, message: &FieldElement) -> (k:
    FieldElement)
    ensures
        k@ == challenge_of(r@, public_key@, message@),
{
    FieldElement::from_canonical_limbs(
        poseidon_hash(
            &r.x.to_limbs(),
            &r.y.to_limbs(),
            &public_key.x.to_limbs(),
            &public_key.y.to_limbs(),
            &message.to_limbs(),
        ),
    )
}

/// The point `R + H(R, A, m)·A`.
pub fn cross_check(r: &CurvePoint, public_key: &CurvePoint, message: &FieldElement) -> (rhs:
    CurvePoint)
    ensures
        rhs@ == cross_check_of(r@, public_key@, message@),
{
    let k = challenge(r, public_key, message);
    let ka = public_key.mul_scalar(&Scalar::from_field(&k));
    r.add(&ka)
}

/// The verifier's verdict on a signature.
pub fn verify(
    verifier: Verifier,
    public_key: &CurvePoint,
    signature: &ForgedSignature,
    message: &FieldElement,
) -> (accepted: bool)
    ensures
        accepted == verdict_of(verifier, public_key@, signature.r@, signature.s@, message@),
{
    let accepted = eddsa_verify(
        &public_key.x.to_limbs(),
        &public_key.y.to_limbs(),
        &signature.r.x.to_limbs(),
        &signature.r.y.to_limbs(),
        &signature.s.limbs,
        &message.to_limbs(),
    );
    match verifier {
        Verifier::Unguarded => accepted,
        Verifier::RejectingSmallOrder => !is_on_small_subgroup(&signature.r) && accepted,
    }
}

/// Forges `(R, 0)` for the candidate `R` and asks the verifier.
pub fn probe_candidate(
    verifier: Verifier,
    public_key: &CurvePoint,
    message: &FieldElement,
    candidate: CurvePoint,
) -> (probe: Probe)
    ensures
        is_probe_of(probe, verifier, public_key@, message@, candidate@),
        probe.signature.r == candidate,
{
    let signature = forge(candidate);
    let rhs = cross_check(&candidate, public_key, message);
    let accepted = verify(verifier, public_key, &signature, message);
    Probe { signature, accepted, cross_check: rhs }
}

/// Probes every candidate of the set, in the set's order.
pub fn probe_candidates(
    verifier: Verifier,
    public_key: &CurvePoint,
    message: &FieldElement,
    candidates: &SmallSubgroupSet,
) -> (probes: Vec<Probe>)
    ensures
        are_probes_of(probes@, verifier, public_key@, message@, candidates@),
{
    let points = candidates.to_vec();
    let mut probes: Vec<Probe> = Vec::new();
    let mut i: usize = 0;
    while i < points.len()
        invariant
            i <= points@.len(),
            points@.len() == candidates@.len(),
            forall|j: int| 0 <= j < points@.len() ==> (#[trigger] points@[j])@ == candidates@[j],
            probes@.len() == i,
            forall|j: int|
                0 <= j < i ==> is_probe_of(
                    #[trigger] probes@[j],
                    verifier,
                    public_key@,
                    message@,
                    candidates@[j],
                ),
        decreases points@.len() - i,
    {
        let probe = probe_candidate(verifier, public_key, message, points[i]);
        probes.push(probe);
        i += 1;
    }
    probes
}

/// The probes that the verifier accepted: the forgeries that went through.
pub fn forging_witnesses(probes: &Vec<Probe>) -> (witnesses: Vec<Probe>)
    ensures
        witnesses@ == accepted_probes(probes@),
{
    let mut witnesses: Vec<Probe> = Vec::new();
    let mut i: usize = 0;
    assert(probes@.subrange(0, 0) =~= Seq::<Probe>::empty());
    while i < probes.len()
        invariant
            i <= probes@.len(),
            witnesses@ == accepted_probes(probes@.subrange(0, i as int)),
        decreases probes@.len() - i,
    {
        proof {
            let next = probes@.subrange(0, i + 1);
            assert(next.drop_last() =~= probes@.subrange(0, i as int));
            assert(next.last() == probes@[i as int]);
            reveal_with_fuel(Seq::filter, 2);
        }
        if probes[i].accepted {
            witnesses.push(probes[i]);
        }
        i += 1;
    }
    assert(probes@.subrange(0, i as int) =~= probes@);
    witnesses
}

/// Forges a signature from each candidate and returns the probes that the
/// verifier accepted.
pub fn attack_with(
    verifier: Verifier,
    public_key: &CurvePoint,
    message: &FieldElement,
    candidates: &SmallSubgroupSet,
) -> (witnesses: Vec<Probe>)
    ensures
        exists|probes: Seq<Probe>|
            #[trigger] are_probes_of(probes, verifier, public_key@, message@, candidates@)
                && witnesses@ == accepted_probes(probes),
{
    let probes = probe_candidates(verifier, public_key, message, candidates);
    forging_witnesses(&probes)
}

/// Searches for a small subgroup, forges a signature from each of its points
/// and returns the probes that the verifier accepted.
pub fn attack(
    verifier: Verifier,
    public_key: &CurvePoint,
    message: &FieldElement,
    max_attempts: u64,
) -> (r: Result<Vec<Probe>, SearchError>)
    ensures
        r matches Ok(witnesses) ==> exists|probes: Seq<Probe>, candidates: Seq<(nat, nat)>|
            is_small_subgroup_found(candidates) && #[trigger] are_probes_of(
                probes,
                verifier,
                public_key@,
                message@,
                candidates,
            ) && witnesses@ == accepted_probes(probes),
        max_attempts == 0 ==> r matches Err(SearchError::Exhausted),
{
    match find_small_subgroup_points(max_attempts) {
        Ok(candidates) => Ok(attack_with(verifier, public_key, message, &candidates)),
        Err(e) => Err(e),
    }
}

/// A verifier that turns away every `R` of small order accepts no forgery made
/// from candidates of small order: the attack then has no witness.
pub proof fn lemma_guarded_verifier_accepts_no_forgery(
    probes: Seq<Probe>,
    a: (nat, nat),
    m: nat,
    candidates: Seq<(nat, nat)>,
)
    requires
        are_probes_of(probes, Verifier::RejectingSmallOrder, a, m, candidates),
        forall|i: int| 0 <= i < candidates.len() ==> in_small_subgroup(#[trigger] candidates[i]),
    ensures
        accepted_probes(probes) == Seq::<Probe>::empty(),
{
    if accepted_probes(probes).len() > 0 {
        lemma_filtered_element_is_from(probes, 0);
        let w = accepted_probes(probes)[0];
        let j = choose|j: int| 0 <= j < probes.len() && probes[j] == w;
        assert(in_small_subgroup(candidates[j]));
        assert(!probes[j].accepted);
    }
    assert(accepted_probes(probes) =~= Seq::<Probe>::empty());
}

/// Every accepted probe is one of the probes.
proof fn lemma_filtered_element_is_from(probes: Seq<Probe>, i: int)
    requires
        0 <= i < accepted_probes(probes).len(),
    ensures
        probes.contains(accepted_probes(probes)[i]),
        accepted_probes(probes)[i].accepted,
    decreases probes.len(),
{
    reveal_with_fuel(Seq::filter, 2);
    if probes.len() > 0 {
        let rest = probes.drop_last();
        if i < accepted_probes(rest).len() {
            lemma_filtered_element_is_from(rest, i);
            let w = accepted_probes(rest)[i];
            let j = choose|j: int| 0 <= j < rest.len() && rest[j] == w;
            assert(probes[j] == w);
        } else {
            assert(probes[probes.len() - 1] == accepted_probes(probes)[i]);
        }
    }
}

/// `Poseidon::hash` on a fresh `Poseidon` and five canonical residues: the
/// canonical residue of the digest. With five inputs the hash has no error.
#[verifier::external_body]
fn poseidon_hash(a: &[u64; 4], b: &[u64; 4], c: &[u64; 4], d: &[u64; 4], e: &[u64; 4]) -> (r: [u64; 4])
    requires
        limbs_value(*a) < modulus(),
        limbs_value(*b) < modulus(),
        limbs_value(*c) < modulus(),
        limbs_value(*d) < modulus(),
        limbs_value(*e) < modulus(),
    ensures
        limbs_value(r) < modulus(),
        limbs_value(r) == poseidon_digest(
            limbs_value(*a),
            limbs_value(*b),
            limbs_value(*c),
            limbs_value(*d),
            limbs_value(*e),
        ),
{
    let inputs: Vec<Fr> = [a, b, c, d, e].iter().map(|l| Fr::from_repr(FrRepr(**l)).unwrap()).collect();
    Poseidon::new().hash(inputs).unwrap().into_repr().0
}

/// `babyjubjub_rs::verify` on a public key and an `R` given by canonical
/// coordinates, a non-negative `s` and a message below the modulus: whether
/// `s·B`, computed by `Point::mul_scalar`, has the coordinates of the sum, by
/// `PointProjective::add`, of `R` and the multiple of the key by eight times
/// the Poseidon hash of `R`, the key and the message.
#[verifier::external_body]
fn eddsa_verify(
    ax: &[u64; 4],
    ay: &[u64; 4],
    rx: &[u64; 4],
    ry: &[u64; 4],
    s: &[u64; 4],
    m: &[u64; 4],
) -> (accepted: bool)
    requires
        limbs_value(*ax) < modulus(),
        limbs_value(*ay) < modulus(),
        limbs_value(*rx) < modulus(),
        limbs_value(*ry) < modulus(),
        limbs_value(*m) < modulus(),
    ensures
        accepted == eddsa_accepts(
            (limbs_value(*ax), limbs_value(*ay)),
            (limbs_value(*rx), limbs_value(*ry)),
            limbs_value(*s),
            limbs_value(*m),
        ),
{
    let fr = |l: &[u64; 4]| Fr::from_repr(FrRepr(*l)).unwrap();
    let big = |l: &[u64; 4]| {
        BigInt::from_bytes_le(Sign::Plus, &l.iter().flat_map(|w| w.to_le_bytes()).collect::<Vec<u8>>())
    };
    let signature = Signature { r_b8: Point { x: fr(rx), y: fr(ry) }, s: big(s) };
    babyjubjub_rs::verify(Point { x: fr(ax), y: fr(ay) }, signature, big(m))
}

} // verus!

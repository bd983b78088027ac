use babyjubjub_rs::{Fr, Point, PrivateKey};
use ff_ce::PrimeField;
use jubjub_confinement::{
    attack, attack_with, challenge, cross_check, enumerate_small_subgroup, forge, forging_witnesses, identity,
    is_identity, probe_candidate, probe_candidates, verify, CurvePoint, FieldElement,
    ForgedSignature, Probe, Scalar, SearchError, Verifier,
};
use num_bigint::BigInt;

const ATTEMPTS: u64 = 1_000_000;
const MESSAGE: &str =
    "1598911868658412840590204800029132395788172267694994825569831863639583317607";

fn field(x: &Fr) -> FieldElement {
    FieldElement::from_limbs(x.into_repr().0).unwrap()
}

fn field_dec(decimal: &str) -> FieldElement {
    field(&Fr::from_str(decimal).unwrap())
}

fn point(p: &Point) -> CurvePoint {
    CurvePoint { x: field(&p.x), y: field(&p.y) }
}

fn scalar(n: &BigInt) -> Scalar {
    let (_, digits) = n.to_u64_digits();
    let mut limbs = [0u64; 4];
    limbs[..digits.len()].copy_from_slice(&digits);
    Scalar::from_limbs(limbs)
}

fn key_of_order_eight() -> CurvePoint {
    CurvePoint {
        x: field_dec("4342719913949491028786768530115087822524712248835451589697801404893164183326"),
        y: field_dec("4826523245007015323400664741523384119579596407052839571721035538011798951543"),
    }
}

fn signer() -> PrivateKey {
    PrivateKey::import((1u8..=32).collect()).unwrap()
}

#[test]
fn the_challenge_is_the_poseidon_hash_of_five_elements() {
    let r = CurvePoint { x: FieldElement::from_u64(1), y: FieldElement::from_u64(2) };
    let a = CurvePoint { x: FieldElement::zero(), y: FieldElement::zero() };
    assert_eq!(
        challenge(&r, &a, &FieldElement::zero()),
        field_dec("1018317224307729531995786483840663576608797660851238720571059489595066344487")
    );
    let r = CurvePoint { x: FieldElement::from_u64(3), y: FieldElement::from_u64(4) };
    assert_eq!(
        challenge(&r, &a, &FieldElement::zero()),
        field_dec("5811595552068139067952687508729883632420015185677766880877743348592482390548")
    );
    assert_ne!(challenge(&r, &a, &FieldElement::zero()), challenge(&a, &r, &FieldElement::zero()));
    assert_ne!(challenge(&r, &a, &FieldElement::zero()), challenge(&r, &a, &FieldElement::one()));
}

#[test]
fn a_forged_signature_has_the_scalar_zero() {
    let r = key_of_order_eight();
    let signature = forge(r);
    assert_eq!(signature.r, r);
    assert_eq!(signature.s, Scalar::from_u64(0));
    assert_eq!(signature.s.limbs, [0, 0, 0, 0]);
}

#[test]
fn the_cross_check_is_r_plus_the_challenge_times_the_key() {
    let a = key_of_order_eight();
    let m = field_dec(MESSAGE);
    for r in enumerate_small_subgroup(&a).to_vec() {
        let k = challenge(&r, &a, &m);
        let expected = r.add(&a.mul_scalar(&Scalar::from_field(&k)));
        assert_eq!(cross_check(&r, &a, &m), expected);
        assert!(is_identity(&expected.mul_scalar(&Scalar::from_u64(8))));
    }
}

#[test]
fn an_honest_signature_is_accepted_by_both_verifiers() {
    let key = signer();
    let public_key = point(&key.public());
    let message = MESSAGE.parse::<BigInt>().unwrap();
    let signed = key.sign(message.clone()).unwrap();
    let signature = ForgedSignature { r: point(&signed.r_b8), s: scalar(&signed.s) };
    let m = field_dec(MESSAGE);
    assert!(babyjubjub_rs::verify(key.public(), signed, message));
    assert!(verify(Verifier::Unguarded, &public_key, &signature, &m));
    assert!(verify(Verifier::RejectingSmallOrder, &public_key, &signature, &m));
}

#[test]
fn a_changed_signature_is_rejected() {
    let key = signer();
    let public_key = point(&key.public());
    let signed = key.sign(MESSAGE.parse::<BigInt>().unwrap()).unwrap();
    let signature = ForgedSignature { r: point(&signed.r_b8), s: scalar(&signed.s) };
    let m = field_dec(MESSAGE);
    let other_message = m.add(&FieldElement::one());
    assert!(!verify(Verifier::Unguarded, &public_key, &signature, &other_message));
    let other_scalar = ForgedSignature { r: signature.r, s: scalar(&(signed.s + 1)) };
    assert!(!verify(Verifier::Unguarded, &public_key, &other_scalar, &m));
    let other_point = ForgedSignature { r: public_key, s: signature.s };
    assert!(!verify(Verifier::Unguarded, &public_key, &other_point, &m));
    let other_key = key_of_order_eight();
    assert!(!verify(Verifier::Unguarded, &other_key, &signature, &m));
    assert!(!verify(Verifier::Unguarded, &public_key, &forge(identity()), &m));
}

#[test]
fn the_neutral_element_forges_for_a_key_of_order_eight() {
    let a = key_of_order_eight();
    let m = field_dec(MESSAGE);
    let forged = forge(identity());
    assert!(verify(Verifier::Unguarded, &a, &forged, &m));
    assert!(!verify(Verifier::RejectingSmallOrder, &a, &forged, &m));
    assert!(!verify(Verifier::Unguarded, &a, &forge(a), &m));
}

#[test]
fn a_probe_records_the_verdict_and_the_cross_check() {
    let a = key_of_order_eight();
    let m = field_dec(MESSAGE);
    let accepted = probe_candidate(Verifier::Unguarded, &a, &m, identity());
    assert_eq!(accepted.signature, forge(identity()));
    assert!(accepted.accepted);
    assert_eq!(accepted.cross_check, cross_check(&identity(), &a, &m));
    assert_eq!(accepted.shows_confinement(), is_identity(&accepted.cross_check));
    let rejected = probe_candidate(Verifier::RejectingSmallOrder, &a, &m, identity());
    assert!(!rejected.accepted);
    assert_eq!(rejected.cross_check, accepted.cross_check);
    let other = probe_candidate(Verifier::Unguarded, &a, &m, a);
    assert_eq!(other.signature.r, a);
    assert!(!other.accepted);
}

#[test]
fn every_candidate_is_probed_in_order() {
    let a = key_of_order_eight();
    let m = field_dec(MESSAGE);
    let candidates = enumerate_small_subgroup(&a);
    let probes = probe_candidates(Verifier::Unguarded, &a, &m, &candidates);
    assert_eq!(probes.len(), 8);
    for (probe, candidate) in probes.iter().zip(candidates.to_vec()) {
        assert_eq!(*probe, probe_candidate(Verifier::Unguarded, &a, &m, candidate));
    }
    let witnesses = forging_witnesses(&probes);
    assert_eq!(witnesses, vec![probes[0]]);
    assert_eq!(witnesses[0].signature.r, identity());
}

#[test]
fn the_witnesses_are_the_accepted_probes() {
    let make = |k: u64, accepted: bool| Probe {
        signature: forge(CurvePoint { x: FieldElement::from_u64(k), y: FieldElement::one() }),
        accepted,
        cross_check: identity(),
    };
    let probes = vec![make(1, false), make(2, true), make(3, true), make(4, false), make(5, true)];
    assert_eq!(forging_witnesses(&probes), vec![make(2, true), make(3, true), make(5, true)]);
    assert_eq!(forging_witnesses(&vec![make(1, false), make(2, false)]), vec![]);
    assert_eq!(forging_witnesses(&vec![]), vec![]);
    assert!(make(1, true).shows_confinement());
    let mut elsewhere = make(1, true);
    elsewhere.cross_check = key_of_order_eight();
    assert!(!elsewhere.shows_confinement());
}

#[test]
fn the_attack_forges_for_a_key_of_order_eight() {
    let a = key_of_order_eight();
    let m = field_dec(MESSAGE);
    let witnesses = attack(Verifier::Unguarded, &a, &m, ATTEMPTS).unwrap();
    assert_eq!(witnesses.len(), 1);
    let witness = witnesses[0];
    assert!(witness.accepted);
    assert_eq!(witness.signature, forge(identity()));
    assert!(verify(Verifier::Unguarded, &a, &witness.signature, &m));
    assert_eq!(witness.cross_check, cross_check(&identity(), &a, &m));
    assert!(is_identity(&witness.cross_check.mul_scalar(&Scalar::from_u64(8))));
}

#[test]
fn the_attack_fails_against_the_guarded_verifier() {
    let a = key_of_order_eight();
    let m = field_dec(MESSAGE);
    for _ in 0..3 {
        assert_eq!(attack(Verifier::RejectingSmallOrder, &a, &m, ATTEMPTS), Ok(vec![]));
    }
}

#[test]
fn the_attack_fails_against_a_key_of_prime_order() {
    let public_key = point(&signer().public());
    let m = field_dec(MESSAGE);
    assert_eq!(attack(Verifier::Unguarded, &public_key, &m, ATTEMPTS), Ok(vec![]));
}

#[test]
fn the_attack_without_attempts_is_exhausted() {
    let a = key_of_order_eight();
    let m = field_dec(MESSAGE);
    assert_eq!(attack(Verifier::Unguarded, &a, &m, 0), Err(SearchError::Exhausted));
}

#[test]
fn the_verdict_is_the_verifiers_equation() {
    let base = point(&Point {
        x: Fr::from_str(
            "5299619240641551281634865583518297030282874472190772894086521144482721001553",
        )
        .unwrap(),
        y: Fr::from_str(
            "16950150798460657717958625567821834550301663161624707787222815936182638968203",
        )
        .unwrap(),
    });
    let key = signer();
    let m = field_dec(MESSAGE);
    let signed = key.sign(MESSAGE.parse::<BigInt>().unwrap()).unwrap();
    let honest = ForgedSignature { r: point(&signed.r_b8), s: scalar(&signed.s) };
    let keys = [point(&key.public()), key_of_order_eight()];
    let signatures = [honest, forge(identity()), forge(key_of_order_eight()), forge(honest.r)];
    for a in keys {
        for signature in signatures {
            let k = challenge(&signature.r, &a, &m);
            let ka = a.mul_scalar(&Scalar::from_field(&k)).mul_scalar(&Scalar::from_u64(8));
            let equation_holds = base.mul_scalar(&signature.s) == signature.r.add(&ka);
            assert_eq!(verify(Verifier::Unguarded, &a, &signature, &m), equation_holds);
        }
    }
}

#[test]
fn the_attack_on_given_candidates() {
    let a = key_of_order_eight();
    let m = field_dec(MESSAGE);
    let candidates = enumerate_small_subgroup(&a);
    let witnesses = attack_with(Verifier::Unguarded, &a, &m, &candidates);
    assert_eq!(witnesses, vec![probe_candidate(Verifier::Unguarded, &a, &m, identity())]);
    assert_eq!(attack_with(Verifier::RejectingSmallOrder, &a, &m, &candidates), vec![]);
    let public_key = point(&signer().public());
    assert_eq!(attack_with(Verifier::Unguarded, &public_key, &m, &candidates), vec![]);
}

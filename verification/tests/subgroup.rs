use babyjubjub_rs::Fr;
use ff_ce::PrimeField;
use jubjub_confinement::{
    compute_r, enumerate_small_subgroup, identity, is_identity, is_on_curve,
    is_on_small_subgroup, small_subgroup_from, CurvePoint, FieldElement, Scalar,
    SmallSubgroupSet,
};

fn field_dec(decimal: &str) -> FieldElement {
    FieldElement::from_limbs(Fr::from_str(decimal).unwrap().into_repr().0).unwrap()
}

fn point_dec(x: &str, y: &str) -> CurvePoint {
    CurvePoint { x: field_dec(x), y: field_dec(y) }
}

fn eighth_order_point() -> CurvePoint {
    point_dec(
        "4342719913949491028786768530115087822524712248835451589697801404893164183326",
        "4826523245007015323400664741523384119579596407052839571721035538011798951543",
    )
}

/// A generator of the prime subgroup.
fn base_point() -> CurvePoint {
    point_dec(
        "5299619240641551281634865583518297030282874472190772894086521144482721001553",
        "16950150798460657717958625567821834550301663161624707787222815936182638968203",
    )
}

/// A generator of the whole group.
fn generator() -> CurvePoint {
    point_dec(
        "995203441582195749578291179787384436505546430278305826713579947235728471134",
        "5472060717959818805561601436314318772137091100104008585924551046643952123905",
    )
}

fn times(p: &CurvePoint, k: u64) -> CurvePoint {
    p.mul_scalar(&Scalar::from_u64(k))
}

fn precedes(a: &CurvePoint, b: &CurvePoint) -> bool {
    a.x.less_than(&b.x) || (a.x == b.x && a.y.less_than(&b.y))
}

#[test]
fn small_order_is_recognised() {
    let p = eighth_order_point();
    assert!(is_on_small_subgroup(&p));
    assert!(is_on_small_subgroup(&times(&p, 2)));
    assert!(is_on_small_subgroup(&times(&p, 4)));
    assert!(is_on_small_subgroup(&identity()));
    assert!(!is_on_small_subgroup(&base_point()));
    assert!(!is_on_small_subgroup(&generator()));
}

#[test]
fn the_projection_clears_the_prime_order_part() {
    assert!(is_on_curve(&base_point()));
    assert!(is_on_curve(&generator()));
    assert_eq!(compute_r(&base_point()), None);
    assert_eq!(compute_r(&identity()), None);
    assert_eq!(compute_r(&times(&base_point(), 12345)), None);
    let r = compute_r(&generator()).unwrap();
    assert!(!is_identity(&r));
    assert!(is_on_curve(&r));
    assert!(is_on_small_subgroup(&r));
    assert!(is_identity(&times(&r, 8)));
    assert!(!is_identity(&times(&r, 4)));
}

#[test]
fn the_projection_of_a_small_point_is_a_multiple_of_it() {
    // the prime order leaves the remainder 1 when divided by 8
    let p = eighth_order_point();
    assert_eq!(compute_r(&p), Some(p));
    assert_eq!(compute_r(&times(&p, 2)), Some(times(&p, 2)));
    assert_eq!(compute_r(&times(&p, 4)), Some(times(&p, 4)));
}

#[test]
fn enumeration_from_a_seed_of_order_eight() {
    let p = eighth_order_point();
    let found = enumerate_small_subgroup(&p);
    assert_eq!(found.len(), 8);
    let expected =
        [times(&p, 8), times(&p, 4), times(&p, 6), p, times(&p, 3), times(&p, 7), times(&p, 5), times(&p, 2)];
    assert_eq!(found.to_vec(), expected.to_vec());
    for i in 1..=16 {
        assert!(found.contains(&times(&p, i)));
    }
    assert!(!found.contains(&base_point()));
}

#[test]
fn enumeration_yields_as_many_points_as_the_order() {
    let p = eighth_order_point();
    let of_order_four = enumerate_small_subgroup(&times(&p, 2));
    assert_eq!(of_order_four.len(), 4);
    assert_eq!(
        of_order_four.to_vec(),
        vec![identity(), times(&p, 4), times(&p, 6), times(&p, 2)]
    );
    let of_order_two = enumerate_small_subgroup(&times(&p, 4));
    assert_eq!(of_order_two.to_vec(), vec![identity(), times(&p, 4)]);
    let of_order_one = enumerate_small_subgroup(&identity());
    assert_eq!(of_order_one.to_vec(), vec![identity()]);
}

#[test]
fn enumeration_is_in_ascending_order() {
    let found = enumerate_small_subgroup(&times(&eighth_order_point(), 3)).to_vec();
    assert_eq!(found.len(), 8);
    for pair in found.windows(2) {
        assert!(precedes(&pair[0], &pair[1]));
    }
}

#[test]
fn a_set_keeps_each_point_once_and_in_order() {
    let p = eighth_order_point();
    let mut set = SmallSubgroupSet::new();
    assert_eq!(set.len(), 0);
    assert_eq!(set.get(0), None);
    assert!(!set.contains(&p));
    assert!(set.insert(p));
    assert!(!set.insert(p));
    assert!(set.insert(identity()));
    assert!(set.insert(times(&p, 2)));
    assert!(!set.insert(identity()));
    assert!(set.insert(times(&p, 4)));
    assert_eq!(set.len(), 4);
    assert_eq!(set.get(0), Some(identity()));
    assert_eq!(set.get(1), Some(times(&p, 4)));
    assert_eq!(set.get(2), Some(p));
    assert_eq!(set.get(3), Some(times(&p, 2)));
    assert_eq!(set.get(4), None);
    assert!(set.contains(&p));
    assert!(set.contains(&identity()));
    assert!(!set.contains(&times(&p, 3)));
    assert_eq!(set.to_vec(), vec![identity(), times(&p, 4), p, times(&p, 2)]);
}

#[test]
fn a_sample_gives_a_subgroup_only_through_a_small_projection() {
    assert!(small_subgroup_from(&base_point()).is_none());
    assert!(small_subgroup_from(&identity()).is_none());
    let from_generator = small_subgroup_from(&generator()).unwrap();
    let from_small_point = small_subgroup_from(&eighth_order_point()).unwrap();
    assert_eq!(from_generator.len(), 8);
    assert_eq!(from_generator.to_vec(), from_small_point.to_vec());
    let from_order_two = small_subgroup_from(&times(&eighth_order_point(), 4)).unwrap();
    assert_eq!(from_order_two.to_vec(), vec![identity(), times(&eighth_order_point(), 4)]);
}

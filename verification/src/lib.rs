//! Point predicates over the Baby Jubjub twisted Edwards curve, the search for
//! points of small order, and the small-subgroup confinement of an EdDSA-style
//! verifier that accepts them.

pub mod attack;
pub mod field;
pub mod limbs;
pub mod modular;
pub mod point;
pub mod scalar;
pub mod search;
pub mod subgroup;
pub mod subgroup_set;

pub use attack::{
    attack, attack_with, challenge, cross_check, forge, forging_witnesses, probe_candidate, probe_candidates, verify,
    ForgedSignature, Probe, Verifier,
};
pub use field::FieldElement;
pub use point::{from_x, identity, is_identity, is_on_curve, CurvePoint};
pub use scalar::Scalar;
pub use search::{
    field_element_from_words, find_small_subgroup_points, point_from_words, random_point,
    random_small, small_subgroup_from, words_from_draws, SearchError,
};
pub use subgroup::{compute_r, enumerate_small_subgroup, is_on_small_subgroup};
pub use subgroup_set::SmallSubgroupSet;

//! Affine points and the curve equation `a·x² + y² = 1 + d·x²·y²`.

use crate::field::{is_square, modulus, FieldElement};
use crate::limbs::limbs_value;
use crate::modular::{
    congruent, lemma_congruent_add, lemma_congruent_canonical, lemma_congruent_mul,
    lemma_congruent_sub, lemma_residue_congruent,
};
use crate::scalar::Scalar;
use babyjubjub_rs::{Fr, Point};
use ff_ce::PrimeField;
use num_bigint::{BigInt, Sign};
use poseidon_rs::FrRepr;
use vstd::prelude::*;

verus! {

/// The curve's coefficient `a`.
pub open spec fn coeff_a() -> nat {
    168700
}

/// The curve's coefficient `d`.
pub open spec fn coeff_d() -> nat {
    168696
}

/// Whether the pair `(x, y)` satisfies the curve equation.
pub open spec fn on_curve(x: nat, y: nat) -> bool {
    (coeff_a() * x * x + y * y) % modulus() == (1 + coeff_d() * x * x * y * y) % modulus()
}

/// Whether `(x, y)` is the neutral element `(0, 1)`.
pub open spec fn is_identity_point(x: nat, y: nat) -> bool {
    x == 0 && y == 1
}

/// The coordinates of the multiple of the point `(x, y)` by `k`, as
/// `babyjubjub_rs::Point::mul_scalar` computes it.
pub uninterp spec fn scalar_multiple(x: nat, y: nat, k: nat) -> (nat, nat);

/// The coordinates of the sum of the points `(x1, y1)` and `(x2, y2)`, as
/// `babyjubjub_rs::PointProjective::add` computes it from and to affine
/// coordinates.
pub uninterp spec fn point_sum(x1: nat, y1: nat, x2: nat, y2: nat) -> (nat, nat);

/// A pair of coordinates. Nothing in the type says that the pair lies on the
/// curve: [`is_on_curve`] tests that.
#[derive(Clone, Copy, Debug, Eq)]
pub struct CurvePoint {
    pub x: FieldElement,
    pub y: FieldElement,
}

impl PartialEq for CurvePoint {
    fn eq(&self, other: &CurvePoint) -> (r: bool) {
        self.x == other.x && self.y == other.y
    }
}

impl vstd::std_specs::cmp::PartialEqSpecImpl for CurvePoint {
    open spec fn obeys_eq_spec() -> bool {
        true
    }

    open spec fn eq_spec(&self, other: &CurvePoint) -> bool {
        self@ == other@
    }
}

impl View for CurvePoint {
    type V = (nat, nat);

    open spec fn view(&self) -> (nat, nat) {
        (self.x@, self.y@)
    }
}

/// The two sides of the curve equation, computed in the field from the squares
/// of the coordinates, are congruent to the two sides over the integers.
proof fn lemma_curve_sides(x: int, y: int, x2: int, y2: int, ax2: int, dx2: int, dx2y2: int)
    requires
        congruent(x2, x * x),
        congruent(y2, y * y),
        congruent(ax2, coeff_a() * x2),
        congruent(dx2, coeff_d() * x2),
        congruent(dx2y2, dx2 * y2),
    ensures
        congruent(ax2 + y2, coeff_a() * x * x + y * y),
        congruent(1 + dx2y2, 1 + coeff_d() * x * x * y * y),
        congruent(ax2, coeff_a() * x * x),
        congruent(dx2, coeff_d() * x * x),
{
    let a = coeff_a() as int;
    let d = coeff_d() as int;
    lemma_congruent_mul(a, a, x2, x * x);
    assert(a * (x * x) == a * x * x) by (nonlinear_arith);
    lemma_congruent_add(ax2, a * x * x, y2, y * y);
    lemma_congruent_mul(d, d, x2, x * x);
    assert(d * (x * x) == d * x * x) by (nonlinear_arith);
    lemma_congruent_mul(dx2, d * x * x, y2, y * y);
    assert((d * x * x) * (y * y) == d * x * x * y * y) by (nonlinear_arith);
    lemma_congruent_add(1, 1, dx2y2, d * x * x * y * y);
}

/// The right-hand side of `y² = (1 − a·x²)·(1 − d·x²)⁻¹`, as the field computes
/// it: `numerator` and `denominator` are the two factors, `inverse` inverts the
/// denominator, and `quotient` is their product.
pub open spec fn solves_for_y(x: int, numerator: int, denominator: int, inverse: int, quotient: int) -> bool {
    &&& congruent(numerator, 1 - coeff_a() * x * x)
    &&& congruent(denominator, 1 - coeff_d() * x * x)
    &&& congruent(denominator * inverse, 1)
    &&& congruent(quotient, numerator * inverse)
}

/// A square root of the quotient is the `y` of a point on the curve.
proof fn lemma_root_is_on_curve(x: int, y: int, num: int, den: int, inv: int, quo: int)
    requires
        solves_for_y(x, num, den, inv, quo),
        congruent(y * y, quo),
    ensures
        congruent(coeff_a() * x * x + y * y, 1 + coeff_d() * x * x * y * y),
{
    let a = coeff_a() as int;
    let d = coeff_d() as int;
    // y²·den ≡ num
    lemma_congruent_mul(y * y, num * inv, den, den);
    assert((num * inv) * den == num * (den * inv)) by (nonlinear_arith);
    lemma_congruent_mul(num, num, den * inv, 1);
    assert(congruent((y * y) * den, num));
    // y²·den ≡ y²·(1 − d·x²)
    lemma_congruent_mul(y * y, y * y, den, 1 - d * x * x);
    assert((y * y) * (1 - d * x * x) == y * y - d * x * x * y * y) by (nonlinear_arith);
    assert(congruent(y * y - d * x * x * y * y, 1 - a * x * x));
    let t = a * x * x + d * x * x * y * y;
    lemma_congruent_add(y * y - d * x * x * y * y, 1 - a * x * x, t, t);
}

/// The `y` of a point on the curve is a square root of the quotient.
proof fn lemma_on_curve_is_root(x: int, y: int, num: int, den: int, inv: int, quo: int)
    requires
        solves_for_y(x, num, den, inv, quo),
        congruent(coeff_a() * x * x + y * y, 1 + coeff_d() * x * x * y * y),
    ensures
        congruent(y * y, quo),
{
    let a = coeff_a() as int;
    let d = coeff_d() as int;
    let t = a * x * x + d * x * x * y * y;
    lemma_congruent_sub(a * x * x + y * y, 1 + d * x * x * y * y, t, t);
    assert(congruent(y * y - d * x * x * y * y, 1 - a * x * x));
    assert((y * y) * (1 - d * x * x) == y * y - d * x * x * y * y) by (nonlinear_arith);
    lemma_congruent_mul(y * y, y * y, 1 - d * x * x, den);
    assert(congruent((y * y) * den, num));
    lemma_congruent_mul((y * y) * den, num, inv, inv);
    assert(((y * y) * den) * inv == (y * y) * (den * inv)) by (nonlinear_arith);
    lemma_congruent_mul(y * y, y * y, den * inv, 1);
}

/// No point of the curve has an `x` at which `1 − d·x²` vanishes.
pub proof fn lemma_no_point_where_denominator_vanishes(x: nat, y: nat)
    requires
        congruent(1 - coeff_d() * x * x, 0),
    ensures
        !on_curve(x, y),
{
    if on_curve(x, y) {
        let a = coeff_a() as int;
        let d = coeff_d() as int;
        let (x, y) = (x as int, y as int);
        // d·x² ≡ 1, so d·x²·y² ≡ y² and a·x² ≡ 1
        lemma_congruent_sub(1, 1, 1 - d * x * x, 0);
        assert(congruent(d * x * x, 1));
        lemma_congruent_mul(d * x * x, 1, y * y, y * y);
        assert((d * x * x) * (y * y) == d * x * x * y * y) by (nonlinear_arith);
        lemma_congruent_add(1, 1, d * x * x * y * y, y * y);
        assert(congruent(a * x * x + y * y, 1 + y * y));
        lemma_congruent_sub(a * x * x + y * y, 1 + y * y, y * y, y * y);
        assert(congruent(a * x * x, 1));
        // a − d = 4 divides a, so a·x² ≡ 0 as well
        lemma_congruent_sub(a * x * x, 1, d * x * x, 1);
        assert(a * x * x - d * x * x == 4 * (x * x)) by (nonlinear_arith)
            requires
                a == 168700,
                d == 168696,
        ;
        lemma_congruent_mul(42175, 42175, 4 * (x * x), 0);
        assert(42175 * (4 * (x * x)) == a * x * x) by (nonlinear_arith)
            requires
                a == 168700,
        ;
        assert(congruent(0, 1));
        assert(false);
    }
}

/// Whether the point satisfies the curve equation.
pub fn is_on_curve(p: &CurvePoint) -> (r: bool)
    ensures
        r == on_curve(p.x@, p.y@),
{
    let x2 = p.x.square();
    let y2 = p.y.square();
    let ax2 = FieldElement::from_u64(168700).mul(&x2);
    let lhs = ax2.add(&y2);
    let dx2 = FieldElement::from_u64(168696).mul(&x2);
    let dx2y2 = dx2.mul(&y2);
    let rhs = FieldElement::one().add(&dx2y2);
    proof {
        let x = p.x@ as int;
        let y = p.y@ as int;
        let a = coeff_a() as int;
        let d = coeff_d() as int;
        let (x2i, y2i) = (x2@ as int, y2@ as int);
        let (ax2i, dx2i, dx2y2i) = (ax2@ as int, dx2@ as int, dx2y2@ as int);
        lemma_residue_congruent(x * x);
        lemma_residue_congruent((y * y) as int);
        lemma_residue_congruent(a * x2i);
        lemma_residue_congruent(d * x2i);
        lemma_residue_congruent(dx2i * y2i);
        lemma_curve_sides(x, y, x2i, y2i, ax2i, dx2i, dx2y2i);
        lemma_residue_congruent(ax2i + y2i);
        lemma_residue_congruent(1 + dx2y2i);
        if on_curve(p.x@, p.y@) {
            lemma_congruent_canonical(lhs@ as int, rhs@ as int);
        }
    }
    lhs == rhs
}

/// The point with the given `x`, if the curve has one: `y` is then a square
/// root of `(1 − a·x²)·(1 − d·x²)⁻¹`, either of the two.
pub fn from_x(x: FieldElement) -> (r: Option<CurvePoint>)
    ensures
        r is Some <==> exists|y: nat| y < modulus() && #[trigger] on_curve(x@, y),
        r matches Some(p) ==> p.x == x && on_curve(p.x@, p.y@),
{
    let x2 = x.square();
    let ax2 = FieldElement::from_u64(168700).mul(&x2);
    let numerator = FieldElement::one().sub(&ax2);
    let dx2 = FieldElement::from_u64(168696).mul(&x2);
    let denominator = FieldElement::one().sub(&dx2);
    let ghost xi = x@ as int;
    proof {
        let a = coeff_a() as int;
        let d = coeff_d() as int;
        lemma_residue_congruent(xi * xi);
        lemma_congruent_mul(a, a, x2@ as int, xi * xi);
        lemma_congruent_mul(d, d, x2@ as int, xi * xi);
        assert(a * (xi * xi) == a * xi * xi) by (nonlinear_arith);
        assert(d * (xi * xi) == d * xi * xi) by (nonlinear_arith);
        lemma_residue_congruent(a * x2@);
        lemma_residue_congruent(d * x2@);
        lemma_congruent_sub(1, 1, ax2@ as int, a * xi * xi);
        lemma_congruent_sub(1, 1, dx2@ as int, d * xi * xi);
        lemma_residue_congruent(1 - ax2@);
        lemma_residue_congruent(1 - dx2@);
    }
    match denominator.inverse() {
        None => {
            proof {
                assert forall|y: nat| y < modulus() implies !#[trigger] on_curve(x@, y) by {
                    lemma_no_point_where_denominator_vanishes(x@, y);
                }
            }
            None
        },
        Some(inverse) => {
            let quotient = numerator.mul(&inverse);
            proof {
                lemma_residue_congruent((numerator@ * inverse@) as int);
                assert(solves_for_y(
                    xi,
                    numerator@ as int,
                    denominator@ as int,
                    inverse@ as int,
                    quotient@ as int,
                ));
            }
            match quotient.sqrt() {
                Some(y) => {
                    proof {
                        lemma_residue_congruent((y@ * y@) as int);
                        lemma_root_is_on_curve(
                            xi,
                            y@ as int,
                            numerator@ as int,
                            denominator@ as int,
                            inverse@ as int,
                            quotient@ as int,
                        );
                        assert(on_curve(x@, y@));
                    }
                    Some(CurvePoint { x, y })
                },
                None => {
                    proof {
                        assert forall|y: nat| y < modulus() implies !#[trigger] on_curve(
                            x@,
                            y,
                        ) by {
                            if on_curve(x@, y) {
                                lemma_on_curve_is_root(
                                    xi,
                                    y as int,
                                    numerator@ as int,
                                    denominator@ as int,
                                    inverse@ as int,
                                    quotient@ as int,
                                );
                                lemma_residue_congruent((y * y) as int);
                                lemma_congruent_canonical(
                                    ((y * y) % modulus()) as int,
                                    quotient@ as int,
                                );
                                assert((y * y) % modulus() == quotient@);
                                assert(is_square(quotient@));
                            }
                        }
                    }
                    None
                },
            }
        },
    }
}

/// The neutral element `(0, 1)`.
pub fn identity() -> (r: CurvePoint)
    ensures
        is_identity_point(r.x@, r.y@),
{
    CurvePoint { x: FieldElement::zero(), y: FieldElement::one() }
}

/// Whether the point is the neutral element `(0, 1)`.
pub fn is_identity(p: &CurvePoint) -> (r: bool)
    ensures
        r == is_identity_point(p.x@, p.y@),
{
    p.x == FieldElement::zero() && p.y == FieldElement::one()
}

impl CurvePoint {
    /// The point itself, unless it is the neutral element.
    pub fn nonidentity(self) -> (r: Option<CurvePoint>)
        ensures
            r == if is_identity_point(self.x@, self.y@) {
                None
            } else {
                Some(self)
            },
    {
        if is_identity(&self) {
            None
        } else {
            Some(self)
        }
    }

    /// The multiple of this point by `k`.
    ///
    /// The neutral element has no other multiple than itself.
    pub fn mul_scalar(&self, k: &Scalar) -> (r: CurvePoint)
        ensures
            r@ == scalar_multiple(self.x@, self.y@, k@),
            is_identity_point(self.x@, self.y@) ==> is_identity_point(r.x@, r.y@),
    {
        let (x, y) = point_mul_scalar(&self.x.to_limbs(), &self.y.to_limbs(), &k.limbs);
        CurvePoint {
            x: FieldElement::from_canonical_limbs(x),
            y: FieldElement::from_canonical_limbs(y),
        }
    }

    /// The sum of this point and `q`.
    ///
    /// Adding to the neutral element gives `q` itself.
    pub fn add(&self, q: &CurvePoint) -> (r: CurvePoint)
        ensures
            r@ == point_sum(self.x@, self.y@, q.x@, q.y@),
            is_identity_point(self.x@, self.y@) ==> r@ == q@,
    {
        let (x, y) = point_add(
            &self.x.to_limbs(),
            &self.y.to_limbs(),
            &q.x.to_limbs(),
            &q.y.to_limbs(),
        );
        CurvePoint {
            x: FieldElement::from_canonical_limbs(x),
            y: FieldElement::from_canonical_limbs(y),
        }
    }
}

/// `Point::mul_scalar` on canonical coordinates and a non-negative scalar: the
/// canonical coordinates of the multiple. The double-and-add loop starts from
/// `(0, 1)` and adds copies of the point, so that every multiple of `(0, 1)`
/// is `(0, 1)`.
#[verifier::external_body]
fn point_mul_scalar(x: &[u64; 4], y: &[u64; 4], k: &[u64; 4]) -> (r: ([u64; 4], [u64; 4]))
    requires
        limbs_value(*x) < modulus(),
        limbs_value(*y) < modulus(),
    ensures
        limbs_value(r.0) < modulus(),
        limbs_value(r.1) < modulus(),
        (limbs_value(r.0), limbs_value(r.1)) == scalar_multiple(
            limbs_value(*x),
            limbs_value(*y),
            limbs_value(*k),
        ),
        is_identity_point(limbs_value(*x), limbs_value(*y)) ==> is_identity_point(
            limbs_value(r.0),
            limbs_value(r.1),
        ),
{
    let p = Point { x: Fr::from_repr(FrRepr(*x)).unwrap(), y: Fr::from_repr(FrRepr(*y)).unwrap() };
    let bytes: Vec<u8> = k.iter().flat_map(|w| w.to_le_bytes()).collect();
    let q = p.mul_scalar(&BigInt::from_bytes_le(Sign::Plus, &bytes));
    (q.x.into_repr().0, q.y.into_repr().0)
}

/// `PointProjective::add` on two points given by canonical affine coordinates,
/// taken to projective coordinates by `Point::projective` and back by
/// `PointProjective::affine`: the canonical coordinates of the sum. With
/// `(0, 1)` as the first point the formulas give the second point back.
#[verifier::external_body]
fn point_add(x1: &[u64; 4], y1: &[u64; 4], x2: &[u64; 4], y2: &[u64; 4]) -> (r: (
    [u64; 4],
    [u64; 4],
))
    requires
        limbs_value(*x1) < modulus(),
        limbs_value(*y1) < modulus(),
        limbs_value(*x2) < modulus(),
        limbs_value(*y2) < modulus(),
    ensures
        limbs_value(r.0) < modulus(),
        limbs_value(r.1) < modulus(),
        (limbs_value(r.0), limbs_value(r.1)) == point_sum(
            limbs_value(*x1),
            limbs_value(*y1),
            limbs_value(*x2),
            limbs_value(*y2),
        ),
        is_identity_point(limbs_value(*x1), limbs_value(*y1)) ==> limbs_value(r.0) == limbs_value(
            *x2,
        ) && limbs_value(r.1) == limbs_value(*y2),
{
    let p = Point { x: Fr::from_repr(FrRepr(*x1)).unwrap(), y: Fr::from_repr(FrRepr(*y1)).unwrap() };
    let q = Point { x: Fr::from_repr(FrRepr(*x2)).unwrap(), y: Fr::from_repr(FrRepr(*y2)).unwrap() };
    let s = p.projective().add(&q.projective()).affine();
    (s.x.into_repr().0, s.y.into_repr().0)
}

} // verus!

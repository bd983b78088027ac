//! 256-bit unsigned integers as four 64-bit words, least significant first.

use vstd::prelude::*;

verus! {

/// The weight of the second word: 2^64.
pub open spec fn radix() -> nat {
    0x1_0000_0000_0000_0000
}

/// The integer that four little-endian 64-bit words stand for.
pub open spec fn limbs_value(l: [u64; 4]) -> nat {
    (l[0] as nat) + radix() * ((l[1] as nat) + radix() * ((l[2] as nat) + radix() * (l[3] as nat)))
}

/// Two word arrays stand for the same integer only if they hold the same words.
pub proof fn lemma_limbs_value_injective(a: [u64; 4], b: [u64; 4])
    requires
        limbs_value(a) == limbs_value(b),
    ensures
        a == b,
{
    let r = radix() as int;
    let ta = (a[1] as int) + r * ((a[2] as int) + r * (a[3] as int));
    let tb = (b[1] as int) + r * ((b[2] as int) + r * (b[3] as int));
    lemma_digit_split(a[0] as int, ta, b[0] as int, tb);
    let ua = (a[2] as int) + r * (a[3] as int);
    let ub = (b[2] as int) + r * (b[3] as int);
    lemma_digit_split(a[1] as int, ua, b[1] as int, ub);
    lemma_digit_split(a[2] as int, a[3] as int, b[2] as int, b[3] as int);
    assert(a =~= b);
}

/// A number written as a low digit below 2^64 and a rest has only one such writing.
proof fn lemma_digit_split(lo1: int, hi1: int, lo2: int, hi2: int)
    requires
        0 <= lo1 < radix(),
        0 <= lo2 < radix(),
        lo1 + radix() * hi1 == lo2 + radix() * hi2,
    ensures
        lo1 == lo2,
        hi1 == hi2,
{
    let r = radix() as int;
    assert(r * hi1 - r * hi2 == r * (hi1 - hi2)) by (nonlinear_arith);
    if hi1 > hi2 {
        assert(r * (hi1 - hi2) >= r) by (nonlinear_arith)
            requires
                hi1 - hi2 >= 1,
                r > 0,
        ;
    } else if hi1 < hi2 {
        assert(r * (hi1 - hi2) <= -r) by (nonlinear_arith)
            requires
                hi1 - hi2 <= -1,
                r > 0,
        ;
    }
}

/// The order of two numbers is decided by their high parts, and by the low
/// digits where the high parts agree.
proof fn lemma_digit_order(lo1: int, hi1: int, lo2: int, hi2: int)
    requires
        0 <= lo1 < radix(),
        0 <= lo2 < radix(),
    ensures
        (lo1 + radix() * hi1 < lo2 + radix() * hi2) <==> (hi1 < hi2 || (hi1 == hi2 && lo1 < lo2)),
{
    let r = radix() as int;
    assert(r * hi1 - r * hi2 == r * (hi1 - hi2)) by (nonlinear_arith);
    if hi1 > hi2 {
        assert(r * (hi1 - hi2) >= r) by (nonlinear_arith)
            requires
                hi1 - hi2 >= 1,
                r > 0,
        ;
    } else if hi1 < hi2 {
        assert(r * (hi1 - hi2) <= -r) by (nonlinear_arith)
            requires
                hi1 - hi2 <= -1,
                r > 0,
        ;
    }
}

/// Whether the integer of `a` is smaller than that of `b`.
pub fn limbs_less_than(a: &[u64; 4], b: &[u64; 4]) -> (r: bool)
    ensures
        r == (limbs_value(*a) < limbs_value(*b)),
{
    proof {
        let rx = radix() as int;
        let ua = (a[2] as int) + rx * (a[3] as int);
        let ub = (b[2] as int) + rx * (b[3] as int);
        let ta = (a[1] as int) + rx * ua;
        let tb = (b[1] as int) + rx * ub;
        lemma_digit_order(a[2] as int, a[3] as int, b[2] as int, b[3] as int);
        lemma_digit_order(a[1] as int, ua, b[1] as int, ub);
        lemma_digit_order(a[0] as int, ta, b[0] as int, tb);
    }
    if a[3] != b[3] {
        a[3] < b[3]
    } else if a[2] != b[2] {
        a[2] < b[2]
    } else if a[1] != b[1] {
        a[1] < b[1]
    } else {
        a[0] < b[0]
    }
}

/// Whether `a` and `b` stand for the same integer.
pub fn limbs_equal(a: &[u64; 4], b: &[u64; 4]) -> (r: bool)
    ensures
        r == (limbs_value(*a) == limbs_value(*b)),
        r == (*a == *b),
{
    let same = a[0] == b[0] && a[1] == b[1] && a[2] == b[2] && a[3] == b[3];
    proof {
        if same {
            assert(*a =~= *b);
        } else if limbs_value(*a) == limbs_value(*b) {
            lemma_limbs_value_injective(*a, *b);
        }
    }
    same
}

/// The words of a number below 2^64.
pub fn limbs_from_u64(v: u64) -> (r: [u64; 4])
    ensures
        limbs_value(r) == v,
{
    [v, 0, 0, 0]
}

} // verus!

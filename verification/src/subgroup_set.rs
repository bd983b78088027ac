//! The set of points that a search has found.

use crate::point::CurvePoint;
use vstd::prelude::*;

verus! {

/// The order in which a set keeps its points: by `x`, and by `y` among points
/// with the same `x`.
pub open spec fn point_precedes(a: (nat, nat), b: (nat, nat)) -> bool {
    a.0 < b.0 || (a.0 == b.0 && a.1 < b.1)
}

/// Whether each point of the sequence precedes all that follow it.
pub open spec fn strictly_ascending(s: Seq<(nat, nat)>) -> bool {
    forall|i: int, j: int| 0 <= i < j < s.len() ==> point_precedes(#[trigger] s[i], #[trigger] s[j])
}

/// The coordinates of a sequence of points.
pub open spec fn coordinates(points: Seq<CurvePoint>) -> Seq<(nat, nat)> {
    Seq::new(points.len(), |i: int| points[i]@)
}

/// Putting an element into a sequence adds it to the set of its elements.
pub proof fn lemma_insert_to_set(s: Seq<(nat, nat)>, at: int, a: (nat, nat))
    requires
        0 <= at <= s.len(),
    ensures
        s.insert(at, a).to_set() == s.to_set().insert(a),
{
    let t = s.insert(at, a);
    assert forall|q: (nat, nat)| t.to_set().contains(q) <==> s.to_set().insert(a).contains(q) by {
        if t.contains(q) {
            let j = choose|j: int| 0 <= j < t.len() && t[j] == q;
            if j < at {
                assert(s[j] == q);
            } else if j > at {
                assert(s[j - 1] == q);
            }
        }
        if s.contains(q) {
            let j = choose|j: int| 0 <= j < s.len() && s[j] == q;
            if j < at {
                assert(t[j] == q);
            } else {
                assert(t[j + 1] == q);
            }
        }
        if q == a {
            assert(t[at] == q);
        }
    }
    assert(t.to_set() =~= s.to_set().insert(a));
}

/// A strictly ascending sequence holds no point twice.
pub proof fn lemma_ascending_is_duplicate_free(s: Seq<(nat, nat)>)
    requires
        strictly_ascending(s),
    ensures
        s.no_duplicates(),
        s.len() == s.to_set().len(),
{
    assert forall|i: int, j: int| 0 <= i < s.len() && 0 <= j < s.len() && i != j implies s[i]
        != s[j] by {
        if i < j {
            assert(point_precedes(s[i], s[j]));
        } else {
            assert(point_precedes(s[j], s[i]));
        }
    }
    s.unique_seq_to_set();
}

/// A set of distinct points, kept in ascending order of their coordinates.
#[derive(Debug)]
pub struct SmallSubgroupSet {
    points: Vec<CurvePoint>,
}

impl View for SmallSubgroupSet {
    type V = Seq<(nat, nat)>;

    closed spec fn view(&self) -> Seq<(nat, nat)> {
        coordinates(self.points@)
    }
}

/// Whether `a` comes before `b` in the order of the set.
fn precedes(a: &CurvePoint, b: &CurvePoint) -> (r: bool)
    ensures
        r == point_precedes(a@, b@),
{
    a.x.less_than(&b.x) || (a.x == b.x && a.y.less_than(&b.y))
}

/// A copy of `points` with `p` put in at position `at`.
fn with_inserted(points: &Vec<CurvePoint>, at: usize, p: CurvePoint) -> (r: Vec<CurvePoint>)
    requires
        at <= points@.len(),
    ensures
        r@ == points@.insert(at as int, p),
{
    let mut r: Vec<CurvePoint> = Vec::new();
    let mut i: usize = 0;
    while i < at
        invariant
            i <= at <= points@.len(),
            r@ == points@.subrange(0, i as int),
        decreases at - i,
    {
        r.push(points[i]);
        assert(r@ =~= points@.subrange(0, i + 1));
        i += 1;
    }
    r.push(p);
    assert(r@ =~= points@.subrange(0, i as int).insert(at as int, p));
    while i < points.len()
        invariant
            at <= i <= points@.len(),
            r@ == points@.subrange(0, i as int).insert(at as int, p),
        decreases points@.len() - i,
    {
        r.push(points[i]);
        assert(r@ =~= points@.subrange(0, i + 1).insert(at as int, p));
        i += 1;
    }
    assert(points@.subrange(0, i as int) =~= points@);
    r
}

impl SmallSubgroupSet {
    #[verifier::type_invariant]
    closed spec fn ordered(self) -> bool {
        strictly_ascending(coordinates(self.points@))
    }

    /// The empty set.
    pub fn new() -> (r: SmallSubgroupSet)
        ensures
            r@ == Seq::<(nat, nat)>::empty(),
    {
        let r = SmallSubgroupSet { points: Vec::new() };
        assert(r@ =~= Seq::<(nat, nat)>::empty());
        r
    }

    /// The number of points in the set.
    pub fn len(&self) -> (r: usize)
        ensures
            r == self@.len(),
            strictly_ascending(self@),
    {
        proof {
            use_type_invariant(self);
        }
        self.points.len()
    }

    /// The point at position `i` of the ascending order, if the set has that
    /// many.
    pub fn get(&self, i: usize) -> (r: Option<CurvePoint>)
        ensures
            r is Some <==> i < self@.len(),
            r matches Some(p) ==> p@ == self@[i as int],
    {
        if i < self.points.len() {
            Some(self.points[i])
        } else {
            None
        }
    }

    /// Whether the set holds a point with these coordinates.
    pub fn contains(&self, p: &CurvePoint) -> (r: bool)
        ensures
            r == self@.contains(p@),
    {
        let mut i: usize = 0;
        while i < self.points.len()
            invariant
                i <= self.points.len(),
                forall|j: int| 0 <= j < i ==> self@[j] != p@,
            decreases self.points.len() - i,
        {
            if self.points[i] == *p {
                assert(self@[i as int] == p@);
                return true;
            }
            i += 1;
        }
        false
    }

    /// The points of the set in ascending order.
    pub fn to_vec(&self) -> (r: Vec<CurvePoint>)
        ensures
            coordinates(r@) == self@,
            strictly_ascending(self@),
    {
        proof {
            use_type_invariant(self);
        }
        let mut r: Vec<CurvePoint> = Vec::new();
        let mut i: usize = 0;
        while i < self.points.len()
            invariant
                i <= self.points@.len(),
                r@ == self.points@.subrange(0, i as int),
            decreases self.points@.len() - i,
        {
            r.push(self.points[i]);
            assert(r@ =~= self.points@.subrange(0, i + 1));
            i += 1;
        }
        assert(r@ =~= self.points@);
        r
    }

    /// Adds a point, unless the set holds it already. Says whether it was
    /// added.
    pub fn insert(&mut self, p: CurvePoint) -> (added: bool)
        ensures
            added == !old(self)@.contains(p@),
            final(self)@.to_set() == old(self)@.to_set().insert(p@),
            !added ==> final(self)@ == old(self)@,
            added ==> exists|i: int|
                0 <= i <= old(self)@.len() && final(self)@ == old(self)@.insert(i, p@),
            strictly_ascending(old(self)@),
            strictly_ascending(final(self)@),
    {
        proof {
            use_type_invariant(&*self);
        }
        let mut i: usize = 0;
        while i < self.points.len() && precedes(&self.points[i], &p)
            invariant
                i <= self.points.len(),
                *self == *old(self),
                forall|j: int| 0 <= j < i ==> point_precedes(self@[j], p@),
            decreases self.points.len() - i,
        {
            i += 1;
        }
        if i < self.points.len() && self.points[i] == p {
            assert(self@[i as int] == p@);
            assert(self@.to_set() =~= self@.to_set().insert(p@));
            return false;
        }
        let ghost before = self@;
        assert forall|j: int| i <= j < before.len() implies point_precedes(p@, before[j]) by {
            assert(!point_precedes(before[i as int], p@));
            assert(before[i as int] != p@);
            if i < j {
                assert(point_precedes(before[i as int], before[j]));
            }
        }
        assert(!before.contains(p@)) by {
            if before.contains(p@) {
                let j = choose|j: int| 0 <= j < before.len() && before[j] == p@;
                if j < i {
                    assert(point_precedes(before[j], p@));
                } else {
                    assert(point_precedes(p@, before[j]));
                }
            }
        }
        let points = with_inserted(&self.points, i, p);
        assert(coordinates(points@) =~= before.insert(i as int, p@));
        proof {
            lemma_insert_to_set(before, i as int, p@);
        }
        *self = SmallSubgroupSet { points };
        true
    }
}

} // verus!

//! Incremental triangulation of a point set, by corner indices.
//!
//! The points of the set are numbered `0` to `n - 1`; the three corners of
//! the enclosing super-triangle are numbered `n`, `n + 1` and `n + 2`. A
//! triangle is the three numbers of its corners. Where the points lie is
//! the caller's knowledge: for each insertion the caller says which of the
//! present triangles are bad for the point that comes next, and this module
//! removes them and closes the cavity around the point.

use vstd::prelude::*;

verus! {

/// Whether triangle `k` is marked bad. A triangle beyond the end of `bad` is
/// not.
pub open spec fn is_bad(bad: Seq<bool>, k: int) -> bool {
    0 <= k < bad.len() && bad[k]
}

/// Edge `e` of a triangle: from corner `e` to the corner after it.
pub open spec fn edge(tri: [usize; 3], e: int) -> (usize, usize) {
    (tri[e], tri[(e + 1) % 3])
}

/// Whether two edges join the same two corners, in either direction.
pub open spec fn same_edge(a: (usize, usize), b: (usize, usize)) -> bool {
    (a.0 == b.0 && a.1 == b.1) || (a.0 == b.1 && a.1 == b.0)
}

/// Whether `x` is one of the three edges of `tri`.
pub open spec fn has_edge(tri: [usize; 3], x: (usize, usize)) -> bool {
    same_edge(edge(tri, 0), x) || same_edge(edge(tri, 1), x) || same_edge(edge(tri, 2), x)
}

/// Whether edge `x` of bad triangle `k` is shared with another bad
/// triangle, and so lies inside the cavity, not on its boundary.
pub open spec fn shared(tris: Seq<[usize; 3]>, bad: Seq<bool>, k: int, x: (usize, usize)) -> bool {
    exists|m: int| 0 <= m < tris.len() && m != k && is_bad(bad, m) && has_edge(#[trigger] tris[m], x)
}

/// The first `n` triangles without those marked bad, in order.
pub open spec fn kept(tris: Seq<[usize; 3]>, bad: Seq<bool>, n: nat) -> Seq<[usize; 3]>
    decreases n,
{
    if n == 0 {
        Seq::empty()
    } else {
        let before = kept(tris, bad, (n - 1) as nat);
        if is_bad(bad, n - 1) {
            before
        } else {
            before.push(tris[n - 1])
        }
    }
}

/// The triangles that close the cavity, from the first `n` edges of the
/// triangulation (edge `3 * k + e` is edge `e` of triangle `k`): one
/// triangle for each edge of a bad triangle that no other bad triangle
/// shares, from `point` along that edge.
pub open spec fn cavity(tris: Seq<[usize; 3]>, bad: Seq<bool>, point: usize, n: nat) -> Seq<
    [usize; 3],
>
    decreases n,
{
    if n == 0 {
        Seq::empty()
    } else {
        let before = cavity(tris, bad, point, (n - 1) as nat);
        let k = (n - 1) / 3;
        let x = edge(tris[k], (n - 1) % 3);
        if is_bad(bad, k) && !shared(tris, bad, k, x) {
            before.push([point, x.0, x.1])
        } else {
            before
        }
    }
}

/// The triangulation after `point` is inserted: the triangles that are not
/// bad, then the triangles that close the cavity.
pub open spec fn inserted(tris: Seq<[usize; 3]>, bad: Seq<bool>, point: usize) -> Seq<[usize; 3]> {
    kept(tris, bad, tris.len()) + cavity(tris, bad, point, 3 * tris.len())
}

/// Whether a triangle has a corner of the super-triangle, where the set has
/// `points` points.
pub open spec fn touches_super(tri: [usize; 3], points: nat) -> bool {
    tri[0] >= points || tri[1] >= points || tri[2] >= points
}

/// The first `n` triangles without those that have a corner of the
/// super-triangle, in order.
pub open spec fn without_super(tris: Seq<[usize; 3]>, points: nat, n: nat) -> Seq<[usize; 3]>
    decreases n,
{
    if n == 0 {
        Seq::empty()
    } else {
        let before = without_super(tris, points, (n - 1) as nat);
        if touches_super(tris[n - 1], points) {
            before
        } else {
            before.push(tris[n - 1])
        }
    }
}

/// Whether every corner of every triangle is a point of the set or a corner
/// of the super-triangle.
pub open spec fn corners_known(tris: Seq<[usize; 3]>, points: nat) -> bool {
    forall|k: int, c: int|
        0 <= k < tris.len() && 0 <= c < 3 ==> (#[trigger] tris[k][c]) < points + 3
}

/// Decides whether `x` is one of the three edges of `tri`.
fn triangle_has_edge(tri: &[usize; 3], a: usize, b: usize) -> (r: bool)
    ensures
        r == has_edge(*tri, (a, b)),
{
    let e0 = (tri[0] == a && tri[1] == b) || (tri[0] == b && tri[1] == a);
    let e1 = (tri[1] == a && tri[2] == b) || (tri[1] == b && tri[2] == a);
    let e2 = (tri[2] == a && tri[0] == b) || (tri[2] == b && tri[0] == a);
    e0 || e1 || e2
}

/// Decides whether the edge from `a` to `b` of bad triangle `k` is shared
/// with another bad triangle.
fn edge_is_shared(tris: &Vec<[usize; 3]>, bad: &Vec<bool>, k: usize, a: usize, b: usize) -> (r:
    bool)
    ensures
        r == shared(tris@, bad@, k as int, (a, b)),
{
    let mut m: usize = 0;
    while m < tris.len()
        invariant
            m <= tris@.len(),
            forall|i: int|
                0 <= i < m ==> !(i != k && is_bad(bad@, i) && has_edge(#[trigger] tris@[i], (a, b))),
        decreases tris@.len() - m,
    {
        if m != k && m < bad.len() && bad[m] && triangle_has_edge(&tris[m], a, b) {
            return true;
        }
        m = m + 1;
    }
    false
}

/// A triangulation under construction.
pub struct Triangulation {
    points: usize,
    done: usize,
    triangles: Vec<[usize; 3]>,
}

impl Triangulation {
    /// How many points the set has.
    pub closed spec fn point_count(&self) -> nat {
        self.points as nat
    }

    /// How many of them have been inserted.
    pub closed spec fn inserted_count(&self) -> nat {
        self.done as nat
    }

    /// The present triangles.
    pub closed spec fn view(&self) -> Seq<[usize; 3]> {
        self.triangles@
    }

    /// The invariant: points are inserted in order, and the triangles join
    /// known corners.
    #[verifier::type_invariant]
    spec fn wf(&self) -> bool {
        &&& self.done <= self.points
        &&& self.points + 3 <= usize::MAX
        &&& corners_known(self.triangles@, self.points as nat)
    }

    /// The triangulation of no point yet: the super-triangle alone.
    pub fn new(points: usize) -> (t: Triangulation)
        requires
            points + 3 <= usize::MAX,
        ensures
            t.point_count() == points,
            t.inserted_count() == 0,
            t@ == seq![[points, (points + 1) as usize, (points + 2) as usize]],
    {
        let mut triangles: Vec<[usize; 3]> = Vec::new();
        triangles.push([points, points + 1, points + 2]);
        Triangulation { points, done: 0, triangles }
    }

    /// The present triangles, for the caller to judge. Each corner is a
    /// point of the set or a corner of the super-triangle.
    pub fn triangles(&self) -> (r: &Vec<[usize; 3]>)
        ensures
            r@ == self@,
            corners_known(r@, self.point_count()),
    {
        proof {
            use_type_invariant(self);
        }
        &self.triangles
    }

    /// The point that the next insertion inserts, or `None` when every
    /// point is in.
    pub fn pending(&self) -> (r: Option<usize>)
        ensures
            r == (if self.inserted_count() < self.point_count() {
                Some(self.inserted_count() as usize)
            } else {
                None
            }),
    {
        proof {
            use_type_invariant(self);
        }
        if self.done < self.points {
            Some(self.done)
        } else {
            None
        }
    }

    /// Inserts the pending point: removes the triangles that `bad` marks
    /// (`bad[k]` says whether triangle `k` is bad for the point) and joins
    /// each edge of the cavity's boundary to the point. Returns whether
    /// there was a point to insert; if not, nothing changes.
    pub fn insert(&mut self, bad: &Vec<bool>) -> (did: bool)
        ensures
            final(self).point_count() == old(self).point_count(),
            did == (old(self).inserted_count() < old(self).point_count()),
            did ==> final(self).inserted_count() == old(self).inserted_count() + 1,
            did ==> final(self)@ == inserted(
                old(self)@,
                bad@,
                old(self).inserted_count() as usize,
            ),
            !did ==> final(self).inserted_count() == old(self).inserted_count(),
            !did ==> final(self)@ == old(self)@,
    {
        proof {
            use_type_invariant(&*self);
        }
        if self.done >= self.points {
            return false;
        }
        let point = self.done;
        let points = self.points;
        let n = self.triangles.len();
        let mut next: Vec<[usize; 3]> = Vec::new();
        let mut k: usize = 0;
        while k < n
            invariant
                k <= n == self.triangles@.len(),
                corners_known(self.triangles@, points as nat),
                corners_known(next@, points as nat),
                next@ == kept(self.triangles@, bad@, k as nat),
            decreases n - k,
        {
            if !(k < bad.len() && bad[k]) {
                let tri = self.triangles[k];
                assert(forall|c: int| 0 <= c < 3 ==> #[trigger] tri[c] < points + 3);
                next.push(tri);
            }
            k = k + 1;
        }
        let ghost stay = next@;
        k = 0;
        while k < n
            invariant
                k <= n == self.triangles@.len(),
                point < points,
                points + 3 <= usize::MAX,
                corners_known(self.triangles@, points as nat),
                corners_known(next@, points as nat),
                next@ == stay + cavity(self.triangles@, bad@, point, (3 * k) as nat),
            decreases n - k,
        {
            let ghost tris = self.triangles@;
            if k < bad.len() && bad[k] {
                let tri = self.triangles[k];
                assert(forall|c: int| 0 <= c < 3 ==> #[trigger] tri[c] < points + 3);
                let mut e: usize = 0;
                while e < 3
                    invariant
                        e <= 3,
                        k < n == self.triangles@.len(),
                        tris == self.triangles@,
                        tri == tris[k as int],
                        is_bad(bad@, k as int),
                        point < points,
                        forall|c: int| 0 <= c < 3 ==> #[trigger] tri[c] < points + 3,
                        corners_known(next@, points as nat),
                        next@ == stay + cavity(tris, bad@, point, (3 * k + e) as nat),
                    decreases 3 - e,
                {
                    let a = tri[e];
                    let b = tri[(e + 1) % 3];
                    if !edge_is_shared(&self.triangles, bad, k, a, b) {
                        let fill = [point, a, b];
                        next.push(fill);
                    }
                    e = e + 1;
                }
            } else {
                assert(cavity(tris, bad@, point, (3 * k + 1) as nat) == cavity(
                    tris,
                    bad@,
                    point,
                    (3 * k) as nat,
                ));
                assert(cavity(tris, bad@, point, (3 * k + 2) as nat) == cavity(
                    tris,
                    bad@,
                    point,
                    (3 * k + 1) as nat,
                ));
                assert(cavity(tris, bad@, point, (3 * k + 3) as nat) == cavity(
                    tris,
                    bad@,
                    point,
                    (3 * k + 2) as nat,
                ));
            }
            k = k + 1;
        }
        self.triangles = next;
        self.done = point + 1;
        true
    }

    /// The triangulation without the triangles that have a corner of the
    /// super-triangle: every triangle of the result joins three points of
    /// the set.
    pub fn finish(&self) -> (r: Vec<[usize; 3]>)
        ensures
            r@ == without_super(self@, self.point_count(), self@.len()),
            forall|k: int|
                0 <= k < r@.len() ==> !touches_super(#[trigger] r@[k], self.point_count()),
    {
        let n = self.triangles.len();
        let mut out: Vec<[usize; 3]> = Vec::new();
        let mut k: usize = 0;
        while k < n
            invariant
                k <= n == self.triangles@.len(),
                out@ == without_super(self.triangles@, self.points as nat, k as nat),
                forall|i: int|
                    0 <= i < out@.len() ==> !touches_super(#[trigger] out@[i], self.points as nat),
            decreases n - k,
        {
            let tri = self.triangles[k];
            if tri[0] < self.points && tri[1] < self.points && tri[2] < self.points {
                out.push(tri);
            }
            k = k + 1;
        }
        out
    }
}

/// Every triangle that closes a cavity has the inserted point as its first
/// corner and an edge of a bad triangle opposite to it.
pub proof fn lemma_cavity_starts_at_point(
    tris: Seq<[usize; 3]>,
    bad: Seq<bool>,
    point: usize,
    n: nat,
)
    ensures
        forall|k: int|
            0 <= k < cavity(tris, bad, point, n).len() ==> (#[trigger] cavity(
                tris,
                bad,
                point,
                n,
            )[k])[0] == point,
    decreases n,
{
    if n > 0 {
        lemma_cavity_starts_at_point(tris, bad, point, (n - 1) as nat);
        let before = cavity(tris, bad, point, (n - 1) as nat);
        let now = cavity(tris, bad, point, n);
        let x = edge(tris[(n - 1) / 3], (n - 1) % 3);
        let fill: [usize; 3] = [point, x.0, x.1];
        assert(fill[0] == point);
        assert forall|k: int| 0 <= k < now.len() implies (#[trigger] now[k])[0] == point by {
            if k >= before.len() {
                assert(now[k] == fill);
            }
        }
    }
}

/// No triangle that `without_super` keeps has a corner of the
/// super-triangle, and it keeps every triangle that has none: a triangle of
/// the first `n` is in the result exactly when it joins three points of the
/// set.
pub proof fn lemma_without_super(tris: Seq<[usize; 3]>, points: nat, n: nat)
    requires
        n <= tris.len(),
    ensures
        forall|k: int|
            0 <= k < without_super(tris, points, n).len() ==> !touches_super(
                #[trigger] without_super(tris, points, n)[k],
                points,
            ),
        forall|k: int|
            0 <= k < n && !touches_super(#[trigger] tris[k], points) ==> without_super(
                tris,
                points,
                n,
            ).contains(tris[k]),
    decreases n,
{
    if n > 0 {
        lemma_without_super(tris, points, (n - 1) as nat);
        let before = without_super(tris, points, (n - 1) as nat);
        let now = without_super(tris, points, n);
        assert forall|k: int| 0 <= k < n && !touches_super(#[trigger] tris[k], points) implies now.contains(
            tris[k],
        ) by {
            if k < n - 1 {
                let w = choose|w: int| 0 <= w < before.len() && before[w] == tris[k];
                assert(now[w] == tris[k]);
            } else {
                assert(now[now.len() - 1] == tris[k]);
            }
        }
    }
}

} // verus!

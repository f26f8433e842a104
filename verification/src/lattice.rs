//! The lattice that subdivision lays over a triangle.
//!
//! A triangle `(a, b, c)` cut by a factor `f` has the lattice points
//! `a + i * (b - a) / f + j * (c - a) / f` with `i + j <= f`. A point is
//! named here by its triangle and its coordinates `(i, j)`; where it lies in
//! space is for the caller to compute.

use vstd::prelude::*;

verus! {

/// A lattice point of a subdivided triangle, as a mathematical value.
pub struct LatticePoint {
    pub triangle: int,
    pub i: int,
    pub j: int,
}

/// A lattice point of a subdivided triangle: the vertex
/// `a + i * (b - a) / factor + j * (c - a) / factor` of triangle number
/// `triangle` of the model, whose corners are `a`, `b` and `c`.
#[derive(Copy, Clone, Debug, PartialEq, Eq)]
pub struct LatticeVertex {
    pub triangle: usize,
    pub i: usize,
    pub j: usize,
}

impl View for LatticeVertex {
    type V = LatticePoint;

    open spec fn view(&self) -> LatticePoint {
        LatticePoint { triangle: self.triangle as int, i: self.i as int, j: self.j as int }
    }
}

/// The points that a list of lattice vertices names.
pub open spec fn lattice_points(vertices: Seq<LatticeVertex>) -> Seq<LatticePoint> {
    Seq::new(vertices.len(), |k: int| vertices[k]@)
}

/// The upper triangle of cell `(i, j)`.
pub open spec fn upper_cell(t: int, i: int, j: int) -> Seq<LatticePoint> {
    seq![
        LatticePoint { triangle: t, i: i, j: j },
        LatticePoint { triangle: t, i: i + 1, j: j },
        LatticePoint { triangle: t, i: i, j: j + 1 },
    ]
}

/// The lower triangle of cell `(i, j)`, which lies between the upper
/// triangles of the cells `(i, j - 1)` and `(i, j)`.
pub open spec fn lower_cell(t: int, i: int, j: int) -> Seq<LatticePoint> {
    seq![
        LatticePoint { triangle: t, i: i, j: j },
        LatticePoint { triangle: t, i: i + 1, j: j - 1 },
        LatticePoint { triangle: t, i: i + 1, j: j },
    ]
}

/// The triangles of cell `(i, j)`: the upper one, then, where `j > 0`, the
/// lower one.
pub open spec fn cell(t: int, i: int, j: int) -> Seq<LatticePoint> {
    if j > 0 {
        upper_cell(t, i, j) + lower_cell(t, i, j)
    } else {
        upper_cell(t, i, j)
    }
}

/// The cells `(i, 0)` to `(i, n - 1)` of row `i`, in order.
pub open spec fn row_cells(t: int, i: int, n: nat) -> Seq<LatticePoint>
    decreases n,
{
    if n == 0 {
        Seq::empty()
    } else {
        row_cells(t, i, (n - 1) as nat) + cell(t, i, n - 1)
    }
}

/// The rows `0` to `m - 1` of a triangle cut by `factor`, in order; row `i`
/// has `factor - i` cells.
pub open spec fn rows(t: int, factor: nat, m: nat) -> Seq<LatticePoint>
    decreases m,
{
    if m == 0 {
        Seq::empty()
    } else {
        rows(t, factor, (m - 1) as nat) + row_cells(t, m - 1, (factor - (m - 1)) as nat)
    }
}

/// The subdivision of the first `count` triangles of a model by `factor`.
pub open spec fn subdivision(count: nat, factor: nat) -> Seq<LatticePoint>
    decreases count,
{
    if count == 0 {
        Seq::empty()
    } else {
        subdivision((count - 1) as nat, factor) + rows(count - 1, factor, factor)
    }
}

/// How many vertices the first `n` cells of a row hold.
pub proof fn lemma_row_cells_len(t: int, i: int, n: nat)
    ensures
        row_cells(t, i, n).len() == (if n == 0 {
            0
        } else {
            6 * n - 3
        }),
    decreases n,
{
    if n > 0 {
        lemma_row_cells_len(t, i, (n - 1) as nat);
    }
}

/// How many vertices the first `m` rows of a triangle hold.
pub proof fn lemma_rows_len(t: int, factor: nat, m: nat)
    requires
        m <= factor,
    ensures
        rows(t, factor, m).len() == 3 * (2 * factor * m - m * m),
    decreases m,
{
    if m > 0 {
        lemma_rows_len(t, factor, (m - 1) as nat);
        lemma_row_cells_len(t, m - 1, (factor - (m - 1)) as nat);
        assert(3 * (2 * factor * (m - 1) - (m - 1) * (m - 1)) + 6 * (factor - (m - 1)) - 3 == 3 * (
        2 * factor * m - m * m)) by (nonlinear_arith);
    } else {
        assert(3 * (2 * factor * m - m * m) == 0) by (nonlinear_arith)
            requires
                m == 0,
        ;
    }
}

/// Subdivision by `factor` turns each triangle into `factor * factor`
/// triangles: `count` triangles become `count * factor * factor`, three
/// vertices each.
pub proof fn lemma_subdivision_len(count: nat, factor: nat)
    ensures
        subdivision(count, factor).len() == 3 * (count * factor * factor),
    decreases count,
{
    if count > 0 {
        lemma_subdivision_len((count - 1) as nat, factor);
        lemma_rows_len(count - 1, factor, factor);
        assert(3 * ((count - 1) * factor * factor) + 3 * (2 * factor * factor - factor * factor)
            == 3 * (count * factor * factor)) by (nonlinear_arith);
    } else {
        assert(count * factor * factor == 0) by (nonlinear_arith)
            requires
                count == 0,
        ;
    }
}

/// Whether `p` is a lattice point of one of the first `count` triangles cut
/// by `factor`: its coordinates are not negative and add up to at most
/// `factor`, so that the vertex it names lies in its triangle.
pub open spec fn inside(p: LatticePoint, count: nat, factor: nat) -> bool {
    &&& 0 <= p.triangle < count
    &&& 0 <= p.i
    &&& 0 <= p.j
    &&& p.i + p.j <= factor
}

/// Whether every point of `s` is inside.
pub open spec fn all_inside(s: Seq<LatticePoint>, count: nat, factor: nat) -> bool {
    forall|k: int| 0 <= k < s.len() ==> inside(#[trigger] s[k], count, factor)
}

proof fn lemma_all_inside_concat(
    a: Seq<LatticePoint>,
    b: Seq<LatticePoint>,
    count: nat,
    factor: nat,
)
    requires
        all_inside(a, count, factor),
        all_inside(b, count, factor),
    ensures
        all_inside(a + b, count, factor),
{
    assert forall|k: int| 0 <= k < (a + b).len() implies inside(
        #[trigger] (a + b)[k],
        count,
        factor,
    ) by {
        if k >= a.len() {
            assert((a + b)[k] == b[k - a.len()]);
        }
    }
}

proof fn lemma_row_cells_inside(t: int, i: int, n: nat, count: nat, factor: nat)
    requires
        0 <= t < count,
        0 <= i,
        i + n <= factor,
    ensures
        all_inside(row_cells(t, i, n), count, factor),
    decreases n,
{
    if n > 0 {
        lemma_row_cells_inside(t, i, (n - 1) as nat, count, factor);
        assert(all_inside(cell(t, i, n - 1), count, factor));
        lemma_all_inside_concat(
            row_cells(t, i, (n - 1) as nat),
            cell(t, i, n - 1),
            count,
            factor,
        );
    }
}

proof fn lemma_rows_inside(t: int, factor: nat, m: nat, count: nat)
    requires
        0 <= t < count,
        m <= factor,
    ensures
        all_inside(rows(t, factor, m), count, factor),
    decreases m,
{
    if m > 0 {
        lemma_rows_inside(t, factor, (m - 1) as nat, count);
        lemma_row_cells_inside(t, m - 1, (factor - (m - 1)) as nat, count, factor);
        lemma_all_inside_concat(
            rows(t, factor, (m - 1) as nat),
            row_cells(t, m - 1, (factor - (m - 1)) as nat),
            count,
            factor,
        );
    }
}

/// Every vertex that subdivision emits lies in its triangle, and its
/// triangle is one of the model.
pub proof fn lemma_subdivision_inside(count: nat, factor: nat, total: nat)
    requires
        count <= total,
    ensures
        all_inside(subdivision(count, factor), total, factor),
    decreases count,
{
    if count > 0 {
        lemma_subdivision_inside((count - 1) as nat, factor, total);
        lemma_rows_inside(count - 1, factor, factor, total);
        lemma_all_inside_concat(
            subdivision((count - 1) as nat, factor),
            rows(count - 1, factor, factor),
            total,
            factor,
        );
    }
}

/// Whether `p`, `q` and `r` are lattice points of one triangle that enclose
/// the area of one lattice cell and are wound as that triangle is: twice
/// the area, counted in cells and with its sign, is 1.
pub open spec fn unit_triangle(p: LatticePoint, q: LatticePoint, r: LatticePoint) -> bool {
    &&& p.triangle == q.triangle
    &&& p.triangle == r.triangle
    &&& (q.i - p.i) * (r.j - p.j) - (q.j - p.j) * (r.i - p.i) == 1
}

/// Whether `s` is a list of triangles, three vertices each, and every one a
/// unit triangle.
pub open spec fn unit_triangles(s: Seq<LatticePoint>) -> bool {
    &&& s.len() % 3 == 0
    &&& forall|n: int|
        0 <= n && 3 * n + 2 < s.len() ==> unit_triangle(
            #[trigger] s[3 * n],
            s[3 * n + 1],
            s[3 * n + 2],
        )
}

proof fn lemma_unit_triangles_concat(a: Seq<LatticePoint>, b: Seq<LatticePoint>)
    requires
        unit_triangles(a),
        unit_triangles(b),
    ensures
        unit_triangles(a + b),
{
    let s = a + b;
    assert forall|n: int| 0 <= n && 3 * n + 2 < s.len() implies unit_triangle(
        #[trigger] s[3 * n],
        s[3 * n + 1],
        s[3 * n + 2],
    ) by {
        if 3 * n < a.len() {
            assert(3 * n + 2 < a.len());
            assert(s[3 * n] == a[3 * n]);
            assert(s[3 * n + 1] == a[3 * n + 1]);
            assert(s[3 * n + 2] == a[3 * n + 2]);
        } else {
            let m = n - a.len() / 3;
            assert(3 * m == 3 * n - a.len());
            assert(s[3 * n] == b[3 * m]);
            assert(s[3 * n + 1] == b[3 * m + 1]);
            assert(s[3 * n + 2] == b[3 * m + 2]);
        }
    }
}

proof fn lemma_cell_unit(t: int, i: int, j: int)
    ensures
        unit_triangles(cell(t, i, j)),
{
    let c = cell(t, i, j);
    assert forall|n: int| 0 <= n && 3 * n + 2 < c.len() implies unit_triangle(
        #[trigger] c[3 * n],
        c[3 * n + 1],
        c[3 * n + 2],
    ) by {
        let (p, q, r) = (c[3 * n], c[3 * n + 1], c[3 * n + 2]);
        if n == 0 {
            assert(p == upper_cell(t, i, j)[0]);
            assert(q == upper_cell(t, i, j)[1]);
            assert(r == upper_cell(t, i, j)[2]);
            assert((q.i - p.i) * (r.j - p.j) - (q.j - p.j) * (r.i - p.i) == 1)
                by (nonlinear_arith)
                requires
                    q.i - p.i == 1,
                    r.j - p.j == 1,
                    q.j - p.j == 0,
                    r.i - p.i == 0,
            ;
        } else {
            assert(n == 1 && j > 0);
            assert(p == lower_cell(t, i, j)[0]);
            assert(q == lower_cell(t, i, j)[1]);
            assert(r == lower_cell(t, i, j)[2]);
            assert((q.i - p.i) * (r.j - p.j) - (q.j - p.j) * (r.i - p.i) == 1)
                by (nonlinear_arith)
                requires
                    q.i - p.i == 1,
                    r.j - p.j == 0,
                    q.j - p.j == -1,
                    r.i - p.i == 1,
            ;
        }
    }
}

proof fn lemma_row_cells_unit(t: int, i: int, n: nat)
    ensures
        unit_triangles(row_cells(t, i, n)),
    decreases n,
{
    if n > 0 {
        lemma_row_cells_unit(t, i, (n - 1) as nat);
        lemma_cell_unit(t, i, n - 1);
        lemma_unit_triangles_concat(row_cells(t, i, (n - 1) as nat), cell(t, i, n - 1));
    }
}

proof fn lemma_rows_unit(t: int, factor: nat, m: nat)
    ensures
        unit_triangles(rows(t, factor, m)),
    decreases m,
{
    if m > 0 {
        lemma_rows_unit(t, factor, (m - 1) as nat);
        lemma_row_cells_unit(t, m - 1, (factor - (m - 1)) as nat);
        lemma_unit_triangles_concat(
            rows(t, factor, (m - 1) as nat),
            row_cells(t, m - 1, (factor - (m - 1)) as nat),
        );
    }
}

/// Every triangle that subdivision emits has the area of one lattice cell
/// and is wound as the triangle that it is cut from.
pub proof fn lemma_subdivision_unit(count: nat, factor: nat)
    ensures
        unit_triangles(subdivision(count, factor)),
    decreases count,
{
    if count > 0 {
        lemma_subdivision_unit((count - 1) as nat, factor);
        lemma_rows_unit(count - 1, factor, factor);
        lemma_unit_triangles_concat(
            subdivision((count - 1) as nat, factor),
            rows(count - 1, factor, factor),
        );
    }
}

/// Where the triangles of cell `(i, j)` of triangle `t` begin in a
/// subdivision by `factor`: after the triangles before `t`, the rows before
/// `i` and the cells before `j`.
pub open spec fn cell_offset(factor: nat, t: int, i: int, j: int) -> int {
    3 * (t * factor * factor) + 3 * (2 * factor * i - i * i) + (if j == 0 {
        0
    } else {
        6 * j - 3
    })
}

proof fn lemma_row_cells_at(t: int, i: int, n: nat, j: nat, c: int)
    requires
        j < n,
        0 <= c < cell(t, i, j as int).len(),
    ensures
        row_cells(t, i, j).len() + c < row_cells(t, i, n).len(),
        row_cells(t, i, n)[row_cells(t, i, j).len() + c] == cell(t, i, j as int)[c],
    decreases n,
{
    if j < n - 1 {
        lemma_row_cells_at(t, i, (n - 1) as nat, j, c);
    }
}

proof fn lemma_rows_at(t: int, factor: nat, m: nat, i: nat, k: int)
    requires
        i < m,
        0 <= k < row_cells(t, i as int, (factor - i) as nat).len(),
    ensures
        rows(t, factor, i).len() + k < rows(t, factor, m).len(),
        rows(t, factor, m)[rows(t, factor, i).len() + k] == row_cells(
            t,
            i as int,
            (factor - i) as nat,
        )[k],
    decreases m,
{
    if i < m - 1 {
        lemma_rows_at(t, factor, (m - 1) as nat, i, k);
    }
}

proof fn lemma_subdivision_at(count: nat, factor: nat, t: nat, k: int)
    requires
        t < count,
        0 <= k < rows(t as int, factor, factor).len(),
    ensures
        subdivision(t, factor).len() + k < subdivision(count, factor).len(),
        subdivision(count, factor)[subdivision(t, factor).len() + k] == rows(
            t as int,
            factor,
            factor,
        )[k],
    decreases count,
{
    if t < count - 1 {
        lemma_subdivision_at((count - 1) as nat, factor, t, k);
    }
}

/// Every cell of the lattice is in the subdivision, at a place of its own:
/// vertex `c` of the triangles of cell `(i, j)` of triangle `t` is the
/// vertex `cell_offset(factor, t, i, j) + c` of the subdivision.
pub proof fn lemma_subdivision_cell(count: nat, factor: nat, t: int, i: int, j: int, c: int)
    requires
        0 <= t < count,
        0 <= i,
        0 <= j,
        i + j < factor,
        0 <= c < cell(t, i, j).len(),
    ensures
        cell_offset(factor, t, i, j) + c < subdivision(count, factor).len(),
        subdivision(count, factor)[cell_offset(factor, t, i, j) + c] == cell(t, i, j)[c],
{
    let in_row = row_cells(t, i, j as nat).len() + c;
    lemma_row_cells_at(t, i, (factor - i) as nat, j as nat, c);
    lemma_row_cells_len(t, i, j as nat);
    let in_triangle = rows(t, factor, i as nat).len() + in_row;
    lemma_rows_at(t, factor, factor, i as nat, in_row);
    lemma_rows_len(t, factor, i as nat);
    lemma_subdivision_at(count, factor, t as nat, in_triangle);
    lemma_subdivision_len(t as nat, factor);
    assert(subdivision(t as nat, factor).len() + in_triangle == cell_offset(factor, t, i, j) + c);
}

} // verus!

use mesh_geometry::triangulation::Triangulation;

fn centroid(c: &[[f32; 3]], t: &[usize; 3]) -> [f32; 3] {
    [
        (c[t[0]][0] + c[t[1]][0] + c[t[2]][0]) / 3.0,
        (c[t[0]][1] + c[t[1]][1] + c[t[2]][1]) / 3.0,
        (c[t[0]][2] + c[t[1]][2] + c[t[2]][2]) / 3.0,
    ]
}

fn distance(a: [f32; 3], b: [f32; 3]) -> f32 {
    ((a[0] - b[0]).powi(2) + (a[1] - b[1]).powi(2) + (a[2] - b[2]).powi(2)).sqrt()
}

fn is_bad(c: &[[f32; 3]], t: &[usize; 3], p: usize) -> bool {
    let g = centroid(c, t);
    distance(g, c[p]) < distance(g, c[t[0]])
}

fn with_super_triangle(points: &[[f32; 3]]) -> Vec<[f32; 3]> {
    let mut lo = points[0];
    let mut hi = points[0];
    for p in points {
        for k in 0..3 {
            lo[k] = lo[k].min(p[k]);
            hi[k] = hi[k].max(p[k]);
        }
    }
    for k in 0..3 {
        lo[k] -= 1.0;
        hi[k] += 1.0;
    }
    let span = (hi[0] - lo[0]).max(hi[1] - lo[1]);
    let z = (lo[2] + hi[2]) / 2.0;
    let mut all = points.to_vec();
    all.push([lo[0], lo[1], z]);
    all.push([lo[0] + 2.0 * span, lo[1], z]);
    all.push([lo[0], lo[1] + 2.0 * span, z]);
    all
}

fn triangulate(points: &[[f32; 3]]) -> Vec<[usize; 3]> {
    let all = with_super_triangle(points);
    let mut t = Triangulation::new(points.len());
    while let Some(p) = t.pending() {
        let bad: Vec<bool> = t.triangles().iter().map(|tri| is_bad(&all, tri, p)).collect();
        assert!(t.insert(&bad));
    }
    t.finish()
}

#[test]
fn starts_with_the_super_triangle() {
    let t = Triangulation::new(4);
    assert_eq!(t.triangles(), &vec![[4, 5, 6]]);
    assert_eq!(t.pending(), Some(0));
    assert_eq!(t.finish(), Vec::<[usize; 3]>::new());
}

#[test]
fn first_point_splits_the_super_triangle() {
    let mut t = Triangulation::new(2);
    assert!(t.insert(&vec![true]));
    assert_eq!(t.triangles(), &vec![[0, 2, 3], [0, 3, 4], [0, 4, 2]]);
    assert_eq!(t.pending(), Some(1));
}

#[test]
fn triangles_that_are_not_bad_stay_first() {
    let mut t = Triangulation::new(2);
    t.insert(&vec![true]);
    assert!(t.insert(&vec![false, true, false]));
    assert_eq!(
        t.triangles(),
        &vec![[0, 2, 3], [0, 4, 2], [1, 0, 3], [1, 3, 4], [1, 4, 0]]
    );
    assert_eq!(t.pending(), None);
}

#[test]
fn edge_between_two_bad_triangles_is_no_boundary() {
    let mut t = Triangulation::new(2);
    t.insert(&vec![true]);
    t.insert(&vec![true, true, false]);
    assert_eq!(
        t.triangles(),
        &vec![[0, 4, 2], [1, 0, 2], [1, 2, 3], [1, 3, 4], [1, 4, 0]]
    );
}

#[test]
fn missing_flags_mean_not_bad() {
    let mut t = Triangulation::new(3);
    t.insert(&vec![true]);
    let before = t.triangles().clone();
    assert!(t.insert(&vec![]));
    assert_eq!(t.triangles(), &before);
    assert!(t.insert(&vec![false, false, true, true, true]));
    assert_eq!(t.triangles(), &vec![[0, 3, 4], [0, 4, 5], [2, 0, 5], [2, 5, 3], [2, 3, 0]]);
}

#[test]
fn nothing_is_inserted_after_the_last_point() {
    let mut t = Triangulation::new(1);
    assert!(t.insert(&vec![true]));
    let before = t.triangles().clone();
    assert_eq!(t.pending(), None);
    assert!(!t.insert(&vec![true, true, true]));
    assert_eq!(t.triangles(), &before);
}

#[test]
fn finish_drops_what_touches_the_super_triangle() {
    let mut t = Triangulation::new(3);
    t.insert(&vec![true]);
    t.insert(&vec![true, false, false]);
    t.insert(&vec![false, false, true, false, false]);
    for tri in t.finish() {
        assert!(tri.iter().all(|c| *c < 3));
    }
    assert_eq!(t.finish(), vec![[2, 1, 0]]);
}

#[test]
fn square_is_covered_without_the_super_triangle() {
    let points = [[0.0, 0.0, 0.0], [1.0, 0.0, 0.0], [1.0, 1.0, 0.0], [0.0, 1.0, 0.0]];
    let out = triangulate(&points);
    assert!(!out.is_empty());
    for tri in &out {
        for c in tri {
            assert!(*c < points.len());
        }
    }
    for p in 0..points.len() {
        assert!(out.iter().any(|tri| tri.contains(&p)), "point {} is in no triangle", p);
    }
    assert_eq!(out, vec![[2, 0, 1], [3, 0, 2]]);
}

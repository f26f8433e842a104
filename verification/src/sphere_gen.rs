//! Starting shapes for sphere meshes.
//!
//! Coordinates are whole numbers of millionths: the point written
//! `(0, -525731, 850651)` lies at `(0.0, -0.525731, 0.850651)`.

use vstd::prelude::*;

verus! {

/// The corner table of the icosahedron. Row 0 is the origin, which no face
/// uses; rows 1 to 12 are the twelve corners.
pub open spec fn icosahedron_points() -> Seq<[i32; 3]> {
    seq![
        [0i32, 0i32, 0i32],
        [0i32, -525731i32, 850651i32],
        [850651i32, 0i32, 525731i32],
        [850651i32, 0i32, -525731i32],
        [-850651i32, 0i32, -525731i32],
        [-850651i32, 0i32, 525731i32],
        [-525731i32, 850651i32, 0i32],
        [525731i32, 850651i32, 0i32],
        [525731i32, -850651i32, 0i32],
        [-525731i32, -850651i32, 0i32],
        [0i32, -525731i32, -850651i32],
        [0i32, 525731i32, -850651i32],
        [0i32, 525731i32, 850651i32],
    ]
}

/// The twenty faces of the icosahedron, each by the rows of its corners.
pub open spec fn icosahedron_corners() -> Seq<[usize; 3]> {
    seq![
        [2usize, 3usize, 7usize],
        [2usize, 8usize, 3usize],
        [4usize, 5usize, 6usize],
        [5usize, 4usize, 9usize],
        [7usize, 6usize, 12usize],
        [6usize, 7usize, 11usize],
        [10usize, 11usize, 3usize],
        [11usize, 10usize, 4usize],
        [8usize, 9usize, 10usize],
        [9usize, 8usize, 1usize],
        [12usize, 1usize, 2usize],
        [1usize, 12usize, 5usize],
        [7usize, 3usize, 11usize],
        [2usize, 7usize, 12usize],
        [4usize, 6usize, 11usize],
        [6usize, 5usize, 12usize],
        [3usize, 8usize, 10usize],
        [8usize, 2usize, 1usize],
        [4usize, 10usize, 9usize],
        [5usize, 9usize, 1usize],
    ]
}

/// Face `k` of the icosahedron: the three corner points that its row of the
/// face table selects.
pub open spec fn icosahedron_face(k: int) -> [[i32; 3]; 3] {
    let c = icosahedron_corners()[k];
    [
        icosahedron_points()[c[0] as int],
        icosahedron_points()[c[1] as int],
        icosahedron_points()[c[2] as int],
    ]
}

/// The icosahedron as a list of twenty triangles.
pub open spec fn icosahedron_faces() -> Seq<[[i32; 3]; 3]> {
    Seq::new(20, |k: int| icosahedron_face(k))
}

/// The twenty triangles of an icosahedron inscribed in the unit sphere,
/// corner coordinates in millionths.
pub fn icosahedron() -> (faces: Vec<[[i32; 3]; 3]>)
    ensures
        faces@ == icosahedron_faces(),
{
    let pts: [[i32; 3]; 13] = [
        [0, 0, 0],
        [0, -525731, 850651],
        [850651, 0, 525731],
        [850651, 0, -525731],
        [-850651, 0, -525731],
        [-850651, 0, 525731],
        [-525731, 850651, 0],
        [525731, 850651, 0],
        [525731, -850651, 0],
        [-525731, -850651, 0],
        [0, -525731, -850651],
        [0, 525731, -850651],
        [0, 525731, 850651],
    ];
    let corners: [[usize; 3]; 20] = [
        [2, 3, 7],
        [2, 8, 3],
        [4, 5, 6],
        [5, 4, 9],
        [7, 6, 12],
        [6, 7, 11],
        [10, 11, 3],
        [11, 10, 4],
        [8, 9, 10],
        [9, 8, 1],
        [12, 1, 2],
        [1, 12, 5],
        [7, 3, 11],
        [2, 7, 12],
        [4, 6, 11],
        [6, 5, 12],
        [3, 8, 10],
        [8, 2, 1],
        [4, 10, 9],
        [5, 9, 1],
    ];
    let mut faces: Vec<[[i32; 3]; 3]> = Vec::new();
    let mut k: usize = 0;
    while k < 20
        invariant
            k <= 20,
            pts@ == icosahedron_points(),
            corners@ == icosahedron_corners(),
            faces@ == icosahedron_faces().take(k as int),
        decreases 20 - k,
    {
        let c = corners[k];
        let face = [pts[c[0]], pts[c[1]], pts[c[2]]];
        faces.push(face);
        k = k + 1;
    }
    faces
}

/// The sphere mesh after `subdivisions` refinements. No refinement is
/// applied: every count gives the icosahedron itself.
pub fn icosphere(subdivisions: usize) -> (faces: Vec<[[i32; 3]; 3]>)
    ensures
        faces@ == icosahedron_faces(),
{
    icosahedron()
}

} // verus!

//! The vertex value type and the errors of the mesh operators.

use vstd::prelude::*;

verus! {

/// Bit pattern of the scalar `1.0`.
pub const ONE_BITS: u32 = 0x3f80_0000;

/// Bit pattern of the scalar `0.0`.
pub const ZERO_BITS: u32 = 0;

/// Why a mesh operation was refused.
#[derive(Copy, Clone, Debug, PartialEq, Eq, Structural)]
pub enum MeshError {
    /// A numeric field of a `v`, `vn` or `vt` line has no value.
    NumericFormat,
    /// The vertices do not group into whole triangles.
    MalformedMesh,
    /// Subdivision into zero parts was asked for.
    ZeroFactor,
    /// The values handed in do not number one per vertex, or one per
    /// triangle, as the operation asks.
    ValueCount,
}

/// One corner of a triangle: a homogeneous position, a homogeneous normal
/// and a texture coordinate, every component a scalar bit pattern.
#[derive(Copy, Clone, Debug, PartialEq, Eq)]
pub struct TexturedVertex {
    pub position: [u32; 4],
    pub normal: [u32; 4],
    pub uv: [u32; 3],
}

impl TexturedVertex {
    /// The vertex with these attributes.
    pub fn new(position: [u32; 4], normal: [u32; 4], uv: [u32; 3]) -> (v: TexturedVertex)
        ensures
            v == (TexturedVertex { position, normal, uv }),
    {
        TexturedVertex { position, normal, uv }
    }

    /// Combines two vertices slot by slot: component `i` of each attribute of
    /// the result is one outcome of `op` on component `i` of the same
    /// attribute of `self` and `other`, and on nothing else.
    pub fn zip_with<F: Fn(u32, u32) -> u32>(&self, other: &TexturedVertex, op: F) -> (r:
        TexturedVertex)
        requires
            forall|i: int| 0 <= i < 4 ==> call_requires(op, (self.position[i], other.position[i])),
            forall|i: int| 0 <= i < 4 ==> call_requires(op, (self.normal[i], other.normal[i])),
            forall|i: int| 0 <= i < 3 ==> call_requires(op, (self.uv[i], other.uv[i])),
        ensures
            forall|i: int|
                0 <= i < 4 ==> call_ensures(
                    op,
                    (self.position[i], other.position[i]),
                    #[trigger] r.position[i],
                ),
            forall|i: int|
                0 <= i < 4 ==> call_ensures(
                    op,
                    (self.normal[i], other.normal[i]),
                    #[trigger] r.normal[i],
                ),
            forall|i: int|
                0 <= i < 3 ==> call_ensures(op, (self.uv[i], other.uv[i]), #[trigger] r.uv[i]),
    {
        let position = [
            op(self.position[0], other.position[0]),
            op(self.position[1], other.position[1]),
            op(self.position[2], other.position[2]),
            op(self.position[3], other.position[3]),
        ];
        let normal = [
            op(self.normal[0], other.normal[0]),
            op(self.normal[1], other.normal[1]),
            op(self.normal[2], other.normal[2]),
            op(self.normal[3], other.normal[3]),
        ];
        let uv = [
            op(self.uv[0], other.uv[0]),
            op(self.uv[1], other.uv[1]),
            op(self.uv[2], other.uv[2]),
        ];
        TexturedVertex { position, normal, uv }
    }

    /// Transforms a vertex slot by slot: component `i` of each attribute of
    /// the result is one outcome of `op` on component `i` of the same
    /// attribute of `self`.
    pub fn map<F: Fn(u32) -> u32>(&self, op: F) -> (r: TexturedVertex)
        requires
            forall|i: int| 0 <= i < 4 ==> call_requires(op, (self.position[i],)),
            forall|i: int| 0 <= i < 4 ==> call_requires(op, (self.normal[i],)),
            forall|i: int| 0 <= i < 3 ==> call_requires(op, (self.uv[i],)),
        ensures
            forall|i: int|
                0 <= i < 4 ==> call_ensures(op, (self.position[i],), #[trigger] r.position[i]),
            forall|i: int|
                0 <= i < 4 ==> call_ensures(op, (self.normal[i],), #[trigger] r.normal[i]),
            forall|i: int| 0 <= i < 3 ==> call_ensures(op, (self.uv[i],), #[trigger] r.uv[i]),
    {
        let position = [
            op(self.position[0]),
            op(self.position[1]),
            op(self.position[2]),
            op(self.position[3]),
        ];
        let normal = [op(self.normal[0]), op(self.normal[1]), op(self.normal[2]), op(self.normal[3])];
        let uv = [op(self.uv[0]), op(self.uv[1]), op(self.uv[2])];
        TexturedVertex { position, normal, uv }
    }
}

} // verus!

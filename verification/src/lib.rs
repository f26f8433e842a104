//! Verified core of a procedural triangle-mesh pipeline.
//!
//! A mesh is a flat list of vertices, three per triangle. The crate parses
//! model documents into meshes, plans the subdivision of triangles, assembles
//! the results of the per-vertex and per-triangle operators, and keeps the
//! triangle list of an incremental triangulation.
//!
//! Scalars are carried as IEEE-754 single-precision bit patterns (`u32`).
//! The crate selects, copies and arranges them; it never does arithmetic on
//! them. Callers compute every numeric value and hand it in.
//!
//! - `types`: the vertex and the errors
//! - `scan`: lines and whitespace-separated fields
//! - `obj_format`: what a model document means
//! - `obj_reader`: reading one line of it
//! - `lattice`: the lattice of a subdivided triangle
//! - `obj_tools`: the parser and the mesh operators
//! - `sphere_gen`: the icosahedron
//! - `triangulation`: incremental triangulation by corner indices

pub mod lattice;
pub mod obj_format;
pub mod obj_reader;
pub mod obj_tools;
pub mod scan;
pub mod sphere_gen;
pub mod triangulation;
pub mod types;

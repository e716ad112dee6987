//! Array-based half-edge mesh library for two-dimensional CFD preprocessing.
//!
//! The mesh topology (vertices, twin/next/prev links, parents) lives in
//! parallel arrays indexed by strong index newtypes.  A `Modifiable2DMesh`
//! supports the topology edits (edge split, trimming, notching, edge swap),
//! `validate_topology` checks the integrity invariants and freezes the mesh
//! into a `Safe2DMesh`, and `Computational2DMesh` derives the face/cell view
//! consumed by finite-volume solvers.
//!
//! Vertex coordinates are carried as opaque [`scalar::Scalar`] values; the
//! numeric kernel that interprets them is a caller concern, so every function
//! in this crate is pure index arithmetic and fully specified.

pub mod boundary;
pub mod error;
pub mod errors;
pub mod indices;
pub mod mesh;
pub mod scalar;

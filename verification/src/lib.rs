//! An exact 3D vector geometry toolkit: a three-component vector type over
//! exact rational scalars, with line segments, triangles, and triangle
//! surfaces (outward normals) derived from it.
//!
//! Every operation is exact: arithmetic is rational arithmetic, equality is
//! value equality of rationals, and square roots are taken only where they
//! exist exactly. Fallible operations (division, normalization, surface
//! extraction) report a [`error::GeometryError`] instead of panicking.

pub mod error;
pub mod line;
pub mod rational;
pub mod triangle;
pub mod vec3d;

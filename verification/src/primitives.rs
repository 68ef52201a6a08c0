//! The index lists of the meshes of a cuboid and of a sphere. Where the
//! vertices lie is for the caller to compute; which of them form a triangle
//! is decided here.

pub mod cuboid;
pub mod sphere;

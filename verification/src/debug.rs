//! Helpers for drawing a mesh as lines.

pub mod wireframe;

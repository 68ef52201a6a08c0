//! Collision detection for axis-aligned boxes and spheres on an integer
//! grid, with the index lists of the meshes that show them.
//!
//! Coordinates are whole numbers of grid units, so every test is exact: no
//! rounding, and no overflow that is not ruled out by a contract. A caller
//! that measures in floats brings each number onto the grid with
//! [`units::to_units`], which keeps the order of the numbers and is exact
//! for whole numbers of units.
//!
//! [`collision`] holds the colliders, the tests between them and the scan of
//! one collider against a set; `collision::laws` states what holds of the
//! tests for all inputs.

pub mod vector;
pub mod collision;
pub mod gui;
pub mod primitives;
pub mod debug;
pub mod vertex;
pub mod units;

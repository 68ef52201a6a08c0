//! The state of each overlay window.

pub mod stats;

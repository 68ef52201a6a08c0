//! What the overlay windows hold, apart from how they are drawn.

pub mod windows;

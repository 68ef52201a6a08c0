//! The window that shows how many instances are drawn.

use vstd::prelude::*;

verus! {

/// Tells the stats window how many instances there are now.
#[derive(Clone, Copy, Debug, PartialEq, Eq)]
pub struct StatsEvent {
    pub num_instances: u32,
}

/// The number that the stats window shows.
#[derive(Clone, Copy, Debug, PartialEq, Eq)]
pub struct StatsWindow {
    pub num_instances: u32,
}

impl StatsWindow {
    /// A window that shows no instances yet.
    pub fn new() -> (window: Self)
        ensures
            window.num_instances == 0,
    {
        Self { num_instances: 0 }
    }

    /// Takes over the number that the event brings.
    pub fn update(&mut self, event: &StatsEvent)
        ensures
            final(self).num_instances == event.num_instances,
    {
        self.num_instances = event.num_instances;
    }
}

} // verus!

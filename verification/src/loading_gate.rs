//! The single-flight guard: at most one fetch round may be in flight.

use vstd::prelude::*;

verus! {

/// A boolean guard that is set while a fetch round is in flight.
#[derive(Debug)]
pub struct LoadingGate {
    in_flight: bool,
}

impl LoadingGate {
    /// Whether a round is in flight.
    pub closed spec fn is_set(&self) -> bool {
        self.in_flight
    }

    /// A clear gate.
    pub fn new() -> (gate: LoadingGate)
        ensures
            !gate.is_set(),
    {
        LoadingGate { in_flight: false }
    }

    /// Reports whether a round is in flight.
    pub fn is_loading(&self) -> (set: bool)
        ensures
            set == self.is_set(),
    {
        self.in_flight
    }

    /// Sets the guard if it is clear. Returns whether this call set it; it is
    /// set afterwards either way.
    pub fn try_acquire(&mut self) -> (acquired: bool)
        ensures
            acquired == !old(self).is_set(),
            final(self).is_set(),
    {
        if self.in_flight {
            false
        } else {
            self.in_flight = true;
            true
        }
    }

    /// Clears the guard.
    pub fn release(&mut self)
        ensures
            !final(self).is_set(),
    {
        self.in_flight = false;
    }
}

} // verus!

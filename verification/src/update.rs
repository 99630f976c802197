//! The set of refresh requests a widget hands back to the application.

use vstd::prelude::*;

verus! {

/// Re-evaluate the application state.
pub const UPDATE_EVAL: u32 = 1;
/// Recompute the layout.
pub const UPDATE_LAYOUT: u32 = 2;
/// Redraw.
pub const UPDATE_DRAW: u32 = 4;
/// Rebuild everything, layout tree included.
pub const UPDATE_FORCE: u32 = 8;

/// A set of update requests, one bit per kind.
#[derive(Clone, Copy, PartialEq, Eq, Structural, Debug)]
pub struct Update {
    pub bits: u32,
}

impl Update {
    /// No request.
    pub fn empty() -> (r: Update)
        ensures
            r.bits == 0,
    {
        Update { bits: 0 }
    }

    /// A redraw request.
    pub fn draw() -> (r: Update)
        ensures
            r.bits == UPDATE_DRAW,
    {
        Update { bits: UPDATE_DRAW }
    }

    /// A layout request.
    pub fn layout() -> (r: Update)
        ensures
            r.bits == UPDATE_LAYOUT,
    {
        Update { bits: UPDATE_LAYOUT }
    }

    /// A forced rebuild request.
    pub fn force() -> (r: Update)
        ensures
            r.bits == UPDATE_FORCE,
    {
        Update { bits: UPDATE_FORCE }
    }

    /// The requests of both sets (`a | b`).
    pub fn union(self, other: Update) -> (r: Update)
        ensures
            r.bits == self.bits | other.bits,
    {
        Update { bits: self.bits | other.bits }
    }

    /// Adds the requests of `other` (`a |= b`).
    pub fn insert(&mut self, other: Update)
        ensures
            final(self).bits == old(self).bits | other.bits,
    {
        self.bits = self.bits | other.bits;
    }

    /// Whether every request of `other` is in this set.
    pub fn contains(self, other: Update) -> (r: bool)
        ensures
            r == (self.bits & other.bits == other.bits),
    {
        self.bits & other.bits == other.bits
    }
}

} // verus!

//! The ways in which the simulation can be used wrongly.

use vstd::prelude::*;

verus! {

/// A fault in the use of the store or of a game. Collisions, eating and
/// growth are no faults: they are signalled by events.
#[derive(Clone, Copy, PartialEq, Eq, Structural, Debug)]
pub enum GameError {
    /// A handle names no live entity: it was never given out, or its entity
    /// has been destroyed.
    NotFound,
    /// The entities and the registry do not form a game, as when there is
    /// no head.
    InvariantViolation,
}

} // verus!

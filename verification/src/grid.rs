//! The arena and the discrete positions inside it.

use vstd::prelude::*;

verus! {

/// Number of columns of the arena.
pub const ARENA_WIDTH: u32 = 10;

/// Number of rows of the arena.
pub const ARENA_HEIGHT: u32 = 10;

/// A cell of the grid. Equality is by value.
#[derive(Clone, Copy, PartialEq, Eq, Structural, Debug)]
pub struct Position {
    pub x: i32,
    pub y: i32,
}

/// Whether `p` lies inside the arena.
pub open spec fn in_bounds_spec(p: Position) -> bool {
    0 <= p.x < ARENA_WIDTH && 0 <= p.y < ARENA_HEIGHT
}

/// Tells whether `p` lies inside the arena.
pub fn in_bounds(p: Position) -> (inside: bool)
    ensures
        inside == in_bounds_spec(p),
{
    0 <= p.x && p.x < ARENA_WIDTH as i32 && 0 <= p.y && p.y < ARENA_HEIGHT as i32
}

} // verus!

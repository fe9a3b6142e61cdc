//! Headings of the snake and the rule that turns pressed keys into a heading.

use vstd::prelude::*;
use crate::grid::Position;

verus! {

/// One of the four directions of travel on the grid.
#[derive(Clone, Copy, PartialEq, Eq, Structural, Debug)]
pub enum Direction {
    Left,
    Up,
    Right,
    Down,
}

/// The directional keys that are held down at one input sample.
#[derive(Clone, Copy, PartialEq, Eq, Structural, Debug)]
pub struct PressedKeys {
    pub left: bool,
    pub right: bool,
    pub down: bool,
    pub up: bool,
}

impl Direction {
    /// The direction that points the other way: left and right are a pair,
    /// and so are up and down.
    pub open spec fn opposite_spec(self) -> Direction {
        match self {
            Direction::Left => Direction::Right,
            Direction::Right => Direction::Left,
            Direction::Up => Direction::Down,
            Direction::Down => Direction::Up,
        }
    }

    /// Change of the x coordinate that one step in this direction makes.
    pub open spec fn dx(self) -> int {
        match self {
            Direction::Left => -1,
            Direction::Right => 1,
            Direction::Up => 0,
            Direction::Down => 0,
        }
    }

    /// Change of the y coordinate that one step in this direction makes.
    pub open spec fn dy(self) -> int {
        match self {
            Direction::Left => 0,
            Direction::Right => 0,
            Direction::Up => 1,
            Direction::Down => -1,
        }
    }

    /// Whether a step from `p` in this direction stays within the range of
    /// the coordinates' machine type.
    pub open spec fn can_step(self, p: Position) -> bool {
        &&& i32::MIN <= p.x + self.dx() <= i32::MAX
        &&& i32::MIN <= p.y + self.dy() <= i32::MAX
    }

    /// The cell that lies one unit step from `p` in this direction.
    pub open spec fn step_spec(self, p: Position) -> Position {
        Position { x: (p.x + self.dx()) as i32, y: (p.y + self.dy()) as i32 }
    }

    #[verifier::when_used_as_spec(opposite_spec)]
    pub fn opposite(self) -> (back: Direction)
        ensures
            back == self.opposite_spec(),
    {
        match self {
            Direction::Left => Direction::Right,
            Direction::Right => Direction::Left,
            Direction::Up => Direction::Down,
            Direction::Down => Direction::Up,
        }
    }

    /// Moves `p` by one unit step in this direction.
    pub fn step(self, p: Position) -> (next: Position)
        requires
            self.can_step(p),
        ensures
            next == self.step_spec(p),
            next.x == p.x + self.dx(),
            next.y == p.y + self.dy(),
    {
        match self {
            Direction::Left => Position { x: p.x - 1, y: p.y },
            Direction::Right => Position { x: p.x + 1, y: p.y },
            Direction::Down => Position { x: p.x, y: p.y - 1 },
            Direction::Up => Position { x: p.x, y: p.y + 1 },
        }
    }
}

/// The direction that the pressed keys ask for. The keys are looked at in the
/// order left, right, down, up, and a later key overrides an earlier one; with
/// no key pressed the current heading is asked for again.
pub open spec fn candidate_spec(current: Direction, keys: PressedKeys) -> Direction {
    if keys.up {
        Direction::Up
    } else if keys.down {
        Direction::Down
    } else if keys.right {
        Direction::Right
    } else if keys.left {
        Direction::Left
    } else {
        current
    }
}

/// The heading after a candidate has been considered: the candidate, unless
/// it would reverse the current heading.
pub open spec fn resolve_spec(current: Direction, candidate: Direction) -> Direction {
    if candidate != current.opposite_spec() {
        candidate
    } else {
        current
    }
}

/// Derives the candidate direction from the pressed keys.
pub fn candidate_direction(current: Direction, keys: PressedKeys) -> (candidate: Direction)
    ensures
        candidate == candidate_spec(current, keys),
{
    let mut dir = current;
    if keys.left {
        dir = Direction::Left;
    }
    if keys.right {
        dir = Direction::Right;
    }
    if keys.down {
        dir = Direction::Down;
    }
    if keys.up {
        dir = Direction::Up;
    }
    dir
}

/// Applies a candidate direction to the current heading, rejecting a reversal.
pub fn resolve_heading(current: Direction, candidate: Direction) -> (heading: Direction)
    ensures
        heading == resolve_spec(current, candidate),
{
    if candidate != current.opposite() {
        candidate
    } else {
        current
    }
}

/// A candidate that reverses the current heading leaves the heading as it is.
pub proof fn lemma_reversal_is_rejected(current: Direction, candidate: Direction)
    requires
        candidate == current.opposite_spec(),
    ensures
        resolve_spec(current, candidate) == current,
{
}

/// Whatever the candidate, the resolved heading never reverses the current one.
pub proof fn lemma_resolved_never_reverses(current: Direction, candidate: Direction)
    ensures
        resolve_spec(current, candidate) != current.opposite_spec(),
{
}

/// Taking the opposite twice gives the direction back, and no direction is
/// its own opposite.
pub proof fn lemma_opposite_involution(d: Direction)
    ensures
        d.opposite_spec().opposite_spec() == d,
        d.opposite_spec() != d,
{
}

/// A step changes exactly one coordinate, and that one by exactly one, in the
/// sense of the direction.
pub proof fn lemma_step_is_unit(d: Direction, p: Position)
    requires
        d.can_step(p),
    ensures
        d.step_spec(p).x - p.x == d.dx(),
        d.step_spec(p).y - p.y == d.dy(),
        (d.dx() == 0) != (d.dy() == 0),
        d.dx() == 0 ==> d.dy() == 1 || d.dy() == -1,
        d.dy() == 0 ==> d.dx() == 1 || d.dx() == -1,
        d.step_spec(p) != p,
{
}

} // verus!

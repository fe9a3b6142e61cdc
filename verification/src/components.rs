//! The data that can be attached to an entity: its identity, its role, its
//! position and its footprint.

use vstd::prelude::*;
use crate::direction::Direction;
use crate::grid::Position;

verus! {

/// Stable handle of an entity. A handle is never given out twice by one store.
#[derive(Clone, Copy, PartialEq, Eq, Structural, Debug)]
pub struct EntityId(pub u64);

/// Footprint of an entity relative to one grid cell, in hundredths of the
/// cell's extent. It scales the entity on screen and has no effect on play.
#[derive(Clone, Copy, PartialEq, Eq, Structural, Debug)]
pub struct Size {
    pub width: u32,
    pub height: u32,
}

impl Size {
    /// A footprint is meaningful when it is not empty and does not exceed
    /// the cell.
    pub open spec fn is_valid(self) -> bool {
        0 < self.width <= 100 && 0 < self.height <= 100
    }

    /// A footprint with the same extent `x` on both axes.
    pub fn square(x: u32) -> (size: Size)
        ensures
            size.width == x,
            size.height == x,
            size.is_valid() <==> 0 < x <= 100,
    {
        Size { width: x, height: x }
    }
}

/// What an entity is. The head carries the snake's heading.
#[derive(Clone, Copy, PartialEq, Eq, Structural, Debug)]
pub enum Kind {
    SnakeHead { direction: Direction },
    SnakeSegment,
    Food,
}

/// A role by which entities are looked up. The head has both the head's and
/// the segment's role.
#[derive(Clone, Copy, PartialEq, Eq, Structural, Debug)]
pub enum Tag {
    SnakeHead,
    SnakeSegment,
    Food,
}

impl Kind {
    /// Whether an entity of this kind carries the role `tag`.
    pub open spec fn has_tag_spec(self, tag: Tag) -> bool {
        match tag {
            Tag::SnakeHead => self is SnakeHead,
            Tag::SnakeSegment => !(self is Food),
            Tag::Food => self is Food,
        }
    }

    /// The heading that a head carries; nothing for the other kinds.
    pub open spec fn heading_spec(self) -> Option<Direction> {
        match self {
            Kind::SnakeHead { direction } => Some(direction),
            _ => None,
        }
    }

    #[verifier::when_used_as_spec(heading_spec)]
    pub fn heading(self) -> (heading: Option<Direction>)
        ensures
            heading == self.heading_spec(),
    {
        match self {
            Kind::SnakeHead { direction } => Some(direction),
            _ => None,
        }
    }

    #[verifier::when_used_as_spec(has_tag_spec)]
    pub fn has_tag(self, tag: Tag) -> (has: bool)
        ensures
            has == self.has_tag_spec(tag),
    {
        match tag {
            Tag::SnakeHead => match self {
                Kind::SnakeHead { .. } => true,
                _ => false,
            },
            Tag::SnakeSegment => match self {
                Kind::Food => false,
                _ => true,
            },
            Tag::Food => match self {
                Kind::Food => true,
                _ => false,
            },
        }
    }
}

/// An entity with everything that is attached to it.
#[derive(Clone, Copy, PartialEq, Eq, Structural, Debug)]
pub struct Entity {
    pub id: EntityId,
    pub kind: Kind,
    pub position: Position,
    pub size: Size,
}

} // verus!

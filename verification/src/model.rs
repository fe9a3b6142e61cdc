//! The rules of the game as a mathematical model: what a game looks like from
//! outside, and how each stage of a tick changes it.

use vstd::prelude::*;
use crate::components::EntityId;
use crate::direction::{candidate_spec, resolve_spec, Direction, PressedKeys};
use crate::grid::{in_bounds_spec, Position};

verus! {

/// What can be observed of a game: the heading, the positions of the snake's
/// segments from head to tail, the food on the grid by handle, and the
/// position that the tail held before the last move.
pub ghost struct GameView {
    pub heading: Direction,
    pub segments: Seq<Position>,
    pub food: Map<EntityId, Position>,
    pub last_tail: Option<Position>,
}

/// The positions of the snake at startup and after every reset.
pub open spec fn start_segments() -> Seq<Position> {
    seq![Position { x: 3, y: 3 }, Position { x: 3, y: 2 }]
}

impl GameView {
    /// The position of the head.
    pub open spec fn head(self) -> Position {
        self.segments[0]
    }

    /// Every segment and every food item lies inside the arena.
    pub open spec fn settled(self) -> bool {
        &&& forall|i: int| 0 <= i < self.segments.len() ==> in_bounds_spec(#[trigger] self.segments[i])
        &&& forall|id: EntityId| #[trigger]
            self.food.contains_key(id) ==> in_bounds_spec(self.food[id])
    }

    /// The startup state as far as play is concerned: a snake of two
    /// segments that heads up, and no food. The remembered tail position is
    /// scratch data of the move before and is not part of it.
    pub open spec fn is_start(self) -> bool {
        &&& self.heading == Direction::Up
        &&& self.segments == start_segments()
        &&& self.food == Map::<EntityId, Position>::empty()
    }

    /// Input stage: the heading follows the pressed keys unless that would
    /// reverse it.
    pub open spec fn turned(self, keys: PressedKeys) -> GameView {
        GameView { heading: resolve_spec(self.heading, candidate_spec(self.heading, keys)), ..self }
    }

    /// Where the head goes at the next move.
    pub open spec fn next_head(self) -> Position {
        self.heading.step_spec(self.head())
    }

    /// The next move takes the head out of the arena.
    pub open spec fn hits_wall(self) -> bool {
        !in_bounds_spec(self.next_head())
    }

    /// The next move takes the head onto a cell that a segment holds before
    /// the move.
    pub open spec fn hits_self(self) -> bool {
        self.segments.contains(self.next_head())
    }

    /// The number of game-over signals that the next move sends: one for the
    /// wall and one for the snake itself.
    pub open spec fn collisions(self) -> nat {
        let wall: nat = if self.hits_wall() { 1 } else { 0 };
        let body: nat = if self.hits_self() { 1 } else { 0 };
        wall + body
    }

    /// Movement stage: the head takes one step, every other segment takes the
    /// place that its predecessor held, and the place that the tail leaves is
    /// remembered.
    pub open spec fn moved(self) -> GameView {
        GameView {
            segments: seq![self.next_head()] + self.segments.drop_last(),
            last_tail: Some(self.segments.last()),
            ..self
        }
    }

    /// The food items that lie under the head.
    pub open spec fn eaten(self) -> Set<EntityId> {
        Set::new(|id: EntityId| self.food.contains_key(id) && self.food[id] == self.head())
    }

    /// Eating stage: the food under the head is gone.
    pub open spec fn fed(self) -> GameView {
        GameView { food: self.food.remove_keys(self.eaten()), ..self }
    }

    /// Growth stage: if anything was eaten, one segment is appended where the
    /// tail was before the move, however many items were eaten.
    pub open spec fn grown(self, any_growth: bool) -> GameView {
        if any_growth {
            GameView { segments: self.segments.push(self.last_tail->0), ..self }
        } else {
            self
        }
    }

    /// Reset stage: after a collision the snake and the food are replaced by
    /// the startup snake.
    pub open spec fn reset(self, any_game_over: bool) -> GameView {
        if any_game_over {
            GameView {
                heading: Direction::Up,
                segments: start_segments(),
                food: Map::empty(),
                last_tail: self.last_tail,
            }
        } else {
            self
        }
    }

    /// A whole tick: movement, eating, growth and reset, in this order.
    pub open spec fn ticked(self) -> GameView {
        let moved = self.moved();
        moved.fed().grown(moved.eaten().len() > 0).reset(self.collisions() > 0)
    }
}

/// A move keeps the number of segments, and a growth stage adds one segment
/// exactly when something was eaten.
pub proof fn lemma_length_after_stages(v: GameView, any_growth: bool)
    requires
        v.segments.len() >= 1,
    ensures
        v.moved().segments.len() == v.segments.len(),
        v.fed().segments.len() == v.segments.len(),
        v.grown(any_growth).segments.len() == v.segments.len() + (if any_growth {
            1nat
        } else {
            0nat
        }),
{
}

/// Over a tick without a collision the snake grows by one segment if the head
/// came to lie on food, and keeps its length otherwise.
pub proof fn lemma_length_after_tick(v: GameView)
    requires
        v.segments.len() >= 1,
        v.collisions() == 0,
    ensures
        v.ticked().segments.len() == v.segments.len() + (if v.moved().eaten().len() > 0 {
            1nat
        } else {
            0nat
        }),
{
}

/// A move takes the head exactly one cell along one axis, in the sense of
/// the heading, and each other segment to the cell before it in the chain.
pub proof fn lemma_move_is_unit_step(v: GameView)
    requires
        v.segments.len() >= 1,
        v.heading.can_step(v.head()),
    ensures
        v.moved().heading == v.heading,
        v.moved().head().x - v.head().x == v.heading.dx(),
        v.moved().head().y - v.head().y == v.heading.dy(),
        (v.heading.dx() == 0) != (v.heading.dy() == 0),
        -1 <= v.heading.dx() <= 1,
        -1 <= v.heading.dy() <= 1,
        forall|i: int| 1 <= i < v.segments.len() ==> v.moved().segments[i] == v.segments[i - 1],
{
}

/// A reset after a collision gives the startup state, and a second reset
/// right after it changes nothing.
pub proof fn lemma_reset_is_idempotent(v: GameView)
    ensures
        v.reset(true).is_start(),
        v.reset(true).reset(true) == v.reset(true),
        v.reset(false) == v,
{
}

/// A tick with a collision ends in the startup state.
pub proof fn lemma_collision_restarts(v: GameView)
    requires
        v.collisions() > 0,
    ensures
        v.ticked().is_start(),
{
}

/// The startup snake lies inside the arena and does not run into anything at
/// its first move.
pub proof fn lemma_start_is_safe(v: GameView)
    requires
        v.is_start(),
    ensures
        v.settled(),
        v.collisions() == 0,
        v.moved().segments == seq![Position { x: 3, y: 4 }, Position { x: 3, y: 3 }],
{
    assert(v.segments[0] == Position { x: 3, y: 3 });
    assert(v.segments[1] == Position { x: 3, y: 2 });
    assert(v.moved().segments =~= seq![Position { x: 3, y: 4 }, Position { x: 3, y: 3 }]);
}

/// In a settled game the head can always take its step, and after a whole
/// tick the game is settled again.
pub proof fn lemma_tick_keeps_settled(v: GameView)
    requires
        v.segments.len() >= 1,
        v.settled(),
    ensures
        v.heading.can_step(v.head()),
        v.ticked().settled(),
{
    let moved = v.moved();
    if v.collisions() == 0 {
        assert(moved.settled()) by {
            assert forall|i: int| 0 <= i < moved.segments.len() implies in_bounds_spec(
                #[trigger] moved.segments[i],
            ) by {
                if i > 0 {
                    assert(moved.segments[i] == v.segments[i - 1]);
                }
            }
        }
        assert(in_bounds_spec(v.segments.last()));
        let fed = moved.fed();
        assert(fed.settled());
        let grown = fed.grown(moved.eaten().len() > 0);
        assert(grown.settled()) by {
            assert forall|i: int| 0 <= i < grown.segments.len() implies in_bounds_spec(
                #[trigger] grown.segments[i],
            ) by {
                if i < fed.segments.len() {
                    assert(grown.segments[i] == fed.segments[i]);
                }
            }
        }
    } else {
        assert(v.ticked().segments[0] == Position { x: 3, y: 3 });
        assert(v.ticked().segments[1] == Position { x: 3, y: 2 });
    }
}

/// In a settled game at most one of the two collisions happens at a move:
/// a cell outside the arena holds no segment.
pub proof fn lemma_one_collision_at_most(v: GameView)
    requires
        v.settled(),
    ensures
        v.collisions() <= 1,
{
    if v.hits_self() {
        let i = choose|i: int| 0 <= i < v.segments.len() && v.segments[i] == v.next_head();
        assert(in_bounds_spec(v.segments[i]));
    }
}

} // verus!

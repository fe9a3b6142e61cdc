//! One tick of the simulation: the stages in their fixed order.

use vstd::prelude::*;
use crate::game::food::{snake_eating, snake_growth};
use crate::game::movement::snake_movement;
use crate::game::reset::game_over;
use crate::game::Game;
use crate::model::lemma_tick_keeps_settled;

verus! {

/// What happened during one tick.
#[derive(Clone, Copy, PartialEq, Eq, Structural, Debug)]
pub struct TickOutcome {
    /// Number of collision signals: one for the wall, one for the snake.
    pub collisions: usize,
    /// Number of food items that the head has eaten.
    pub eaten: usize,
}

/// Runs one tick: movement, then eating, then growth, then the reset. A
/// settled game is settled again afterwards.
pub fn tick(game: &mut Game) -> (outcome: TickOutcome)
    requires
        old(game).wf(),
        old(game)@.settled(),
        old(game).has_room_spec(3),
    ensures
        final(game).wf(),
        final(game)@ == old(game)@.ticked(),
        final(game)@.settled(),
        old(game)@.collisions() == 0 ==> final(game)@.segments.len() == old(game)@.segments.len()
            + (if old(game)@.moved().eaten().len() > 0 {
            1nat
        } else {
            0nat
        }),
        old(game)@.collisions() > 0 ==> final(game)@.is_start(),
        outcome.collisions == old(game)@.collisions(),
        outcome.eaten == old(game)@.moved().eaten().len(),
        old(game).next_id() <= final(game).next_id() <= old(game).next_id() + 3,
{
    proof {
        game.lemma_wf_view();
        lemma_tick_keeps_settled(game@);
    }
    let collisions = snake_movement(game);
    let eaten = snake_eating(game);
    snake_growth(game, &eaten);
    game_over(game, &collisions);
    TickOutcome { collisions: collisions.len(), eaten: eaten.len() }
}

} // verus!

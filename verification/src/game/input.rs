//! The input stage: the pressed keys turn the head.

use vstd::prelude::*;
use crate::components::Kind;
use crate::direction::{candidate_direction, candidate_spec, resolve_heading, PressedKeys};
use crate::game::Game;

verus! {

/// Turns the head as the pressed keys ask, unless that would reverse it.
/// Nothing else changes.
pub fn snake_movement_input(game: &mut Game, keys: PressedKeys)
    requires
        old(game).wf(),
    ensures
        final(game).wf(),
        final(game)@ == old(game)@.turned(keys),
        candidate_spec(old(game)@.heading, keys) == old(game)@.heading.opposite_spec()
            ==> final(game)@.heading == old(game)@.heading,
        final(game)@.heading != old(game)@.heading.opposite_spec(),
        final(game).next_id() == old(game).next_id(),
{
    let head_id = game.segments[0];
    let head = game.store.get(head_id).unwrap();
    let current = head.kind.heading().unwrap();
    let candidate = candidate_direction(current, keys);
    let heading = resolve_heading(current, candidate);
    game.store.set_kind(head_id, Kind::SnakeHead { direction: heading }).unwrap();
    proof {
        let pre = old(game).store@;
        let now = game.store@;
        assert forall|i: int| 1 <= i < game.segments@.len() implies now[#[trigger] game.segments@[i]]
            == pre[game.segments@[i]] by {
            assert(game.segments@[i] != game.segments@[0]);
        }
        assert(game.wf());
        assert(game@.segments =~= old(game)@.segments);
        assert(game@.food =~= old(game)@.food);
    }
}

} // verus!

//! The reset stage: after a collision the game starts over.

use vstd::prelude::*;
use crate::components::{Entity, EntityId, Tag};
use crate::game::{spawn_snake, start_head, start_tail, Game, GameOverEvent};
use crate::grid::Position;
use crate::model::start_segments;
use crate::store::Store;

verus! {

/// Destroys the entities `ids`. A handle that names no live entity is
/// passed over.
pub fn despawn_all(store: &mut Store, ids: &Vec<EntityId>)
    requires
        old(store).wf(),
    ensures
        final(store).wf(),
        final(store).next_id() == old(store).next_id(),
        final(store)@ == old(store)@.remove_keys(ids@.to_set()),
{
    let mut i: usize = 0;
    while i < ids.len()
        invariant
            i <= ids@.len(),
            store.wf(),
            store.next_id() == old(store).next_id(),
            store@ == old(store)@.remove_keys(ids@.take(i as int).to_set()),
        decreases ids@.len() - i,
    {
        let gone = store.despawn(ids[i]);
        proof {
            let done = ids@.take(i as int);
            let next = ids@.take(i + 1);
            assert(next =~= done.push(ids@[i as int]));
            assert(next.to_set() =~= done.to_set().insert(ids@[i as int])) by {
                assert forall|k: EntityId| next.to_set().contains(k) <==> done.to_set().insert(
                    ids@[i as int],
                ).contains(k) by {
                    if next.contains(k) {
                        let j = choose|j: int| 0 <= j < next.len() && next[j] == k;
                        if j < i {
                            assert(done[j] == k);
                        }
                    }
                    if done.contains(k) {
                        let j = choose|j: int| 0 <= j < done.len() && done[j] == k;
                        assert(next[j] == k);
                    }
                    if k == ids@[i as int] {
                        assert(next[i as int] == k);
                    }
                }
            }
            assert(store@ =~= old(store)@.remove_keys(next.to_set()));
        }
        i += 1;
    }
    proof {
        assert(ids@.take(ids@.len() as int) =~= ids@);
    }
}

/// Starts the game over if any signal of a collision has come, however many
/// there are: all food and all segments are destroyed, and the startup snake
/// is created. Without a signal nothing changes.
pub fn game_over(game: &mut Game, events: &Vec<GameOverEvent>)
    requires
        old(game).wf(),
        events@.len() > 0 ==> old(game).has_room_spec(2),
    ensures
        final(game).wf(),
        final(game)@ == old(game)@.reset(events@.len() > 0),
        final(game).next_id() == old(game).next_id() + (if events@.len() > 0 {
            2nat
        } else {
            0nat
        }),
{
    if events.len() > 0 {
        let food = game.store.query(Tag::Food);
        let segments = game.store.query(Tag::SnakeSegment);
        despawn_all(&mut game.store, &food);
        despawn_all(&mut game.store, &segments);
        proof {
            let pre = old(game).store@;
            assert forall|id: EntityId| !game.store@.contains_key(id) by {
                if pre.contains_key(id) {
                    if pre[id].kind is Food {
                        assert(food@.contains(id));
                    } else {
                        assert(segments@.contains(id));
                    }
                }
            }
            assert(game.store@ =~= Map::<EntityId, Entity>::empty());
        }
        game.segments = spawn_snake(&mut game.store);
        proof {
            let head = game.segments@[0];
            let tail = game.segments@[1];
            assert(head != tail);
            assert(game.store@ =~= map![head => start_head(head), tail => start_tail(tail)]);
            assert(game.wf());
            assert(game@.segments =~= start_segments());
            assert(game@.food =~= Map::<EntityId, Position>::empty());
        }
    }
}

} // verus!

//! The movement stage of a tick: the head steps, the body follows, and
//! collisions are reported.

use vstd::prelude::*;
use crate::components::{Entity, EntityId};
use crate::store::Store;
use crate::game::{Game, GameOverEvent};
use crate::grid::{in_bounds, Position};

verus! {

/// Whether `cell` occurs among `cells`.
pub fn occupies(cells: &Vec<Position>, cell: Position) -> (found: bool)
    ensures
        found == cells@.contains(cell),
{
    let mut i: usize = 0;
    while i < cells.len()
        invariant
            i <= cells@.len(),
            forall|j: int| 0 <= j < i ==> cells@[j] != cell,
        decreases cells@.len() - i,
    {
        if cells[i] == cell {
            return true;
        }
        i += 1;
    }
    false
}

/// Gives each of the entities `ids` the position at the same index of
/// `positions`, and leaves everything else as it is.
fn assign_positions(store: &mut Store, ids: &Vec<EntityId>, positions: &Vec<Position>)
    requires
        old(store).wf(),
        ids@.len() == positions@.len(),
        ids@.no_duplicates(),
        forall|j: int| 0 <= j < ids@.len() ==> old(store)@.contains_key(#[trigger] ids@[j]),
    ensures
        final(store).wf(),
        final(store).next_id() == old(store).next_id(),
        final(store)@.dom() == old(store)@.dom(),
        forall|j: int|
            0 <= j < ids@.len() ==> final(store)@[#[trigger] ids@[j]] == (Entity {
                position: positions@[j],
                ..old(store)@[ids@[j]]
            }),
        forall|id: EntityId|
            old(store)@.contains_key(id) && !ids@.contains(id) ==> final(store)@[id] == old(
                store,
            )@[id],
{
    let ghost pre = store@;
    let mut i: usize = 0;
    while i < ids.len()
        invariant
            i <= ids@.len(),
            ids@.len() == positions@.len(),
            ids@.no_duplicates(),
            store.wf(),
            store.next_id() == old(store).next_id(),
            pre == old(store)@,
            store@.dom() == pre.dom(),
            forall|j: int| 0 <= j < ids@.len() ==> pre.contains_key(#[trigger] ids@[j]),
            forall|j: int|
                0 <= j < i ==> store@[#[trigger] ids@[j]] == (Entity {
                    position: positions@[j],
                    ..pre[ids@[j]]
                }),
            forall|j: int| i <= j < ids@.len() ==> store@[#[trigger] ids@[j]] == pre[ids@[j]],
            forall|id: EntityId|
                pre.contains_key(id) && !ids@.contains(id) ==> store@[id] == pre[id],
        decreases ids@.len() - i,
    {
        let id = ids[i];
        let ghost before = store@;
        assert(before.contains_key(id)) by {
            assert(pre.contains_key(ids@[i as int]));
            assert(pre.dom().contains(id));
        }
        store.set_position(id, positions[i]).unwrap();
        proof {
            assert(store@.dom() =~= pre.dom());
            assert forall|j: int| 0 <= j < i + 1 implies store@[#[trigger] ids@[j]] == (Entity {
                position: positions@[j],
                ..pre[ids@[j]]
            }) by {
                if j != i {
                    assert(ids@[j] != ids@[i as int]);
                    assert(store@[ids@[j]] == before[ids@[j]]);
                }
            }
            assert forall|j: int| i + 1 <= j < ids@.len() implies store@[#[trigger] ids@[j]]
                == pre[ids@[j]] by {
                assert(ids@[j] != ids@[i as int]);
                assert(store@[ids@[j]] == before[ids@[j]]);
            }
            assert forall|k: EntityId|
                pre.contains_key(k) && !ids@.contains(k) implies store@[k] == pre[k] by {
                assert(k != ids@[i as int]);
                assert(store@[k] == before[k]);
            }
        }
        i += 1;
    }
}

/// The positions after a move: `head` first, then `before` without its last
/// position.
fn shifted(before: &Vec<Position>, head: Position) -> (after: Vec<Position>)
    requires
        before@.len() >= 1,
    ensures
        after@ == seq![head] + before@.drop_last(),
{
    let mut after: Vec<Position> = Vec::new();
    after.push(head);
    let mut i: usize = 1;
    while i < before.len()
        invariant
            1 <= i <= before@.len(),
            after@.len() == i,
            after@[0] == head,
            forall|j: int| 1 <= j < i ==> after@[j] == before@[j - 1],
        decreases before@.len() - i,
    {
        after.push(before[i - 1]);
        i += 1;
    }
    proof {
        assert(after@ =~= seq![head] + before@.drop_last());
    }
    after
}

/// Advances the snake by one cell. The positions of all segments are taken
/// first. The head then steps in its heading, and every other segment takes
/// the place that its predecessor held before the step. One signal is sent if
/// the head has left the arena, and one if it has come onto a cell that a
/// segment held before the step. The place that the tail held is remembered.
pub fn snake_movement(game: &mut Game) -> (events: Vec<GameOverEvent>)
    requires
        old(game).wf(),
        old(game)@.heading.can_step(old(game)@.head()),
    ensures
        final(game).wf(),
        final(game)@ == old(game)@.moved(),
        final(game)@.segments.len() == old(game)@.segments.len(),
        final(game)@.head().x == old(game)@.head().x + old(game)@.heading.dx(),
        final(game)@.head().y == old(game)@.head().y + old(game)@.heading.dy(),
        events@.len() == old(game)@.collisions(),
        final(game).next_id() == old(game).next_id(),
{
    let snapshot = game.segment_positions();
    let n = game.segments.len();
    let head = game.store.get(game.segments[0]).unwrap();
    let direction = head.kind.heading().unwrap();
    let new_head = direction.step(snapshot[0]);
    let mut events: Vec<GameOverEvent> = Vec::new();
    if !in_bounds(new_head) {
        events.push(GameOverEvent);
    }
    if occupies(&snapshot, new_head) {
        events.push(GameOverEvent);
    }
    let target = shifted(&snapshot, new_head);
    assign_positions(&mut game.store, &game.segments, &target);
    game.last_tail = Some(snapshot[n - 1]);
    proof {
        let pre = old(game).store@;
        let now = game.store@;
        assert forall|id: EntityId| now.contains_key(id) == pre.contains_key(id) by {
            assert(now.dom().contains(id) == pre.dom().contains(id));
        }
        assert forall|id: EntityId| #[trigger] now.contains_key(id) implies now[id].kind
            == pre[id].kind && now[id].size == pre[id].size by {
            if game.segments@.contains(id) {
                let j = choose|j: int| 0 <= j < game.segments@.len() && game.segments@[j] == id;
                assert(now[game.segments@[j]].kind == pre[game.segments@[j]].kind);
            }
        }
        assert(game.wf());
        assert(game@.segments =~= target@);
        assert(game@.food =~= old(game)@.food) by {
            assert forall|id: EntityId| pre.contains_key(id) && pre[id].kind is Food implies now[id]
                == pre[id] by {
                if game.segments@.contains(id) {
                    let j = choose|j: int|
                        0 <= j < game.segments@.len() && game.segments@[j] == id;
                    assert(pre[game.segments@[j]].kind is Food);
                }
            }
        }
        assert(game@.heading == old(game)@.heading);
    }
    events
}

} // verus!

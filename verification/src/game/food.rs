//! Food: how it comes onto the grid, how the head eats it, and how the snake
//! grows from it.

use vstd::prelude::*;
use crate::components::{Entity, EntityId, Kind, Size, Tag};
use crate::game::{spawn_segment, footprint, Game, GrowthEvent, LARGE_EXTENT};
use crate::grid::{in_bounds_spec, Position, ARENA_HEIGHT, ARENA_WIDTH};
use crate::model::GameView;

verus! {

/// A number drawn uniformly from `0..bound` with `rand::Rng::gen_range` on the
/// generator of `rand::thread_rng`. Believed of it: the number lies below
/// `bound`. The call panics on an empty range, so `bound` must not be zero.
#[verifier::external_body]
fn random_below(bound: u32) -> (value: u32)
    requires
        bound > 0,
    ensures
        value < bound,
{
    rand::Rng::gen_range(&mut rand::thread_rng(), 0..bound)
}

/// A cell of the arena, each with the same chance.
pub fn random_cell() -> (cell: Position)
    ensures
        in_bounds_spec(cell),
{
    let x = random_below(ARENA_WIDTH);
    let y = random_below(ARENA_HEIGHT);
    cell_at(x, y)
}

/// The cell in the given column and row, counted from zero. It lies inside
/// the arena exactly when the column is below the arena's width and the row
/// below its height.
pub fn cell_at(column: u32, row: u32) -> (cell: Position)
    requires
        column <= i32::MAX,
        row <= i32::MAX,
    ensures
        cell.x == column,
        cell.y == row,
        in_bounds_spec(cell) <==> (column < ARENA_WIDTH && row < ARENA_HEIGHT),
{
    Position { x: column as i32, y: row as i32 }
}

/// Puts one food item at `position`, whatever else lies there, and returns
/// the new entity.
pub fn spawn_food(game: &mut Game, position: Position) -> (food: Entity)
    requires
        old(game).wf(),
        old(game).has_room_spec(1),
    ensures
        final(game).wf(),
        food == (Entity {
            id: EntityId(old(game).next_id() as u64),
            kind: Kind::Food,
            position,
            size: footprint(Kind::Food),
        }),
        !old(game)@.food.contains_key(food.id),
        final(game)@ == (GameView {
            food: old(game)@.food.insert(food.id, position),
            ..old(game)@
        }),
        final(game).next_id() == old(game).next_id() + 1,
{
    let id = game.store.spawn(Kind::Food, position, Size::square(LARGE_EXTENT));
    proof {
        assert forall|i: int| 0 <= i < game.segments@.len() implies game.store@.contains_key(
            #[trigger] game.segments@[i],
        ) && game.store@[game.segments@[i]] == old(game).store@[game.segments@[i]] by {
            assert(old(game).store@.contains_key(game.segments@[i]));
        }
        assert(game.wf());
        assert(game@.segments =~= old(game)@.segments);
        assert(game@.food =~= old(game)@.food.insert(id, position));
    }
    Entity { id, kind: Kind::Food, position, size: Size::square(LARGE_EXTENT) }
}

/// Puts one food item on a cell of the arena that is drawn at random. The
/// cell may hold food or a segment already.
pub fn food_spawner(game: &mut Game) -> (food: Entity)
    requires
        old(game).wf(),
        old(game).has_room_spec(1),
    ensures
        final(game).wf(),
        in_bounds_spec(food.position),
        food.kind == Kind::Food,
        food.id.0 == old(game).next_id(),
        !old(game)@.food.contains_key(food.id),
        final(game)@ == (GameView {
            food: old(game)@.food.insert(food.id, food.position),
            ..old(game)@
        }),
        old(game)@.settled() ==> final(game)@.settled(),
        final(game).next_id() == old(game).next_id() + 1,
{
    let cell = random_cell();
    spawn_food(game, cell)
}

/// Destroys every food item that lies under the head and sends one signal
/// for each.
pub fn snake_eating(game: &mut Game) -> (events: Vec<GrowthEvent>)
    requires
        old(game).wf(),
    ensures
        final(game).wf(),
        final(game)@ == old(game)@.fed(),
        final(game)@.segments.len() == old(game)@.segments.len(),
        events@.len() == old(game)@.eaten().len(),
        final(game).next_id() == old(game).next_id(),
{
    let head = game.store.get(game.segments[0]).unwrap().position;
    let food = game.store.query(Tag::Food);
    let ghost pre = game.store@;
    let ghost mut gone: Set<EntityId> = Set::empty();
    let mut events: Vec<GrowthEvent> = Vec::new();
    let mut i: usize = 0;
    while i < food.len()
        invariant
            i <= food@.len(),
            food@.no_duplicates(),
            forall|id: EntityId|
                food@.contains(id) <==> (pre.contains_key(id) && pre[id].kind is Food),
            game.store.wf(),
            game.store.next_id() == old(game).store.next_id(),
            game.segments@ == old(game).segments@,
            game.last_tail == old(game).last_tail,
            gone.finite(),
            events@.len() == gone.len(),
            forall|id: EntityId| gone.contains(id) <==> under_head(food@, pre, head, i as int, id),
            game.store@ == pre.remove_keys(gone),
        decreases food@.len() - i,
    {
        let id = food[i];
        proof {
            assert(food@.contains(id));
            if gone.contains(id) {
                let j = choose|j: int| 0 <= j < i && food@[j] == id;
                assert(food@[j] == food@[i as int]);
            }
        }
        let item = game.store.get(id).unwrap();
        let ghost before = gone;
        if item.position == head {
            game.store.despawn(id).unwrap();
            events.push(GrowthEvent);
            proof {
                gone = gone.insert(id);
                assert(game.store@ =~= pre.remove_keys(gone));
            }
        }
        proof {
            assert forall|k: EntityId| gone.contains(k) <==> under_head(
                food@,
                pre,
                head,
                i + 1,
                k,
            ) by {
                if under_head(food@, pre, head, i + 1, k) {
                    let j = choose|j: int|
                        0 <= j < i + 1 && food@[j] == k && pre[k].position == head;
                    if j < i {
                        assert(under_head(food@, pre, head, i as int, k));
                    }
                }
                if before.contains(k) {
                    assert(under_head(food@, pre, head, i as int, k));
                    let j = choose|j: int| 0 <= j < i && food@[j] == k && pre[k].position == head;
                    assert(0 <= j < i + 1);
                }
                if k == id && item.position == head {
                    assert(food@[i as int] == k);
                }
            }
        }
        i += 1;
    }
    proof {
        assert(gone =~= old(game)@.eaten()) by {
            assert forall|k: EntityId| gone.contains(k) <==> old(game)@.eaten().contains(k) by {
                if gone.contains(k) {
                    assert(under_head(food@, pre, head, i as int, k));
                    let j = choose|j: int| 0 <= j < i && food@[j] == k && pre[k].position == head;
                    assert(food@.contains(k));
                }
                if old(game)@.eaten().contains(k) {
                    assert(food@.contains(k));
                    let j = choose|j: int| 0 <= j < food@.len() && food@[j] == k;
                    assert(under_head(food@, pre, head, i as int, k));
                }
            }
        }
        assert forall|j: int| 0 <= j < game.segments@.len() implies game.store@.contains_key(
            #[trigger] game.segments@[j],
        ) && game.store@[game.segments@[j]] == pre[game.segments@[j]] by {
            let k = game.segments@[j];
            assert(pre.contains_key(k));
            if gone.contains(k) {
                assert(under_head(food@, pre, head, i as int, k));
                assert(food@.contains(k));
            }
        }
        assert(game.wf());
        assert(game@.segments =~= old(game)@.segments);
        assert(game@.food =~= old(game)@.food.remove_keys(gone));
    }
    events
}

/// Whether `id` is one of the first `n` handles of `food` and its entity in
/// `entities` lies at `head`.
spec fn under_head(
    food: Seq<EntityId>,
    entities: Map<EntityId, Entity>,
    head: Position,
    n: int,
    id: EntityId,
) -> bool {
    exists|j: int| 0 <= j < n && food[j] == id && entities[id].position == head
}

/// Lets the snake grow by one segment if any signal of growth has come,
/// however many there are. The segment is put where the tail was before the
/// last move and entered at the end of the registry.
pub fn snake_growth(game: &mut Game, events: &Vec<GrowthEvent>)
    requires
        old(game).wf(),
        events@.len() > 0 ==> old(game)@.last_tail is Some && old(game).has_room_spec(1),
    ensures
        final(game).wf(),
        final(game)@ == old(game)@.grown(events@.len() > 0),
        final(game)@.segments.len() == old(game)@.segments.len() + (if events@.len() > 0 {
            1nat
        } else {
            0nat
        }),
        final(game).next_id() == old(game).next_id() + (if events@.len() > 0 {
            1nat
        } else {
            0nat
        }),
{
    if events.len() > 0 {
        let id = spawn_segment(&mut game.store, game.last_tail.unwrap());
        game.segments.push(id);
        proof {
            let n = old(game).segments@.len() as int;
            assert(game.segments@[n] == id);
            assert forall|i: int| 0 <= i < n implies game.segments@[i] == old(game).segments@[i]
                && game.segments@[i] != id && game.store@[#[trigger] game.segments@[i]] == old(
                game,
            ).store@[game.segments@[i]] by {
                assert(old(game).store@.contains_key(old(game).segments@[i]));
            }
            assert(game.segments@.no_duplicates());
            assert forall|k: EntityId| #[trigger]
                game.store@.contains_key(k) implies game.store@[k].kind is Food
                || game.segments@.contains(k) by {
                if k == id {
                    assert(game.segments@[n] == k);
                } else if !(game.store@[k].kind is Food) {
                    assert(old(game).segments@.contains(k));
                    let j = choose|j: int| 0 <= j < n && old(game).segments@[j] == k;
                    assert(game.segments@[j] == k);
                }
            }
            assert(game.wf());
            assert(game@.segments =~= old(game)@.segments.push(old(game)@.last_tail->0));
            assert(game@.food =~= old(game)@.food);
        }
    }
}

} // verus!

//! The state of one game: the entity store, the registry that orders the
//! snake's segments from head to tail, and the remembered tail position.

use vstd::prelude::*;
use crate::components::{Entity, EntityId, Kind, Size, Tag};
use crate::direction::Direction;
use crate::error::GameError;
use crate::grid::{in_bounds, in_bounds_spec, Position};
use crate::model::{start_segments, GameView};
use crate::store::Store;

pub mod input;
pub mod movement;
pub mod food;
pub mod reset;
pub mod tick;

verus! {

/// Extent of the head and of food, in hundredths of a cell.
pub const LARGE_EXTENT: u32 = 80;

/// Extent of a body segment, in hundredths of a cell.
pub const SEGMENT_EXTENT: u32 = 65;

/// The footprint that an entity of the given kind is drawn with.
pub open spec fn footprint(kind: Kind) -> Size {
    match kind {
        Kind::SnakeSegment => Size { width: SEGMENT_EXTENT, height: SEGMENT_EXTENT },
        _ => Size { width: LARGE_EXTENT, height: LARGE_EXTENT },
    }
}

/// Computes the footprint of an entity of the given kind.
pub fn footprint_of(kind: Kind) -> (size: Size)
    ensures
        size == footprint(kind),
{
    match kind {
        Kind::SnakeSegment => Size::square(SEGMENT_EXTENT),
        _ => Size::square(LARGE_EXTENT),
    }
}

/// Every handle of the registry names a live entity.
pub open spec fn registry_is_live(entities: Map<EntityId, Entity>, registry: Seq<EntityId>) -> bool {
    forall|i: int| 0 <= i < registry.len() ==> entities.contains_key(#[trigger] registry[i])
}

/// Entities and registry form a game. The registry is not empty and names
/// live entities, each once: first the head, then body segments. Whatever
/// else lives among the entities is food, so that there is one head. Every
/// entity has the footprint of its kind.
pub open spec fn fits(entities: Map<EntityId, Entity>, registry: Seq<EntityId>) -> bool {
    &&& registry.len() >= 1
    &&& registry.no_duplicates()
    &&& registry_is_live(entities, registry)
    &&& entities[registry[0]].kind is SnakeHead
    &&& forall|i: int|
        1 <= i < registry.len() ==> entities[#[trigger] registry[i]].kind == Kind::SnakeSegment
    &&& forall|id: EntityId| #[trigger]
        entities.contains_key(id) ==> (entities[id].kind is Food || registry.contains(id))
    &&& forall|id: EntityId| #[trigger]
        entities.contains_key(id) ==> entities[id].size == footprint(entities[id].kind)
}

/// Whether `id` is among the first `upto` handles of `ids`.
fn listed(ids: &Vec<EntityId>, upto: usize, id: EntityId) -> (found: bool)
    requires
        upto <= ids@.len(),
    ensures
        found == exists|j: int| 0 <= j < upto && ids@[j] == id,
{
    let mut i: usize = 0;
    while i < upto
        invariant
            i <= upto <= ids@.len(),
            forall|j: int| 0 <= j < i ==> ids@[j] != id,
        decreases upto - i,
    {
        if ids[i] == id {
            return true;
        }
        i += 1;
    }
    false
}

/// Signal that the head has eaten one food item.
#[derive(Clone, Copy, PartialEq, Eq, Structural, Debug)]
pub struct GrowthEvent;

/// Signal that the head has run into a wall or into the snake.
#[derive(Clone, Copy, PartialEq, Eq, Structural, Debug)]
pub struct GameOverEvent;

/// One game. The stages of a tick work on it one after the other.
pub struct Game {
    store: Store,
    segments: Vec<EntityId>,
    last_tail: Option<Position>,
}

impl View for Game {
    type V = GameView;

    closed spec fn view(&self) -> GameView {
        GameView {
            heading: self.store@[self.segments@[0]].kind->direction,
            segments: Seq::new(
                self.segments@.len(),
                |i: int| self.store@[self.segments@[i]].position,
            ),
            food: Map::new(
                |id: EntityId| self.store@.contains_key(id) && self.store@[id].kind is Food,
                |id: EntityId| self.store@[id].position,
            ),
            last_tail: self.last_tail,
        }
    }
}

/// Creates a body segment at `position` and returns its handle. The caller
/// enters the handle into the registry.
pub fn spawn_segment(store: &mut Store, position: Position) -> (id: EntityId)
    requires
        old(store).wf(),
        old(store).has_room_spec(1),
    ensures
        final(store).wf(),
        id.0 == old(store).next_id(),
        final(store).next_id() == old(store).next_id() + 1,
        !old(store)@.contains_key(id),
        final(store)@ == old(store)@.insert(
            id,
            (Entity { id, kind: Kind::SnakeSegment, position, size: footprint(Kind::SnakeSegment) }),
        ),
{
    store.spawn(Kind::SnakeSegment, position, Size::square(SEGMENT_EXTENT))
}

/// The head of the startup snake, under the handle `id`.
pub open spec fn start_head(id: EntityId) -> Entity {
    Entity {
        id,
        kind: Kind::SnakeHead { direction: Direction::Up },
        position: Position { x: 3, y: 3 },
        size: footprint(Kind::SnakeHead { direction: Direction::Up }),
    }
}

/// The one body segment of the startup snake, under the handle `id`.
pub open spec fn start_tail(id: EntityId) -> Entity {
    Entity {
        id,
        kind: Kind::SnakeSegment,
        position: Position { x: 3, y: 2 },
        size: footprint(Kind::SnakeSegment),
    }
}

/// Creates the snake in its startup position, a head at (3, 3) that heads
/// up and one segment below it at (3, 2), and returns the registry of the new
/// snake: the head's handle, then the segment's.
pub fn spawn_snake(store: &mut Store) -> (segments: Vec<EntityId>)
    requires
        old(store).wf(),
        old(store).has_room_spec(2),
    ensures
        final(store).wf(),
        final(store).next_id() == old(store).next_id() + 2,
        segments@ == seq![
            EntityId(old(store).next_id() as u64),
            EntityId((old(store).next_id() + 1) as u64),
        ],
        final(store)@ == old(store)@.insert(segments@[0], start_head(segments@[0])).insert(
            segments@[1],
            start_tail(segments@[1]),
        ),
{
    let head = store.spawn(
        Kind::SnakeHead { direction: Direction::Up },
        Position { x: 3, y: 3 },
        Size::square(LARGE_EXTENT),
    );
    let tail = spawn_segment(store, Position { x: 3, y: 2 });
    let mut segments: Vec<EntityId> = Vec::new();
    segments.push(head);
    segments.push(tail);
    proof {
        assert(segments@ =~= seq![head, tail]);
    }
    segments
}

impl Game {
    /// The entities behind the view.
    pub closed spec fn entities(&self) -> Map<EntityId, Entity> {
        self.store@
    }

    /// The registry: the handles of the segments from head to tail.
    pub closed spec fn registry(&self) -> Seq<EntityId> {
        self.segments@
    }

    /// The number that the next created entity gets as its handle.
    pub closed spec fn next_id(&self) -> nat {
        self.store.next_id()
    }

    /// Whether `n` more entities can be created before handles run out.
    pub open spec fn has_room_spec(&self, n: nat) -> bool {
        self.next_id() + n <= u64::MAX
    }

    /// Well-formedness: the store is well-formed, and its entities and the
    /// registry form a game.
    pub closed spec fn wf(&self) -> bool {
        &&& self.store.wf()
        &&& fits(self.store@, self.segments@)
    }

    /// What well-formedness means for the view: there is a head, the food is
    /// finite, and view and entities agree.
    pub proof fn lemma_wf_view(&self)
        requires
            self.wf(),
        ensures
            fits(self.entities(), self.registry()),
            self@.segments.len() >= 1,
            self@.segments.len() == self.registry().len(),
            self@.food.dom().finite(),
            self.registry().no_duplicates(),
            forall|i: int|
                0 <= i < self.registry().len() ==> {
                    let id = #[trigger] self.registry()[i];
                    &&& self.entities().contains_key(id)
                    &&& self.entities()[id].id == id
                    &&& self.entities()[id].position == self@.segments[i]
                    &&& self.entities()[id].kind == (if i == 0 {
                        Kind::SnakeHead { direction: self@.heading }
                    } else {
                        Kind::SnakeSegment
                    })
                },
            forall|id: EntityId| #[trigger]
                self@.food.contains_key(id) <==> (self.entities().contains_key(id)
                    && self.entities()[id].kind is Food),
            forall|id: EntityId| #[trigger]
                self@.food.contains_key(id) ==> self.entities()[id].position == self@.food[id],
            forall|id: EntityId| #[trigger]
                self.entities().contains_key(id) ==> {
                    &&& self.entities()[id].size == footprint(self.entities()[id].kind)
                    &&& id.0 < self.next_id()
                    &&& (self.entities()[id].kind is Food || self.registry().contains(id))
                },
    {
        assert(self@.food.dom().subset_of(self.store@.dom()));
        vstd::set_lib::lemma_len_subset(self@.food.dom(), self.store@.dom());
    }

    /// Whether `n` more entities can be created.
    pub fn has_room(&self, n: u64) -> (room: bool)
        ensures
            room == self.has_room_spec(n as nat),
    {
        self.store.has_room(n)
    }

    /// The heading of the snake.
    pub fn heading(&self) -> (heading: Direction)
        requires
            self.wf(),
        ensures
            heading == self@.heading,
    {
        self.store.get(self.segments[0]).unwrap().kind.heading().unwrap()
    }

    /// The position that the tail held before the last move, if the snake
    /// has moved.
    pub fn last_tail(&self) -> (cell: Option<Position>)
        ensures
            cell == self@.last_tail,
    {
        self.last_tail
    }

    /// The positions of the segments from head to tail.
    pub fn segment_positions(&self) -> (positions: Vec<Position>)
        requires
            self.wf(),
        ensures
            positions@ == self@.segments,
    {
        let mut positions: Vec<Position> = Vec::new();
        let mut i: usize = 0;
        while i < self.segments.len()
            invariant
                self.wf(),
                i <= self.segments@.len(),
                positions@.len() == i,
                forall|j: int| 0 <= j < i ==> positions@[j] == self@.segments[j],
            decreases self.segments@.len() - i,
        {
            let entity = self.store.get(self.segments[i]).unwrap();
            positions.push(entity.position);
            i += 1;
        }
        proof {
            assert(positions@ =~= self@.segments);
        }
        positions
    }

    /// The food on the grid, in the order in which it came.
    pub fn food(&self) -> (items: Vec<Entity>)
        requires
            self.wf(),
        ensures
            items@.len() == self@.food.dom().len(),
            forall|j: int|
                0 <= j < items@.len() ==> {
                    let item = #[trigger] items@[j];
                    &&& self@.food.contains_key(item.id)
                    &&& item == self.entities()[item.id]
                    &&& item.position == self@.food[item.id]
                },
            forall|id: EntityId| #[trigger]
                self@.food.contains_key(id) ==> exists|j: int|
                    0 <= j < items@.len() && items@[j].id == id,
            forall|a: int, b: int| 0 <= a < b < items@.len() ==> items@[a].id.0 < items@[b].id.0,
    {
        let ids = self.store.query(Tag::Food);
        let mut items: Vec<Entity> = Vec::new();
        let mut i: usize = 0;
        while i < ids.len()
            invariant
                self.wf(),
                i <= ids@.len(),
                items@.len() == i,
                forall|id: EntityId|
                    ids@.contains(id) <==> (self.store@.contains_key(id)
                        && self.store@[id].kind is Food),
                forall|j: int|
                    0 <= j < i ==> (#[trigger] items@[j]) == self.store@[ids@[j]] && items@[j].id
                        == ids@[j],
            decreases ids@.len() - i,
        {
            assert(ids@.contains(ids@[i as int]));
            let item = self.store.get(ids[i]).unwrap();
            items.push(item);
            i += 1;
        }
        proof {
            assert(ids@.to_set() =~= self@.food.dom()) by {
                assert forall|id: EntityId| ids@.to_set().contains(id)
                    <==> self@.food.dom().contains(id) by {
                    assert(ids@.to_set().contains(id) <==> ids@.contains(id));
                    assert(self@.food.dom().contains(id) <==> self@.food.contains_key(id));
                }
            }
            ids@.unique_seq_to_set();
            assert forall|j: int| 0 <= j < items@.len() implies {
                let item = #[trigger] items@[j];
                &&& self@.food.contains_key(item.id)
                &&& item == self.entities()[item.id]
                &&& item.position == self@.food[item.id]
            } by {
                assert(ids@.contains(ids@[j]));
            }
            assert forall|id: EntityId| #[trigger] self@.food.contains_key(id) implies exists|
                j: int,
            | 0 <= j < items@.len() && items@[j].id == id by {
                assert(ids@.contains(id));
                let j = choose|j: int| 0 <= j < ids@.len() && ids@[j] == id;
                assert(items@[j].id == id);
            }
            assert forall|a: int, b: int| 0 <= a < b < items@.len() implies items@[a].id.0
                < items@[b].id.0 by {
                assert(items@[a].id == ids@[a]);
                assert(items@[b].id == ids@[b]);
            }
        }
        items
    }

    /// Every live entity with its role, position and footprint, in the order
    /// of creation: what a renderer draws.
    pub fn all_entities(&self) -> (all: Vec<Entity>)
        requires
            self.wf(),
        ensures
            all@.len() == self.entities().dom().len(),
            forall|j: int|
                0 <= j < all@.len() ==> self.entities().contains_key((#[trigger] all@[j]).id)
                    && self.entities()[all@[j].id] == all@[j],
            forall|id: EntityId| #[trigger]
                self.entities().contains_key(id) ==> exists|j: int|
                    0 <= j < all@.len() && all@[j].id == id,
            forall|a: int, b: int| 0 <= a < b < all@.len() ==> all@[a].id.0 < all@[b].id.0,
    {
        self.store.list()
    }

    /// Whether every segment and every food item lies inside the arena.
    #[verifier::loop_isolation(false)]
    pub fn is_settled(&self) -> (settled: bool)
        requires
            self.wf(),
        ensures
            settled == self@.settled(),
    {
        let positions = self.segment_positions();
        let mut i: usize = 0;
        while i < positions.len()
            invariant
                i <= positions@.len(),
                forall|j: int| 0 <= j < i ==> in_bounds_spec(#[trigger] positions@[j]),
            decreases positions@.len() - i,
        {
            if !in_bounds(positions[i]) {
                proof {
                    assert(!in_bounds_spec(self@.segments[i as int]));
                }
                return false;
            }
            i += 1;
        }
        let items = self.food();
        let mut k: usize = 0;
        while k < items.len()
            invariant
                k <= items@.len(),
                forall|j: int|
                    0 <= j < k ==> in_bounds_spec((#[trigger] items@[j]).position),
            decreases items@.len() - k,
        {
            if !in_bounds(items[k].position) {
                proof {
                    let item = items@[k as int];
                    assert(self@.food.contains_key(item.id));
                }
                return false;
            }
            k += 1;
        }
        proof {
            assert forall|id: EntityId| #[trigger] self@.food.contains_key(id) implies in_bounds_spec(
                self@.food[id],
            ) by {
                let j = choose|j: int| 0 <= j < items@.len() && items@[j].id == id;
                assert(in_bounds_spec(items@[j].position));
            }
        }
        true
    }

    /// Makes a game of a store, a registry and a remembered tail position,
    /// if they form one. If a handle of the registry names no live entity,
    /// that is the fault reported; any other defect is a violated invariant.
    #[verifier::loop_isolation(false)]
    pub fn assemble(store: Store, segments: Vec<EntityId>, last_tail: Option<Position>) -> (made:
        Result<Game, GameError>)
        requires
            store.wf(),
        ensures
            made is Ok <==> fits(store@, segments@),
            made is Ok ==> {
                let game = made->Ok_0;
                &&& game.wf()
                &&& game.entities() == store@
                &&& game.registry() == segments@
                &&& game@.last_tail == last_tail
                &&& game.next_id() == store.next_id()
            },
            made is Err ==> made->Err_0 == (if registry_is_live(store@, segments@) {
                GameError::InvariantViolation
            } else {
                GameError::NotFound
            }),
    {
        let n = segments.len();
        let mut i: usize = 0;
        while i < n
            invariant
                i <= n,
                forall|j: int| 0 <= j < i ==> store@.contains_key(#[trigger] segments@[j]),
            decreases n - i,
        {
            if !store.contains(segments[i]) {
                return Err(GameError::NotFound);
            }
            i += 1;
        }
        if n == 0 {
            return Err(GameError::InvariantViolation);
        }
        let mut i: usize = 0;
        while i < n
            invariant
                i <= n,
                i >= 1 ==> store@[segments@[0]].kind is SnakeHead,
                forall|j: int|
                    1 <= j < i ==> store@[#[trigger] segments@[j]].kind == Kind::SnakeSegment,
                forall|a: int, b: int| 0 <= a < b < i ==> segments@[a] != segments@[b],
            decreases n - i,
        {
            let entity = store.get(segments[i]).unwrap();
            let kind_fits = if i == 0 {
                entity.kind.has_tag(Tag::SnakeHead)
            } else {
                entity.kind == Kind::SnakeSegment
            };
            if !kind_fits {
                return Err(GameError::InvariantViolation);
            }
            if listed(&segments, i, segments[i]) {
                proof {
                    let j = choose|j: int| 0 <= j < i && segments@[j] == segments@[i as int];
                    assert(segments@[j] == segments@[i as int] && j != i);
                }
                return Err(GameError::InvariantViolation);
            }
            i += 1;
        }
        let all = store.list();
        let mut k: usize = 0;
        while k < all.len()
            invariant
                k <= all@.len(),
                forall|j: int|
                    0 <= j < k ==> {
                        let entity = #[trigger] all@[j];
                        &&& entity.size == footprint(entity.kind)
                        &&& (entity.kind is Food || segments@.contains(entity.id))
                    },
            decreases all@.len() - k,
        {
            let entity = all[k];
            proof {
                assert(store@.contains_key(all@[k as int].id));
            }
            if !(entity.size == footprint_of(entity.kind)) {
                return Err(GameError::InvariantViolation);
            }
            if !entity.kind.has_tag(Tag::Food) && !listed(&segments, n, entity.id) {
                return Err(GameError::InvariantViolation);
            }
            proof {
                if !(entity.kind is Food) {
                    let j = choose|j: int| 0 <= j < n && segments@[j] == entity.id;
                    assert(segments@[j] == entity.id);
                }
            }
            k += 1;
        }
        proof {
            assert forall|id: EntityId| #[trigger] store@.contains_key(id) implies (
            store@[id].kind is Food || segments@.contains(id)) && store@[id].size == footprint(
                store@[id].kind,
            ) by {
                let j = choose|j: int| 0 <= j < all@.len() && all@[j].id == id;
                assert(all@[j] == store@[id]);
            }
            assert(fits(store@, segments@));
        }
        Ok(Game { store, segments, last_tail })
    }

    /// A new game in its startup state, with nothing on the grid but the
    /// snake.
    pub fn new() -> (game: Game)
        ensures
            game.wf(),
            game@.is_start(),
            game@.last_tail is None,
            game.next_id() == 2,
    {
        let mut store = Store::new();
        let segments = spawn_snake(&mut store);
        let game = Game { store, segments, last_tail: None };
        proof {
            assert(game.segments@[0] == EntityId(0));
            assert(game.segments@[1] == EntityId(1));
            assert(game.wf());
            assert(game@.segments =~= start_segments());
            assert(game@.food =~= Map::<EntityId, Position>::empty());
        }
        game
    }
}

} // verus!

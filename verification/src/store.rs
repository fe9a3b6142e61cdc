//! The entity store: entities under stable handles, created, destroyed,
//! looked up by handle and queried by role.

use vstd::prelude::*;
use crate::components::{Entity, EntityId, Kind, Size, Tag};
use crate::error::GameError;
use crate::grid::Position;

verus! {

/// The live entities, kept in the order of their creation.
pub struct Store {
    entities: Vec<Entity>,
    next: u64,
}

impl View for Store {
    type V = Map<EntityId, Entity>;

    /// The live entities by handle.
    closed spec fn view(&self) -> Map<EntityId, Entity> {
        Map::new(
            |id: EntityId| exists|i: int| self.has_at(i, id),
            |id: EntityId| self.entities@[self.index_of(id)],
        )
    }
}

impl Store {
    spec fn has_at(&self, i: int, id: EntityId) -> bool {
        0 <= i < self.entities@.len() && self.entities@[i].id == id
    }

    spec fn index_of(&self, id: EntityId) -> int {
        choose|i: int| self.has_at(i, id)
    }

    /// The part of well-formedness that concerns the representation: handles
    /// grow along the list of entities and stay below the next handle.
    pub closed spec fn ordered(&self) -> bool {
        &&& forall|i: int, j: int|
            0 <= i < j < self.entities@.len() ==> self.entities@[i].id.0 < self.entities@[j].id.0
        &&& forall|i: int|
            0 <= i < self.entities@.len() ==> self.entities@[i].id.0 < self.next
    }

    /// The number that the next created entity gets as its handle.
    pub closed spec fn next_id(&self) -> nat {
        self.next as nat
    }

    /// Well-formedness: finitely many entities, each stored under its own
    /// handle, and every handle given out so far lies below the next one.
    pub open spec fn wf(&self) -> bool {
        &&& self.ordered()
        &&& self@.dom().finite()
        &&& forall|id: EntityId| #[trigger]
            self@.contains_key(id) ==> self@[id].id == id && id.0 < self.next_id()
    }

    /// Whether `n` more entities can be created before handles run out.
    pub open spec fn has_room_spec(&self, n: nat) -> bool {
        self.next_id() + n <= u64::MAX
    }

    proof fn lemma_at(&self, i: int)
        requires
            self.ordered(),
            0 <= i < self.entities@.len(),
        ensures
            self@.contains_key(self.entities@[i].id),
            self.index_of(self.entities@[i].id) == i,
            self@[self.entities@[i].id] == self.entities@[i],
    {
        let id = self.entities@[i].id;
        assert(self.has_at(i, id));
        let j = self.index_of(id);
        assert(self.has_at(j, id));
        if j < i {
            assert(self.entities@[j].id.0 < self.entities@[i].id.0);
        } else if i < j {
            assert(self.entities@[i].id.0 < self.entities@[j].id.0);
        }
    }

    proof fn lemma_key(&self, id: EntityId)
        requires
            self.ordered(),
            self@.contains_key(id),
        ensures
            self.has_at(self.index_of(id), id),
            self@[id] == self.entities@[self.index_of(id)],
            self@[id].id == id,
            id.0 < self.next,
    {
    }

    /// The view is the map that holds exactly the listed entities.
    proof fn lemma_view_is(&self, target: Map<EntityId, Entity>)
        requires
            self.ordered(),
            forall|i: int|
                0 <= i < self.entities@.len() ==> target.contains_key(
                    (#[trigger] self.entities@[i]).id,
                ) && target[self.entities@[i].id] == self.entities@[i],
            forall|k: EntityId| #[trigger]
                target.contains_key(k) ==> exists|i: int| self.has_at(i, k),
        ensures
            self@ == target,
    {
        assert forall|k: EntityId| self@.dom().contains(k) implies target.dom().contains(k)
            && self@[k] == target[k] by {
            self.lemma_key(k);
            let j = self.index_of(k);
            assert(target.contains_key(self.entities@[j].id));
        }
        assert forall|k: EntityId| target.dom().contains(k) implies self@.dom().contains(k) by {
            assert(target.contains_key(k));
        }
        assert(self@.dom() =~= target.dom());
        assert(self@ =~= target);
    }

    /// A store without entities.
    pub fn new() -> (store: Store)
        ensures
            store.wf(),
            store@ == Map::<EntityId, Entity>::empty(),
            store.next_id() == 0,
    {
        let store = Store { entities: Vec::new(), next: 0 };
        proof {
            assert(store@ =~= Map::<EntityId, Entity>::empty());
        }
        store
    }

    /// Whether `n` more entities can be created.
    pub fn has_room(&self, n: u64) -> (room: bool)
        ensures
            room == self.has_room_spec(n as nat),
    {
        self.next <= u64::MAX - n
    }

    /// Number of live entities.
    pub fn len(&self) -> (n: usize)
        requires
            self.wf(),
        ensures
            n == self@.dom().len(),
    {
        proof {
            self.lemma_len();
        }
        self.entities.len()
    }

    proof fn lemma_len(&self)
        requires
            self.ordered(),
        ensures
            self@.dom().finite(),
            self@.dom().len() == self.entities@.len(),
    {
        self.lemma_prefix_len(self.entities@.len() as int);
    }

    spec fn ids_below(&self, n: int) -> Set<EntityId> {
        Set::new(|id: EntityId| exists|i: int| 0 <= i < n && self.has_at(i, id))
    }

    proof fn lemma_prefix_len(&self, n: int)
        requires
            self.ordered(),
            0 <= n <= self.entities@.len(),
        ensures
            self.ids_below(n).finite(),
            self.ids_below(n).len() == n,
            n == self.entities@.len() ==> self.ids_below(n) =~= self@.dom(),
        decreases n,
    {
        if n == 0 {
            assert(self.ids_below(0) =~= Set::<EntityId>::empty());
        } else {
            self.lemma_prefix_len(n - 1);
            let id = self.entities@[n - 1].id;
            assert(self.has_at(n - 1, id));
            assert(self.ids_below(n) =~= self.ids_below(n - 1).insert(id));
            assert(!self.ids_below(n - 1).contains(id)) by {
                if self.ids_below(n - 1).contains(id) {
                    let i = choose|i: int| 0 <= i < n - 1 && self.has_at(i, id);
                    assert(self.entities@[i].id.0 < self.entities@[n - 1].id.0);
                }
            }
        }
        if n == self.entities@.len() {
            assert(self.ids_below(n) =~= self@.dom());
        }
    }

    fn find(&self, id: EntityId) -> (found: Option<usize>)
        requires
            self.ordered(),
        ensures
            match found {
                Some(i) => self.has_at(i as int, id) && self@.contains_key(id) && self@[id]
                    == self.entities@[i as int],
                None => !self@.contains_key(id),
            },
    {
        let mut i: usize = 0;
        while i < self.entities.len()
            invariant
                i <= self.entities@.len(),
                self.ordered(),
                forall|j: int| 0 <= j < i ==> self.entities@[j].id != id,
            decreases self.entities@.len() - i,
        {
            if self.entities[i].id == id {
                proof {
                    self.lemma_at(i as int);
                }
                return Some(i);
            }
            i += 1;
        }
        None
    }

    /// Whether `id` names a live entity.
    pub fn contains(&self, id: EntityId) -> (live: bool)
        requires
            self.wf(),
        ensures
            live == self@.contains_key(id),
    {
        self.find(id).is_some()
    }

    /// Fetches the entity that `id` names.
    pub fn get(&self, id: EntityId) -> (fetched: Result<Entity, GameError>)
        requires
            self.wf(),
        ensures
            fetched is Ok <==> self@.contains_key(id),
            fetched is Ok ==> fetched->Ok_0 == self@[id],
            fetched is Err ==> fetched->Err_0 == GameError::NotFound,
    {
        match self.find(id) {
            Some(i) => Ok(self.entities[i]),
            None => Err(GameError::NotFound),
        }
    }

    /// Creates an entity with the given data and returns its handle, which
    /// no entity of this store has had before.
    pub fn spawn(&mut self, kind: Kind, position: Position, size: Size) -> (id: EntityId)
        requires
            old(self).wf(),
            old(self).has_room_spec(1),
        ensures
            final(self).wf(),
            id.0 == old(self).next_id(),
            final(self).next_id() == old(self).next_id() + 1,
            !old(self)@.contains_key(id),
            final(self)@ == old(self)@.insert(id, Entity { id, kind, position, size }),
    {
        let id = EntityId(self.next);
        let entity = Entity { id, kind, position, size };
        self.entities.push(entity);
        self.next = self.next + 1;
        proof {
            let n = old(self).entities@.len() as int;
            assert(self.entities@[n] == entity);
            assert(self.ordered());
            if old(self)@.contains_key(id) {
                old(self).lemma_key(id);
            }
            let target = old(self)@.insert(id, entity);
            assert forall|i: int| 0 <= i < self.entities@.len() implies target.contains_key(
                (#[trigger] self.entities@[i]).id,
            ) && target[self.entities@[i].id] == self.entities@[i] by {
                if i < n {
                    old(self).lemma_at(i);
                }
            }
            assert forall|k: EntityId| #[trigger] target.contains_key(k) implies exists|i: int|
                self.has_at(i, k) by {
                if k == id {
                    assert(self.has_at(n, k));
                } else {
                    old(self).lemma_key(k);
                    assert(self.has_at(old(self).index_of(k), k));
                }
            }
            self.lemma_view_is(target);
        }
        id
    }

    /// Destroys the entity that `id` names, with all that is attached to it.
    pub fn despawn(&mut self, id: EntityId) -> (done: Result<(), GameError>)
        requires
            old(self).wf(),
        ensures
            final(self).wf(),
            final(self).next_id() == old(self).next_id(),
            done is Ok <==> old(self)@.contains_key(id),
            done is Err ==> done->Err_0 == GameError::NotFound,
            final(self)@ == old(self)@.remove(id),
    {
        match self.find(id) {
            Some(i) => {
                self.entities.remove(i);
                proof {
                    let before = old(self).entities@;
                    let after = self.entities@;
                    assert(after == before.remove(i as int));
                    assert forall|j: int| 0 <= j < after.len() implies #[trigger] after[j] == (if j
                        < i {
                        before[j]
                    } else {
                        before[j + 1]
                    }) by {}
                    assert(self.ordered());
                    let target = old(self)@.remove(id);
                    old(self).lemma_at(i as int);
                    assert forall|j: int| 0 <= j < after.len() implies target.contains_key(
                        (#[trigger] after[j]).id,
                    ) && target[after[j].id] == after[j] by {
                        let j0 = if j < i { j } else { j + 1 };
                        old(self).lemma_at(j0);
                        if j0 < i {
                            assert(before[j0].id.0 < before[i as int].id.0);
                        } else {
                            assert(before[i as int].id.0 < before[j0].id.0);
                        }
                    }
                    assert forall|k: EntityId| #[trigger] target.contains_key(k) implies exists|
                        j: int,
                    | self.has_at(j, k) by {
                        old(self).lemma_key(k);
                        let j0 = old(self).index_of(k);
                        let j = if j0 < i { j0 } else { j0 - 1 };
                        assert(self.has_at(j, k));
                    }
                    self.lemma_view_is(target);
                }
                Ok(())
            },
            None => {
                proof {
                    assert(self@ =~= old(self)@.remove(id));
                }
                Err(GameError::NotFound)
            },
        }
    }

    fn replace(&mut self, i: usize, entity: Entity)
        requires
            old(self).wf(),
            0 <= i < old(self).entities@.len(),
            entity.id == old(self).entities@[i as int].id,
        ensures
            final(self).wf(),
            final(self).next_id() == old(self).next_id(),
            final(self)@ == old(self)@.insert(entity.id, entity),
    {
        self.entities[i] = entity;
        proof {
            let id = entity.id;
            assert(self.entities@ == old(self).entities@.update(i as int, entity));
            assert(self.ordered());
            old(self).lemma_at(i as int);
            let target = old(self)@.insert(id, entity);
            assert forall|j: int| 0 <= j < self.entities@.len() implies target.contains_key(
                (#[trigger] self.entities@[j]).id,
            ) && target[self.entities@[j].id] == self.entities@[j] by {
                old(self).lemma_at(j);
            }
            assert forall|k: EntityId| #[trigger] target.contains_key(k) implies exists|j: int|
                self.has_at(j, k) by {
                if k == id {
                    assert(self.has_at(i as int, k));
                } else {
                    old(self).lemma_key(k);
                    assert(self.has_at(old(self).index_of(k), k));
                }
            }
            self.lemma_view_is(target);
        }
    }

    /// Moves the entity that `id` names to `position`.
    pub fn set_position(&mut self, id: EntityId, position: Position) -> (done: Result<
        (),
        GameError,
    >)
        requires
            old(self).wf(),
        ensures
            final(self).wf(),
            final(self).next_id() == old(self).next_id(),
            done is Ok <==> old(self)@.contains_key(id),
            done is Err ==> done->Err_0 == GameError::NotFound && final(self)@ == old(self)@,
            done is Ok ==> final(self)@ == old(self)@.insert(
                id,
                (Entity { position, ..old(self)@[id] }),
            ),
    {
        match self.find(id) {
            Some(i) => {
                let current = self.entities[i];
                proof {
                    self.lemma_at(i as int);
                }
                self.replace(i, Entity { position, ..current });
                Ok(())
            },
            None => Err(GameError::NotFound),
        }
    }

    /// Gives the entity that `id` names the kind `kind`.
    pub fn set_kind(&mut self, id: EntityId, kind: Kind) -> (done: Result<(), GameError>)
        requires
            old(self).wf(),
        ensures
            final(self).wf(),
            final(self).next_id() == old(self).next_id(),
            done is Ok <==> old(self)@.contains_key(id),
            done is Err ==> done->Err_0 == GameError::NotFound && final(self)@ == old(self)@,
            done is Ok ==> final(self)@ == old(self)@.insert(id, (Entity { kind, ..old(self)@[id] })),
    {
        match self.find(id) {
            Some(i) => {
                let current = self.entities[i];
                proof {
                    self.lemma_at(i as int);
                }
                self.replace(i, Entity { kind, ..current });
                Ok(())
            },
            None => Err(GameError::NotFound),
        }
    }

    /// All live entities, in the order of their creation.
    pub fn list(&self) -> (all: Vec<Entity>)
        requires
            self.wf(),
        ensures
            all@.len() == self@.dom().len(),
            forall|j: int|
                0 <= j < all@.len() ==> self@.contains_key((#[trigger] all@[j]).id) && self@[all@[j].id]
                    == all@[j],
            forall|id: EntityId| #[trigger]
                self@.contains_key(id) ==> exists|j: int| 0 <= j < all@.len() && all@[j].id == id,
            forall|a: int, b: int| 0 <= a < b < all@.len() ==> all@[a].id.0 < all@[b].id.0,
    {
        let mut all: Vec<Entity> = Vec::new();
        let mut i: usize = 0;
        while i < self.entities.len()
            invariant
                i <= self.entities@.len(),
                all@ == self.entities@.take(i as int),
            decreases self.entities@.len() - i,
        {
            all.push(self.entities[i]);
            proof {
                assert(all@ =~= self.entities@.take(i + 1));
            }
            i += 1;
        }
        proof {
            assert(all@ =~= self.entities@);
            self.lemma_len();
            assert forall|j: int| 0 <= j < all@.len() implies self@.contains_key(
                (#[trigger] all@[j]).id,
            ) && self@[all@[j].id] == all@[j] by {
                self.lemma_at(j);
            }
            assert forall|id: EntityId| #[trigger] self@.contains_key(id) implies exists|j: int|
                0 <= j < all@.len() && all@[j].id == id by {
                self.lemma_key(id);
                assert(all@[self.index_of(id)].id == id);
            }
        }
        all
    }

    spec fn tagged_below(&self, n: int, id: EntityId, tag: Tag) -> bool {
        exists|j: int| 0 <= j < n && self.has_at(j, id) && self.entities@[j].kind.has_tag_spec(tag)
    }

    /// The handles of all live entities that carry the role `tag`, in the
    /// order of their creation.
    pub fn query(&self, tag: Tag) -> (ids: Vec<EntityId>)
        requires
            self.wf(),
        ensures
            forall|id: EntityId|
                ids@.contains(id) <==> (self@.contains_key(id) && self@[id].kind.has_tag_spec(tag)),
            forall|a: int, b: int| 0 <= a < b < ids@.len() ==> ids@[a].0 < ids@[b].0,
            ids@.no_duplicates(),
    {
        let mut ids: Vec<EntityId> = Vec::new();
        let mut i: usize = 0;
        while i < self.entities.len()
            invariant
                i <= self.entities@.len(),
                self.ordered(),
                forall|a: int| 0 <= a < ids@.len() ==> self.tagged_below(i as int, #[trigger] ids@[a], tag),
                forall|j: int|
                    0 <= j < i && (#[trigger] self.entities@[j]).kind.has_tag_spec(tag)
                        ==> ids@.contains(self.entities@[j].id),
                forall|a: int, b: int| 0 <= a < b < ids@.len() ==> ids@[a].0 < ids@[b].0,
            decreases self.entities@.len() - i,
        {
            let entity = self.entities[i];
            let ghost before = ids@;
            if entity.kind.has_tag(tag) {
                proof {
                    assert forall|a: int| 0 <= a < ids@.len() implies ids@[a].0 < entity.id.0 by {
                        assert(self.tagged_below(i as int, ids@[a], tag));
                        let j = choose|j: int|
                            0 <= j < i && self.has_at(j, ids@[a])
                                && self.entities@[j].kind.has_tag_spec(tag);
                        assert(self.entities@[j].id.0 < self.entities@[i as int].id.0);
                    }
                }
                ids.push(entity.id);
                proof {
                    assert(ids@[before.len() as int] == entity.id);
                    assert(self.has_at(i as int, entity.id));
                }
            }
            proof {
                assert forall|a: int| 0 <= a < ids@.len() implies self.tagged_below(
                    i + 1,
                    #[trigger] ids@[a],
                    tag,
                ) by {
                    if a < before.len() {
                        assert(ids@[a] == before[a]);
                        assert(self.tagged_below(i as int, before[a], tag));
                        let j = choose|j: int|
                            0 <= j < i && self.has_at(j, before[a])
                                && self.entities@[j].kind.has_tag_spec(tag);
                        assert(0 <= j < i + 1 && self.has_at(j, ids@[a]));
                    } else {
                        assert(self.has_at(i as int, ids@[a]));
                    }
                }
                assert forall|j: int|
                    0 <= j < i + 1 && (#[trigger] self.entities@[j]).kind.has_tag_spec(
                        tag,
                    ) implies ids@.contains(self.entities@[j].id) by {
                    if j < i {
                        assert(before.contains(self.entities@[j].id));
                        let a = choose|a: int|
                            0 <= a < before.len() && before[a] == self.entities@[j].id;
                        assert(ids@[a] == self.entities@[j].id);
                    } else {
                        assert(ids@[before.len() as int] == self.entities@[j].id);
                    }
                }
            }
            i += 1;
        }
        proof {
            assert forall|id: EntityId| ids@.contains(id) implies self@.contains_key(id)
                && self@[id].kind.has_tag_spec(tag) by {
                let a = choose|a: int| 0 <= a < ids@.len() && ids@[a] == id;
                assert(self.tagged_below(i as int, ids@[a], tag));
                let j = choose|j: int|
                    0 <= j < i && self.has_at(j, id) && self.entities@[j].kind.has_tag_spec(tag);
                self.lemma_at(j);
            }
            assert forall|id: EntityId|
                self@.contains_key(id) && self@[id].kind.has_tag_spec(tag) implies ids@.contains(
                id,
            ) by {
                self.lemma_key(id);
                let j = self.index_of(id);
                assert(self.entities@[j].kind.has_tag_spec(tag));
            }
        }
        ids
    }
}

} // verus!

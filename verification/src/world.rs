//! The registry ("world"): owner of the entity slot table, the free list and
//! all columns, and the type-indexed router between them.
//!
//! Columns are stored in one uniform list and addressed by an explicit type
//! key (`u64`): the caller picks one key per component type and the registry
//! routes each operation to the column registered under that key, creating it
//! lazily on first attach. The registry keeps every column exactly as long as
//! the slot table, so any live entity has a (possibly empty) slot in every
//! column.

use vstd::prelude::*;

use crate::column::{Components, RefComponent, RefMutComponent};
use crate::entity::Entity;

verus! {

/// One registered column together with the type key it is registered under.
pub struct ColumnEntry<C> {
    pub(crate) key: u64,
    pub(crate) comps: Components<C>,
}

impl<C> ColumnEntry<C> {
    /// The type key this column is registered under.
    pub closed spec fn spec_key(self) -> u64 {
        self.key
    }

    /// The column itself.
    pub closed spec fn spec_comps(self) -> Components<C> {
        self.comps
    }
}

/// The registry: entity lifecycle, key-indexed routing to columns, and
/// accessor issuance.
pub struct World<C> {
    entities_count: usize,
    component_vecs: Vec<ColumnEntry<C>>,
    entities: Vec<Entity>,
    free_entities: Vec<Entity>,
}

impl<C> World<C> {
    /// How many entity slots have been allocated so far.
    pub closed spec fn spec_entities_count(self) -> nat {
        self.entities_count as nat
    }

    /// The slot table: the current occupant of every allocated slot.
    pub closed spec fn spec_entities(self) -> Seq<Entity> {
        self.entities@
    }

    /// The free list: recycled handles (generation already bumped) waiting
    /// for reuse.
    pub closed spec fn spec_free(self) -> Seq<Entity> {
        self.free_entities@
    }

    /// The registered columns, in registration order.
    pub closed spec fn spec_columns(self) -> Seq<ColumnEntry<C>> {
        self.component_vecs@
    }

    /// How many columns are registered.
    pub open spec fn spec_num_columns(self) -> nat {
        self.spec_columns().len()
    }

    /// Whether a column is registered under `key`.
    pub closed spec fn spec_has_column(self, key: u64) -> bool {
        exists|j: int|
            0 <= j < self.component_vecs@.len() && self.component_vecs@[j].key == key
    }

    /// The position of the column registered under `key` (meaningful only
    /// when `spec_has_column(key)` holds; unique by well-formedness).
    pub closed spec fn spec_column_index(self, key: u64) -> int {
        choose|j: int|
            0 <= j < self.component_vecs@.len() && self.component_vecs@[j].key == key
    }

    /// The column registered under `key`.
    pub open spec fn spec_column(self, key: u64) -> Components<C> {
        self.spec_columns()[self.spec_column_index(key)].spec_comps()
    }

    /// The payload stored for slot `idx` in the column registered under
    /// `key`.
    pub open spec fn spec_component(self, key: u64, idx: int) -> Option<C> {
        self.spec_column(key).spec_slots()[idx]
    }

    /// A handle is valid exactly when its slot exists and the slot table
    /// still records this very handle, generation included. A handle kept
    /// across a destroy-and-reuse cycle fails this test.
    pub open spec fn valid_entity(self, e: Entity) -> bool {
        e.id < self.spec_entities().len() && self.spec_entities()[e.id as int] == e
    }

    /// When a shared accessor for `key` at `e` can be issued: the handle is
    /// valid, the column exists, no exclusive accessor is outstanding on it,
    /// and the reader count can still grow.
    pub open spec fn can_read(self, e: Entity, key: u64) -> bool {
        &&& self.valid_entity(e)
        &&& self.spec_has_column(key)
        &&& !self.spec_column(key).spec_writer()
        &&& self.spec_column(key).spec_readers() < usize::MAX
    }

    /// When an exclusive accessor for `key` at `e` can be issued: the handle
    /// is valid, the column exists, and no accessor of either kind is
    /// outstanding on it.
    pub open spec fn can_write(self, e: Entity, key: u64) -> bool {
        &&& self.valid_entity(e)
        &&& self.spec_has_column(key)
        &&& !self.spec_column(key).spec_writer()
        &&& self.spec_column(key).spec_readers() == 0
    }

    /// Every column registered under a key other than `key` is carried from
    /// `pre` to `post` untouched.
    pub open spec fn other_columns_unchanged(pre: Self, post: Self, key: u64) -> bool {
        &&& forall|k2: u64|
            k2 != key ==> (#[trigger] post.spec_has_column(k2)) == pre.spec_has_column(k2)
        &&& forall|k2: u64|
            k2 != key && pre.spec_has_column(k2) ==> (#[trigger] post.spec_column(k2))
                == pre.spec_column(k2)
    }

    /// Well-formedness: the slot table is exactly `entities_count` long and
    /// each record sits at its own index; every column is length-synced with
    /// the slot table and obeys the accessor discipline; no key has two
    /// columns; every free-list entry names an existing slot.
    pub closed spec fn wf(self) -> bool {
        &&& self.entities@.len() == self.entities_count
        &&& forall|i: int|
            0 <= i < self.entities@.len() ==> (#[trigger] self.entities@[i]).id == i
        &&& forall|j: int|
            0 <= j < self.component_vecs@.len() ==> (#[trigger] self.component_vecs@[j])
                .comps.spec_slots().len() == self.entities_count
        &&& forall|j: int|
            0 <= j < self.component_vecs@.len() ==> (#[trigger] self.component_vecs@[j])
                .comps.inv()
        &&& forall|j: int, k: int|
            0 <= j < self.component_vecs@.len() && 0 <= k < self.component_vecs@.len() && j != k
                ==> (#[trigger] self.component_vecs@[j]).key
                != (#[trigger] self.component_vecs@[k]).key
        &&& forall|f: int|
            0 <= f < self.free_entities@.len() ==> (#[trigger] self.free_entities@[f]).id
                < self.entities@.len()
    }

    /// Pins the column lookup down: if the entry at `j` carries `key`, then
    /// `key` is registered and `j` is its (unique) position.
    proof fn lemma_key_at(self, key: u64, j: int)
        requires
            self.wf(),
            0 <= j < self.spec_columns().len(),
            self.spec_columns()[j].spec_key() == key,
        ensures
            self.spec_has_column(key),
            self.spec_column_index(key) == j,
            self.spec_column(key) == self.spec_columns()[j].spec_comps(),
    {
        assert(self.component_vecs@[j].key == key);
        assert(self.spec_has_column(key));
        let ci = self.spec_column_index(key);
        assert(0 <= ci < self.component_vecs@.len() && self.component_vecs@[ci].key == key);
        assert(ci == j);
    }

    /// Carries well-formedness and key routing across an update that touches
    /// only the column at position `j` and keeps its key and slot count.
    proof fn lemma_one_column_step(pre: Self, post: Self, key: u64, j: int)
        requires
            pre.wf(),
            0 <= j < pre.spec_columns().len(),
            pre.spec_columns()[j].spec_key() == key,
            post.spec_columns().len() == pre.spec_columns().len(),
            forall|k: int|
                0 <= k < pre.spec_columns().len() && k != j ==> #[trigger] post.spec_columns()[k]
                    == pre.spec_columns()[k],
            post.spec_columns()[j].spec_key() == key,
            post.spec_columns()[j].spec_comps().spec_slots().len() == pre.spec_columns()[j]
                .spec_comps().spec_slots().len(),
            post.spec_columns()[j].spec_comps().inv(),
            post.spec_entities() == pre.spec_entities(),
            post.spec_free() == pre.spec_free(),
            post.spec_entities_count() == pre.spec_entities_count(),
        ensures
            post.wf(),
            pre.spec_has_column(key),
            post.spec_has_column(key),
            pre.spec_column_index(key) == j,
            post.spec_column_index(key) == j,
            pre.spec_column(key) == pre.spec_columns()[j].spec_comps(),
            post.spec_column(key) == post.spec_columns()[j].spec_comps(),
            Self::other_columns_unchanged(pre, post, key),
    {
        pre.lemma_key_at(key, j);
        assert forall|jj: int|
            0 <= jj < post.component_vecs@.len() implies (#[trigger] post.component_vecs@[jj])
                .key == pre.component_vecs@[jj].key by {
            if jj != j {
                assert(post.component_vecs@[jj] == pre.component_vecs@[jj]);
            }
        }
        assert(post.wf());
        post.lemma_key_at(key, j);
        assert forall|k2: u64|
            k2 != key implies (#[trigger] post.spec_has_column(k2)) == pre.spec_has_column(
            k2,
        ) by {
            if pre.spec_has_column(k2) {
                let j2 = choose|x: int|
                    0 <= x < pre.component_vecs@.len() && pre.component_vecs@[x].key == k2;
                assert(post.component_vecs@[j2].key == k2);
                assert(post.spec_has_column(k2));
            }
            if post.spec_has_column(k2) {
                let j2 = choose|x: int|
                    0 <= x < post.component_vecs@.len() && post.component_vecs@[x].key == k2;
                assert(pre.component_vecs@[j2].key == k2);
                assert(pre.spec_has_column(k2));
            }
        }
        assert forall|k2: u64|
            k2 != key && pre.spec_has_column(k2) implies (#[trigger] post.spec_column(k2))
                == pre.spec_column(k2) by {
            let j2 = choose|x: int|
                0 <= x < pre.component_vecs@.len() && pre.component_vecs@[x].key == k2;
            pre.lemma_key_at(k2, j2);
            assert(post.component_vecs@[j2].key == k2);
            post.lemma_key_at(k2, j2);
            assert(post.component_vecs@[j2] == pre.component_vecs@[j2]);
        }
    }

    /// Carries well-formedness and key routing across the registration of a
    /// fresh column under a key not seen before.
    proof fn lemma_push_column_step(pre: Self, post: Self, key: u64)
        requires
            pre.wf(),
            !pre.spec_has_column(key),
            post.spec_columns().len() == pre.spec_columns().len() + 1,
            forall|k: int|
                0 <= k < pre.spec_columns().len() ==> #[trigger] post.spec_columns()[k]
                    == pre.spec_columns()[k],
            post.spec_columns().last().spec_key() == key,
            post.spec_columns().last().spec_comps().spec_slots().len()
                == pre.spec_entities_count(),
            post.spec_columns().last().spec_comps().inv(),
            post.spec_entities() == pre.spec_entities(),
            post.spec_free() == pre.spec_free(),
            post.spec_entities_count() == pre.spec_entities_count(),
        ensures
            post.wf(),
            post.spec_has_column(key),
            post.spec_column_index(key) == pre.spec_columns().len(),
            post.spec_column(key) == post.spec_columns().last().spec_comps(),
            Self::other_columns_unchanged(pre, post, key),
    {
        let n = pre.component_vecs@.len() as int;
        assert forall|jj: int|
            0 <= jj < n implies (#[trigger] post.component_vecs@[jj]).key != key by {
            if post.component_vecs@[jj].key == key {
                assert(pre.component_vecs@[jj].key == key);
                assert(pre.spec_has_column(key));
            }
        }
        assert(post.wf());
        post.lemma_key_at(key, n);
        assert forall|k2: u64|
            k2 != key implies (#[trigger] post.spec_has_column(k2)) == pre.spec_has_column(
            k2,
        ) by {
            if pre.spec_has_column(k2) {
                let j2 = choose|x: int|
                    0 <= x < pre.component_vecs@.len() && pre.component_vecs@[x].key == k2;
                assert(post.component_vecs@[j2].key == k2);
                assert(post.spec_has_column(k2));
            }
            if post.spec_has_column(k2) {
                let j2 = choose|x: int|
                    0 <= x < post.component_vecs@.len() && post.component_vecs@[x].key == k2;
                assert(j2 != n);
                assert(pre.component_vecs@[j2].key == k2);
                assert(pre.spec_has_column(k2));
            }
        }
        assert forall|k2: u64|
            k2 != key && pre.spec_has_column(k2) implies (#[trigger] post.spec_column(k2))
                == pre.spec_column(k2) by {
            let j2 = choose|x: int|
                0 <= x < pre.component_vecs@.len() && pre.component_vecs@[x].key == k2;
            pre.lemma_key_at(k2, j2);
            assert(post.component_vecs@[j2].key == k2);
            post.lemma_key_at(k2, j2);
            assert(post.component_vecs@[j2] == pre.component_vecs@[j2]);
        }
    }

    /// A fresh registry: no slots, no columns, nothing to reuse.
    pub fn new() -> (w: Self)
        ensures
            w.wf(),
            w.spec_entities_count() == 0,
            w.spec_entities().len() == 0,
            w.spec_free().len() == 0,
            w.spec_num_columns() == 0,
    {
        World {
            entities_count: 0,
            component_vecs: Vec::new(),
            entities: Vec::new(),
            free_entities: Vec::new(),
        }
    }

    /// How many entity slots have been allocated.
    pub fn entity_count(&self) -> (n: usize)
        ensures
            n == self.spec_entities_count(),
    {
        self.entities_count
    }

    /// How many columns are registered.
    pub fn num_columns(&self) -> (n: usize)
        ensures
            n == self.spec_num_columns(),
    {
        self.component_vecs.len()
    }

    /// Scans the column list for the one registered under `key`, mirroring
    /// the dynamic type-identity scan of a type-erased store.
    fn find_column(&self, key: u64) -> (r: Option<usize>)
        ensures
            r is Some <==> self.spec_has_column(key),
            r is Some ==> r->Some_0 < self.spec_columns().len()
                && self.spec_columns()[r->Some_0 as int].spec_key() == key,
    {
        let n = self.component_vecs.len();
        let mut j: usize = 0;
        while j < n
            invariant
                n == self.component_vecs@.len(),
                j <= n,
                forall|k: int| 0 <= k < j ==> (#[trigger] self.component_vecs@[k]).key != key,
            decreases n - j,
        {
            if self.component_vecs[j].key == key {
                return Some(j);
            }
            j = j + 1;
        }
        None
    }

    /// The number of slots of the column registered under `key`, if any.
    pub fn column_len(&self, key: u64) -> (r: Option<usize>)
        requires
            self.wf(),
        ensures
            r is Some <==> self.spec_has_column(key),
            r is Some ==> r->Some_0 == self.spec_column(key).spec_slots().len(),
    {
        match self.find_column(key) {
            Some(j) => {
                proof {
                    self.lemma_key_at(key, j as int);
                }
                Some(self.component_vecs[j].comps.len())
            },
            None => None,
        }
    }

    /// Creates an entity: pops a recycled handle off the free list if one is
    /// waiting (its generation was bumped when its slot was freed), else
    /// allocates the next fresh slot with generation `0` and appends one
    /// empty slot to every registered column, keeping them length-synced.
    pub fn new_entity(&mut self) -> (e: Entity)
        requires
            old(self).wf(),
            old(self).spec_entities_count() < usize::MAX,
        ensures
            final(self).wf(),
            final(self).valid_entity(e),
            final(self).spec_num_columns() == old(self).spec_num_columns(),
            old(self).spec_free().len() > 0 ==> {
                &&& e == old(self).spec_free().last()
                &&& final(self).spec_free() == old(self).spec_free().drop_last()
                &&& final(self).spec_entities_count() == old(self).spec_entities_count()
                &&& final(self).spec_entities() == old(self).spec_entities().update(e.id as int, e)
                &&& final(self).spec_columns() == old(self).spec_columns()
                &&& forall|k: u64|
                    old(self).spec_has_column(k) ==> (#[trigger] final(self).spec_column(k))
                        == old(self).spec_column(k)
            },
            forall|k: u64|
                (#[trigger] final(self).spec_has_column(k)) == old(self).spec_has_column(k),
            old(self).spec_free().len() == 0 ==> {
                &&& e.id == old(self).spec_entities_count()
                &&& e.gen == 0
                &&& final(self).spec_free() == old(self).spec_free()
                &&& final(self).spec_entities_count() == old(self).spec_entities_count() + 1
                &&& final(self).spec_entities() == old(self).spec_entities().push(e)
                &&& forall|k: u64| old(self).spec_has_column(k) ==> {
                    &&& (#[trigger] final(self).spec_column(k)).spec_slots()
                        == old(self).spec_column(k).spec_slots().push(None)
                    &&& final(self).spec_column(k).spec_readers()
                        == old(self).spec_column(k).spec_readers()
                    &&& final(self).spec_column(k).spec_writer()
                        == old(self).spec_column(k).spec_writer()
                }
                &&& forall|j: int| 0 <= j < old(self).spec_num_columns() ==> {
                    &&& (#[trigger] final(self).spec_columns()[j]).spec_key()
                        == old(self).spec_columns()[j].spec_key()
                    &&& final(self).spec_columns()[j].spec_comps().spec_slots()
                        == old(self).spec_columns()[j].spec_comps().spec_slots().push(None)
                    &&& final(self).spec_columns()[j].spec_comps().spec_readers()
                        == old(self).spec_columns()[j].spec_comps().spec_readers()
                    &&& final(self).spec_columns()[j].spec_comps().spec_writer()
                        == old(self).spec_columns()[j].spec_comps().spec_writer()
                }
            },
    {
        let popped = self.free_entities.pop();
        match popped {
            Some(entity) => {
                self.entities[entity.id] = entity;
                proof {
                    assert forall|k: u64| old(self).spec_has_column(k) implies (
                    #[trigger] self.spec_column(k)) == old(self).spec_column(k) by {
                        let j2 = choose|x: int|
                            0 <= x < old(self).component_vecs@.len() && old(
                                self,
                            ).component_vecs@[x].key == k;
                        old(self).lemma_key_at(k, j2);
                        assert(self.component_vecs@[j2].key == k);
                        self.lemma_key_at(k, j2);
                    }
                }
                entity
            },
            None => {
                let entity = Entity { id: self.entities_count, gen: 0 };
                self.entities_count = self.entities_count + 1;
                let n = self.component_vecs.len();
                let mut j: usize = 0;
                while j < n
                    invariant
                        n == self.component_vecs@.len(),
                        n == old(self).component_vecs@.len(),
                        j <= n,
                        self.entities_count == old(self).entities_count + 1,
                        self.entities@ == old(self).entities@,
                        self.free_entities@ == old(self).free_entities@,
                        forall|k: int|
                            0 <= k < j ==> (#[trigger] self.component_vecs@[k]).key == old(
                                self,
                            ).component_vecs@[k].key && self.component_vecs@[k].comps.spec_slots()
                                == old(self).component_vecs@[k].comps.spec_slots().push(None)
                                && self.component_vecs@[k].comps.spec_readers() == old(
                                self,
                            ).component_vecs@[k].comps.spec_readers()
                                && self.component_vecs@[k].comps.spec_writer() == old(
                                self,
                            ).component_vecs@[k].comps.spec_writer(),
                        forall|k: int|
                            j <= k < n ==> (#[trigger] self.component_vecs@[k]) == old(
                                self,
                            ).component_vecs@[k],
                    decreases n - j,
                {
                    let entry = &mut self.component_vecs[j];
                    entry.comps.push_none();
                    j = j + 1;
                }
                self.entities.push(entity);
                proof {
                    assert forall|k: u64|
                        (#[trigger] self.spec_has_column(k)) == old(self).spec_has_column(k) by {
                        if old(self).spec_has_column(k) {
                            let j2 = choose|x: int|
                                0 <= x < old(self).component_vecs@.len() && old(
                                    self,
                                ).component_vecs@[x].key == k;
                            assert(self.component_vecs@[j2].key == k);
                            assert(self.spec_has_column(k));
                        }
                        if self.spec_has_column(k) {
                            let j2 = choose|x: int|
                                0 <= x < self.component_vecs@.len() && self.component_vecs@[x].key
                                    == k;
                            assert(old(self).component_vecs@[j2].key == k);
                            assert(old(self).spec_has_column(k));
                        }
                    }
                    assert forall|k: u64| old(self).spec_has_column(k) implies ((
                    #[trigger] self.spec_column(k)).spec_slots() == old(self).spec_column(
                        k,
                    ).spec_slots().push(None) && self.spec_column(k).spec_readers() == old(
                        self,
                    ).spec_column(k).spec_readers() && self.spec_column(k).spec_writer() == old(
                        self,
                    ).spec_column(k).spec_writer()) by {
                        let j2 = choose|x: int|
                            0 <= x < old(self).component_vecs@.len() && old(
                                self,
                            ).component_vecs@[x].key == k;
                        old(self).lemma_key_at(k, j2);
                        assert(self.component_vecs@[j2].key == k);
                        self.lemma_key_at(k, j2);
                    }
                }
                entity
            },
        }
    }

    /// What attaching `v` under `key` at handle `e` does to the registry:
    /// the slot table, the free list and every other column are untouched;
    /// the column under `key` — created empty and length-synced if `key` was
    /// new — now holds `Some(v)` at slot `e.id` and its other slots as
    /// before.
    pub open spec fn attach_post(pre: Self, post: Self, e: Entity, key: u64, v: C) -> bool {
        &&& post.spec_entities() == pre.spec_entities()
        &&& post.spec_free() == pre.spec_free()
        &&& post.spec_entities_count() == pre.spec_entities_count()
        &&& post.spec_has_column(key)
        &&& post.spec_component(key, e.id as int) == Some(v)
        &&& (pre.spec_has_column(key) ==> post.spec_num_columns() == pre.spec_num_columns()
            && post.spec_column(key).spec_slots() == pre.spec_column(key).spec_slots().update(
            e.id as int,
            Some(v),
        ) && post.spec_column(key).spec_readers() == pre.spec_column(key).spec_readers()
            && post.spec_column(key).spec_writer() == pre.spec_column(key).spec_writer())
        &&& (!pre.spec_has_column(key) ==> post.spec_num_columns() == pre.spec_num_columns() + 1
            && post.spec_column(key).spec_slots().len() == pre.spec_entities_count() && (
        forall|i: int|
            0 <= i < pre.spec_entities_count() && i != e.id as int
                ==> post.spec_column(key).spec_slots()[i] is None) && post.spec_column(
            key,
        ).spec_readers() == 0 && !post.spec_column(key).spec_writer())
        &&& Self::other_columns_unchanged(pre, post, key)
    }

    /// Attaches `v` under `key` at handle `entity`, overwriting any payload
    /// the slot already carried and registering a fresh, length-synced column
    /// the first time `key` is seen. The handle is deliberately not checked
    /// against the slot table (unlike the read paths): any slot within range
    /// is written, stale or not.
    pub fn add_component_to_entity(&mut self, entity: Entity, key: u64, component: C)
        requires
            old(self).wf(),
            entity.id < old(self).spec_entities_count(),
            old(self).spec_has_column(key) ==> !old(self).spec_column(key).spec_writer(),
        ensures
            final(self).wf(),
            Self::attach_post(*old(self), *final(self), entity, key, component),
    {
        let found = self.find_column(key);
        match found {
            Some(j) => {
                proof {
                    self.lemma_key_at(key, j as int);
                }
                let ghost pre = *self;
                let entry = &mut self.component_vecs[j];
                entry.comps.set(entity.id, component);
                proof {
                    Self::lemma_one_column_step(pre, *self, key, j as int);
                }
            },
            None => {
                let ghost pre = *self;
                let mut comps = Components::new(self.entities_count);
                comps.set(entity.id, component);
                self.component_vecs.push(ColumnEntry { key, comps });
                proof {
                    Self::lemma_push_column_step(pre, *self, key);
                }
            },
        }
    }

    /// Connects key routing to column positions: a registered key has
    /// exactly one column, and `spec_column` is the column at its position.
    pub proof fn lemma_column_lookup(self, key: u64)
        requires
            self.wf(),
            self.spec_has_column(key),
        ensures
            0 <= self.spec_column_index(key) < self.spec_num_columns(),
            self.spec_columns()[self.spec_column_index(key)].spec_key() == key,
            self.spec_column(key) == self.spec_columns()[self.spec_column_index(
                key,
            )].spec_comps(),
            forall|j: int|
                0 <= j < self.spec_num_columns() && (#[trigger] self.spec_columns()[j]).spec_key()
                    == key ==> j == self.spec_column_index(key),
    {
        let ci = self.spec_column_index(key);
        assert(0 <= ci < self.component_vecs@.len() && self.component_vecs@[ci].key == key);
    }

    /// Law: no key ever has two columns — the "at most one column per
    /// component type" invariant of the registry's lazy registration.
    pub proof fn lemma_column_keys_unique(self)
        requires
            self.wf(),
        ensures
            forall|j: int, k: int|
                0 <= j < self.spec_num_columns() && 0 <= k < self.spec_num_columns() && j != k
                    ==> (#[trigger] self.spec_columns()[j]).spec_key()
                    != (#[trigger] self.spec_columns()[k]).spec_key(),
    {
    }

    /// Law: the slot table is exactly `entities_count` long and every
    /// registered column is length-synced with it — one slot per entity
    /// slot ever allocated, whichever entities actually carry the component.
    pub proof fn lemma_columns_lockstep(self)
        requires
            self.wf(),
        ensures
            self.spec_entities().len() == self.spec_entities_count(),
            forall|j: int|
                0 <= j < self.spec_num_columns() ==> (#[trigger] self.spec_columns()[j])
                    .spec_comps().spec_slots().len() == self.spec_entities_count(),
            forall|k: u64|
                self.spec_has_column(k) ==> (#[trigger] self.spec_column(k)).spec_slots().len()
                    == self.spec_entities_count(),
    {
        assert forall|k: u64|
            self.spec_has_column(k) implies (#[trigger] self.spec_column(k)).spec_slots().len()
            == self.spec_entities_count() by {
            let j2 = choose|x: int|
                0 <= x < self.component_vecs@.len() && self.component_vecs@[x].key == k;
            self.lemma_key_at(k, j2);
        }
    }

    /// Law: at most one handle per slot validates — two valid handles with
    /// the same slot index are the same handle, generation included.
    pub proof fn lemma_live_handle_unique(self, e1: Entity, e2: Entity)
        requires
            self.wf(),
            self.valid_entity(e1),
            self.valid_entity(e2),
            e1.id == e2.id,
        ensures
            e1 == e2,
    {
    }

    /// Law: a stale handle is rejected on read — while a slot is occupied
    /// under one generation, a handle to the same slot with any other
    /// generation fails validation, so `get_component` and
    /// `get_component_mut` (whose success conditions require validity)
    /// return `None` for it.
    pub proof fn lemma_stale_handle_rejected(self, e_old: Entity, e_new: Entity)
        requires
            self.wf(),
            self.valid_entity(e_new),
            e_old.id == e_new.id,
            e_old.gen != e_new.gen,
        ensures
            !self.valid_entity(e_old),
            forall|key: u64| !(#[trigger] self.can_read(e_old, key)),
            forall|key: u64| !(#[trigger] self.can_write(e_old, key)),
    {
    }

    /// Law (round trip): after attaching `v` under `key`, a handle that is
    /// (still) valid finds exactly `Some(v)` stored under that key at its
    /// slot — which is what `get_component`'s contract then hands out
    /// through the accessor.
    pub proof fn lemma_round_trip(pre: Self, post: Self, e: Entity, key: u64, v: C)
        requires
            pre.wf(),
            Self::attach_post(pre, post, e, key, v),
            post.valid_entity(e),
        ensures
            post.spec_has_column(key),
            post.spec_component(key, e.id as int) == Some(v),
    {
    }

    /// Law (type isolation): attaching under `key` is invisible under every
    /// other key — the other key's column, payloads and accessor
    /// bookkeeping alike, is exactly as before, and it exists afterwards
    /// only if it existed before.
    pub proof fn lemma_type_isolation(pre: Self, post: Self, e: Entity, key: u64, v: C, other: u64)
        requires
            pre.wf(),
            Self::attach_post(pre, post, e, key, v),
            other != key,
        ensures
            post.spec_has_column(other) == pre.spec_has_column(other),
            pre.spec_has_column(other) ==> post.spec_column(other) == pre.spec_column(other),
            pre.spec_has_column(other) ==> forall|i: int|
                #[trigger] post.spec_component(other, i) == pre.spec_component(other, i),
    {
    }

    /// Law (exclusivity): while a column's exclusive accessor is
    /// outstanding, no shared accessor is outstanding on it and every
    /// further acquisition on it — shared or exclusive, whatever the handle
    /// — is refused.
    pub proof fn lemma_exclusive_excludes(self, key: u64)
        requires
            self.wf(),
            self.spec_has_column(key),
            self.spec_column(key).spec_writer(),
        ensures
            self.spec_column(key).spec_readers() == 0,
            forall|e: Entity| !(#[trigger] self.can_read(e, key)),
            forall|e: Entity| !(#[trigger] self.can_write(e, key)),
    {
        let ci = self.spec_column_index(key);
        assert(0 <= ci < self.component_vecs@.len() && self.component_vecs@[ci].key == key);
        assert(self.component_vecs@[ci].comps.inv());
    }

    /// Law (exclusivity, the other direction): while any shared accessor is
    /// outstanding on a column, the exclusive accessor is refused on it,
    /// whatever the handle.
    pub proof fn lemma_shared_blocks_exclusive(self, key: u64)
        requires
            self.wf(),
            self.spec_has_column(key),
            self.spec_column(key).spec_readers() > 0,
        ensures
            forall|e: Entity| !(#[trigger] self.can_write(e, key)),
    {
    }

    /// Destroys a live entity: empties its slot in every column, bumps the
    /// slot's generation so the old handle no longer validates, and returns
    /// the bumped handle to the free list for reuse. A stale or unknown
    /// handle destroys nothing and the call returns `false`. No column may
    /// have an exclusive accessor outstanding, since the slots are rewritten.
    pub fn destroy_entity(&mut self, entity: Entity) -> (r: bool)
        requires
            old(self).wf(),
            entity.gen < u32::MAX,
            forall|k: u64|
                old(self).spec_has_column(k) ==> !(#[trigger] old(self).spec_column(
                    k,
                )).spec_writer(),
        ensures
            final(self).wf(),
            r <==> old(self).valid_entity(entity),
            final(self).spec_entities_count() == old(self).spec_entities_count(),
            final(self).spec_num_columns() == old(self).spec_num_columns(),
            forall|k: u64|
                (#[trigger] final(self).spec_has_column(k)) == old(self).spec_has_column(k),
            !r ==> final(self).spec_entities() == old(self).spec_entities()
                && final(self).spec_free() == old(self).spec_free()
                && final(self).spec_columns() == old(self).spec_columns(),
            r ==> {
                &&& !final(self).valid_entity(entity)
                &&& final(self).spec_entities() == old(self).spec_entities().update(
                    entity.id as int,
                    (Entity { id: entity.id, gen: (entity.gen + 1) as u32 }),
                )
                &&& final(self).spec_free() == old(self).spec_free().push(
                    (Entity { id: entity.id, gen: (entity.gen + 1) as u32 }),
                )
                &&& forall|k: u64| old(self).spec_has_column(k) ==> {
                    &&& (#[trigger] final(self).spec_column(k)).spec_slots()
                        == old(self).spec_column(k).spec_slots().update(entity.id as int, None)
                    &&& final(self).spec_column(k).spec_readers()
                        == old(self).spec_column(k).spec_readers()
                    &&& final(self).spec_column(k).spec_writer()
                        == old(self).spec_column(k).spec_writer()
                }
                &&& forall|j: int| 0 <= j < old(self).spec_num_columns() ==> {
                    &&& (#[trigger] final(self).spec_columns()[j]).spec_key()
                        == old(self).spec_columns()[j].spec_key()
                    &&& final(self).spec_columns()[j].spec_comps().spec_slots()
                        == old(self).spec_columns()[j].spec_comps().spec_slots().update(
                        entity.id as int,
                        None,
                    )
                    &&& final(self).spec_columns()[j].spec_comps().spec_readers()
                        == old(self).spec_columns()[j].spec_comps().spec_readers()
                    &&& final(self).spec_columns()[j].spec_comps().spec_writer()
                        == old(self).spec_columns()[j].spec_comps().spec_writer()
                }
            },
    {
        if entity.id < self.entities.len() {
            let current = self.entities[entity.id];
            if current == entity {
                proof {
                    assert forall|k: int|
                        0 <= k < old(self).component_vecs@.len() implies !(#[trigger] old(
                        self,
                    ).spec_columns()[k]).spec_comps().spec_writer() by {
                        let kk = old(self).component_vecs@[k].key;
                        old(self).lemma_key_at(kk, k);
                    }
                }
                let bumped = Entity { id: entity.id, gen: entity.gen + 1 };
                self.entities[entity.id] = bumped;
                self.free_entities.push(bumped);
                let n = self.component_vecs.len();
                let mut j: usize = 0;
                while j < n
                    invariant
                        old(self).wf(),
                        forall|k: int|
                            0 <= k < n ==> !(#[trigger] old(self).spec_columns()[k]).spec_comps()
                                .spec_writer(),
                        n == self.component_vecs@.len(),
                        n == old(self).component_vecs@.len(),
                        j <= n,
                        entity.id < old(self).entities@.len(),
                        bumped == (Entity { id: entity.id, gen: (entity.gen + 1) as u32 }),
                        self.entities_count == old(self).entities_count,
                        self.entities@ == old(self).entities@.update(entity.id as int, bumped),
                        self.free_entities@ == old(self).free_entities@.push(bumped),
                        forall|k: int| 0 <= k < j ==> {
                            &&& (#[trigger] self.component_vecs@[k]).key == old(
                                self,
                            ).component_vecs@[k].key
                            &&& self.component_vecs@[k].comps.spec_slots() == old(
                                self,
                            ).component_vecs@[k].comps.spec_slots().update(entity.id as int, None)
                            &&& self.component_vecs@[k].comps.spec_readers() == old(
                                self,
                            ).component_vecs@[k].comps.spec_readers()
                            &&& self.component_vecs@[k].comps.spec_writer() == old(
                                self,
                            ).component_vecs@[k].comps.spec_writer()
                        },
                        forall|k: int|
                            j <= k < n ==> (#[trigger] self.component_vecs@[k]) == old(
                                self,
                            ).component_vecs@[k],
                    decreases n - j,
                {
                    proof {
                        assert(self.component_vecs@[j as int] == old(
                            self,
                        ).component_vecs@[j as int]);
                        assert(!old(self).spec_columns()[j as int].spec_comps().spec_writer());
                    }
                    let entry = &mut self.component_vecs[j];
                    entry.comps.clear_slot(entity.id);
                    j = j + 1;
                }
                proof {
                    assert forall|k: u64|
                        (#[trigger] self.spec_has_column(k)) == old(self).spec_has_column(k) by {
                        if old(self).spec_has_column(k) {
                            let j2 = choose|x: int|
                                0 <= x < old(self).component_vecs@.len() && old(
                                    self,
                                ).component_vecs@[x].key == k;
                            assert(self.component_vecs@[j2].key == k);
                            assert(self.spec_has_column(k));
                        }
                        if self.spec_has_column(k) {
                            let j2 = choose|x: int|
                                0 <= x < self.component_vecs@.len() && self.component_vecs@[x].key
                                    == k;
                            assert(old(self).component_vecs@[j2].key == k);
                            assert(old(self).spec_has_column(k));
                        }
                    }
                    assert forall|k: u64| old(self).spec_has_column(k) implies ((
                    #[trigger] self.spec_column(k)).spec_slots() == old(self).spec_column(
                        k,
                    ).spec_slots().update(entity.id as int, None) && self.spec_column(
                        k,
                    ).spec_readers() == old(self).spec_column(k).spec_readers()
                        && self.spec_column(k).spec_writer() == old(self).spec_column(
                        k,
                    ).spec_writer()) by {
                        let j2 = choose|x: int|
                            0 <= x < old(self).component_vecs@.len() && old(
                                self,
                            ).component_vecs@[x].key == k;
                        old(self).lemma_key_at(k, j2);
                        assert(self.component_vecs@[j2].key == k);
                        self.lemma_key_at(k, j2);
                    }
                }
                true
            } else {
                false
            }
        } else {
            false
        }
    }

    /// Ends one shared access of the column under `key`. Returns `false`
    /// (and changes nothing) when no such column exists or it has no shared
    /// accessor outstanding, which marks a misuse of the discipline. The
    /// accessor is consumed: its scope ends here.
    pub fn release_component(&mut self, key: u64, accessor: RefComponent<C>) -> (r: bool)
        requires
            old(self).wf(),
        ensures
            final(self).wf(),
            final(self).spec_entities() == old(self).spec_entities(),
            final(self).spec_free() == old(self).spec_free(),
            final(self).spec_entities_count() == old(self).spec_entities_count(),
            final(self).spec_num_columns() == old(self).spec_num_columns(),
            Self::other_columns_unchanged(*old(self), *final(self), key),
            r <==> (old(self).spec_has_column(key) && old(self).spec_column(key).spec_readers()
                > 0),
            r ==> {
                &&& final(self).spec_has_column(key)
                &&& final(self).spec_column(key).spec_slots() == old(self).spec_column(
                    key,
                ).spec_slots()
                &&& final(self).spec_column(key).spec_readers() == old(self).spec_column(
                    key,
                ).spec_readers() - 1
                &&& final(self).spec_column(key).spec_writer() == old(self).spec_column(
                    key,
                ).spec_writer()
            },
            !r ==> final(self).spec_columns() == old(self).spec_columns(),
    {
        match self.find_column(key) {
            Some(j) => {
                proof {
                    self.lemma_key_at(key, j as int);
                }
                let ghost pre = *self;
                let entry = &mut self.component_vecs[j];
                let ok = entry.comps.end_read();
                proof {
                    Self::lemma_one_column_step(pre, *self, key, j as int);
                    if !ok {
                        assert(self.component_vecs@ =~= pre.component_vecs@);
                    }
                }
                ok
            },
            None => false,
        }
    }

    /// Returns an exclusive accessor for the column under `key`: the payload
    /// it carries is written back into its slot and the exclusion is lifted.
    /// Returns `false` (and changes nothing) when no such column exists, it
    /// has no exclusive accessor outstanding, or the accessor does not fit
    /// it, which marks a misuse of the discipline.
    pub fn release_component_mut(&mut self, key: u64, accessor: RefMutComponent<C>) -> (r: bool)
        requires
            old(self).wf(),
        ensures
            final(self).wf(),
            final(self).spec_entities() == old(self).spec_entities(),
            final(self).spec_free() == old(self).spec_free(),
            final(self).spec_entities_count() == old(self).spec_entities_count(),
            final(self).spec_num_columns() == old(self).spec_num_columns(),
            Self::other_columns_unchanged(*old(self), *final(self), key),
            r <==> (old(self).spec_has_column(key) && old(self).spec_column(key).spec_writer()
                && accessor.spec_idx() < old(self).spec_column(key).spec_slots().len()),
            r ==> {
                &&& final(self).spec_has_column(key)
                &&& final(self).spec_column(key).spec_slots() == old(self).spec_column(
                    key,
                ).spec_slots().update(accessor.spec_idx() as int, accessor.spec_value())
                &&& final(self).spec_column(key).spec_readers() == old(self).spec_column(
                    key,
                ).spec_readers()
                &&& !final(self).spec_column(key).spec_writer()
            },
            !r ==> final(self).spec_columns() == old(self).spec_columns(),
    {
        match self.find_column(key) {
            Some(j) => {
                proof {
                    self.lemma_key_at(key, j as int);
                }
                let ghost pre = *self;
                let entry = &mut self.component_vecs[j];
                let ok = entry.comps.end_write(accessor);
                proof {
                    Self::lemma_one_column_step(pre, *self, key, j as int);
                    if !ok {
                        assert(self.component_vecs@ =~= pre.component_vecs@);
                    }
                }
                ok
            },
            None => false,
        }
    }
}

impl<C: Copy> World<C> {
    /// Reads the component under `key` at handle `entity` through a shared
    /// scoped accessor. The handle is validated against the slot table
    /// first: a stale or unknown handle is indistinguishable from an absent
    /// component, both give `None`. The accessor observes the slot's payload
    /// (`None` inside it meaning "entity has no such component") and counts
    /// as outstanding until returned through `release_component`.
    pub fn get_component(&mut self, entity: Entity, key: u64) -> (r: Option<RefComponent<C>>)
        requires
            old(self).wf(),
        ensures
            final(self).wf(),
            final(self).spec_entities() == old(self).spec_entities(),
            final(self).spec_free() == old(self).spec_free(),
            final(self).spec_entities_count() == old(self).spec_entities_count(),
            final(self).spec_num_columns() == old(self).spec_num_columns(),
            Self::other_columns_unchanged(*old(self), *final(self), key),
            r is Some <==> old(self).can_read(entity, key),
            r is Some ==> {
                &&& r->Some_0.spec_value() == old(self).spec_component(key, entity.id as int)
                &&& final(self).spec_has_column(key)
                &&& final(self).spec_column(key).spec_slots() == old(self).spec_column(
                    key,
                ).spec_slots()
                &&& final(self).spec_column(key).spec_readers() == old(self).spec_column(
                    key,
                ).spec_readers() + 1
                &&& final(self).spec_column(key).spec_writer() == old(self).spec_column(
                    key,
                ).spec_writer()
            },
            r is None ==> final(self).spec_columns() == old(self).spec_columns(),
    {
        if entity.id < self.entities.len() {
            let current = self.entities[entity.id];
            if current == entity {
                match self.find_column(key) {
                    Some(j) => {
                        proof {
                            self.lemma_key_at(key, j as int);
                        }
                        let ghost pre = *self;
                        let entry = &mut self.component_vecs[j];
                        let r = entry.comps.get(entity.id);
                        proof {
                            Self::lemma_one_column_step(pre, *self, key, j as int);
                            if r is None {
                                assert(self.component_vecs@ =~= pre.component_vecs@);
                            }
                        }
                        r
                    },
                    None => None,
                }
            } else {
                None
            }
        } else {
            None
        }
    }

    /// Reads and writes the component under `key` at handle `entity` through
    /// the exclusive scoped accessor. Validation and lookup work as in
    /// `get_component`; in addition the accessor is only issued while no
    /// accessor of either kind is outstanding on that column, and until it
    /// is returned through `release_component_mut` the column refuses every
    /// further accessor and overwrite.
    pub fn get_component_mut(&mut self, entity: Entity, key: u64) -> (r: Option<
        RefMutComponent<C>,
    >)
        requires
            old(self).wf(),
        ensures
            final(self).wf(),
            final(self).spec_entities() == old(self).spec_entities(),
            final(self).spec_free() == old(self).spec_free(),
            final(self).spec_entities_count() == old(self).spec_entities_count(),
            final(self).spec_num_columns() == old(self).spec_num_columns(),
            Self::other_columns_unchanged(*old(self), *final(self), key),
            r is Some <==> old(self).can_write(entity, key),
            r is Some ==> {
                &&& r->Some_0.spec_idx() == entity.id
                &&& r->Some_0.spec_value() == old(self).spec_component(key, entity.id as int)
                &&& final(self).spec_has_column(key)
                &&& final(self).spec_column(key).spec_slots() == old(self).spec_column(
                    key,
                ).spec_slots()
                &&& final(self).spec_column(key).spec_readers() == old(self).spec_column(
                    key,
                ).spec_readers()
                &&& final(self).spec_column(key).spec_writer()
            },
            r is None ==> final(self).spec_columns() == old(self).spec_columns(),
    {
        if entity.id < self.entities.len() {
            let current = self.entities[entity.id];
            if current == entity {
                match self.find_column(key) {
                    Some(j) => {
                        proof {
                            self.lemma_key_at(key, j as int);
                        }
                        let ghost pre = *self;
                        let entry = &mut self.component_vecs[j];
                        let r = entry.comps.get_mut(entity.id);
                        proof {
                            Self::lemma_one_column_step(pre, *self, key, j as int);
                            if r is None {
                                assert(self.component_vecs@ =~= pre.component_vecs@);
                            }
                        }
                        r
                    },
                    None => None,
                }
            } else {
                None
            }
        } else {
            None
        }
    }
}

} // verus!

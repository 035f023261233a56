use std::collections::{HashMap, HashSet};
use vstd::prelude::*;

use crate::component::{get_type_id, type_id_map_get, type_id_map_insert, RequireComponents};
use crate::entity::Entity;
use crate::error::RecsError;
use crate::pool::Pool;

verus! {

broadcast use vstd::std_specs::hash::group_hash_axioms;

/// One slot of the scene's entity table: the handle currently issued for the
/// slot and the set of component-type identifiers attached to it.
#[derive(Debug)]
pub struct EntityDescription {
    entity: Entity,
    components: HashSet<usize>,
}

impl EntityDescription {
    /// The handle this record currently holds.
    pub closed spec fn spec_entity(self) -> Entity {
        self.entity
    }

    /// The component-type identifiers currently attached to this record.
    pub closed spec fn spec_components(self) -> Set<usize> {
        self.components@
    }

    /// A record holding the given handle and no attached components.
    pub fn new(entity: Entity) -> (ed: Self)
        ensures
            ed.spec_entity() == entity,
            ed.spec_components() == Set::<usize>::empty(),
    {
        EntityDescription { entity, components: HashSet::new() }
    }

    pub fn entity(&self) -> (e: Entity)
        ensures
            e == self.spec_entity(),
    {
        self.entity
    }

    pub fn components(&self) -> (c: &HashSet<usize>)
        ensures
            c@ == self.spec_components(),
    {
        &self.components
    }

    /// Invalidates the held handle (sentinel index, next generation) and
    /// clears the attached component identifiers.
    pub fn invalidate_entity(&mut self)
        requires
            old(self).spec_entity().spec_version() < u32::MAX,
        ensures
            final(self).spec_entity().spec_index() == u32::MAX,
            final(self).spec_entity().spec_version() == old(self).spec_entity().spec_version()
                + 1,
            final(self).spec_components() == Set::<usize>::empty(),
    {
        self.components.clear();
        self.entity.invalidate();
    }

    /// Whether the given handle addresses this record: the held handle must
    /// equal it, fields and generation included, and must not be the
    /// sentinel.
    pub fn check_validity(&self, entity: Entity) -> (b: bool)
        ensures
            b == (self.spec_entity() == entity && self.spec_entity().spec_is_valid()),
    {
        self.entity == entity && self.entity.is_valid()
    }

    fn has_component_with_type_id(&self, type_id: usize) -> (b: bool)
        ensures
            b == self.spec_components().contains(type_id),
    {
        self.components.contains(&type_id)
    }
}

/// The scene's type-erased pool table: one opaque box per component-type
/// identifier, each holding the `Pool<T>` of that identifier's component
/// type. A heterogeneous table cannot be declared to the verifier, so the
/// table sits behind a trusted boundary; `pool_table_ids` names the one
/// thing the contracts track, the set of identifiers that have a pool.
#[derive(Debug)]
#[verifier::external_body]
pub struct PoolTable {
    table: HashMap<usize, Box<dyn core::any::Any>>,
}

/// The set of component-type identifiers that have a pool in the table.
pub uninterp spec fn pool_table_ids(t: PoolTable) -> Set<usize>;

/// An empty pool table.
///
/// Relies on `HashMap::new`: the new table holds no entry.
#[verifier::external_body]
fn pool_table_new() -> (t: PoolTable)
    ensures
        pool_table_ids(t) == Set::<usize>::empty(),
{
    PoolTable { table: HashMap::new() }
}

/// The pool stored for an identifier, read-only, when it is a pool of the
/// requested component type.
///
/// Relies on `HashMap::get` with `usize` keys and on `Any::downcast_ref`,
/// which yields the boxed value exactly when its concrete type matches: an
/// identifier outside the table yields nothing, and a hit proves the
/// identifier is in the table. Which component values the pool holds cannot
/// be stated here; callers learn that from `Pool`'s own verified contracts.
#[verifier::external_body]
fn pool_table_get<T: 'static>(t: &PoolTable, id: usize) -> (r: Option<&Pool<T>>)
    ensures
        r is Some ==> pool_table_ids(*t).contains(id),
        !pool_table_ids(*t).contains(id) ==> r is None,
{
    t.table.get(&id).and_then(|b| b.downcast_ref::<Pool<T>>())
}

/// The pool stored for an identifier, mutable, when it is a pool of the
/// requested component type.
///
/// Relies on `HashMap::get_mut` and `Any::downcast_mut`, as for the
/// read-only lookup. Mutating the returned pool can change only that boxed
/// value, never which identifiers have pools, so the table's identifier set
/// is unchanged whatever the caller writes through the borrow.
#[verifier::external_body]
fn pool_table_get_mut<'a, T: 'static>(t: &'a mut PoolTable, id: usize) -> (r: Option<
    &'a mut Pool<T>,
>)
    ensures
        pool_table_ids(*final(t)) == pool_table_ids(*old(t)),
        r is Some ==> pool_table_ids(*old(t)).contains(id),
        !pool_table_ids(*old(t)).contains(id) ==> r is None,
{
    t.table.get_mut(&id).and_then(|b| b.downcast_mut::<Pool<T>>())
}

/// The pool stored for an identifier, mutable, creating an empty pool of
/// the requested component type if the identifier has none yet.
///
/// Relies on `HashMap::entry` with `or_insert_with` (the closure only calls
/// the library's own `Pool::new`) and on `Any::downcast_mut`: afterwards the
/// identifier certainly has a pool, and the lookup comes back empty only if
/// a pool of a different component type already sat under this identifier.
#[verifier::external_body]
fn pool_table_get_or_create_mut<'a, T: 'static>(t: &'a mut PoolTable, id: usize) -> (r: Option<
    &'a mut Pool<T>,
>)
    ensures
        pool_table_ids(*final(t)) == pool_table_ids(*old(t)).insert(id),
        r is None ==> pool_table_ids(*old(t)).contains(id),
{
    t.table.entry(id).or_insert_with(|| Box::new(Pool::<T>::new())).downcast_mut::<Pool<T>>()
}

/// A container for entities and their associated components: the entity
/// slot table with its free-list and generation bumping, one component pool
/// per component type behind type erasure, and a registry that gives each
/// component type a dense identifier, first use first.
#[derive(Debug)]
pub struct Scene {
    /// List of free entity slot indices
    free_list: Vec<u32>,
    /// List of entity records, one per slot
    entities: Vec<EntityDescription>,
    /// Map of component pools keyed by component-type identifier
    pools: PoolTable,
    /// Map of type identities to this scene's dense identifiers
    type_keys: HashMap<core::any::TypeId, usize>,
    /// The next dense identifier to hand out
    next_type_id: usize,
}

impl Scene {
    /// How many entity slots the scene has ever allocated.
    pub closed spec fn num_slots(self) -> nat {
        self.entities@.len()
    }

    /// The handle currently stored in a slot's record.
    pub closed spec fn slot_entity(self, i: int) -> Entity {
        self.entities@[i].spec_entity()
    }

    /// The component-type identifiers attached to a slot.
    pub closed spec fn slot_components(self, i: int) -> Set<usize> {
        self.entities@[i].spec_components()
    }

    /// The slot indices currently free for reuse, oldest first.
    pub closed spec fn free_slots(self) -> Seq<u32> {
        self.free_list@
    }

    /// The registry: which dense identifier this scene gave each type
    /// identity.
    pub closed spec fn type_ids(self) -> Map<core::any::TypeId, usize> {
        self.type_keys@
    }

    /// The next dense identifier the registry will hand out.
    pub closed spec fn spec_next_type_id(self) -> usize {
        self.next_type_id
    }

    /// The component-type identifiers that have a pool.
    pub closed spec fn pool_ids(self) -> Set<usize> {
        pool_table_ids(self.pools)
    }

    /// A handle is live iff its slot exists, the slot's record holds exactly
    /// this handle, and the handle is not the sentinel. Every
    /// entity-addressed operation validates this before doing anything.
    pub open spec fn live(self, entity: Entity) -> bool {
        &&& entity.spec_is_valid()
        &&& (entity.spec_index() as int) < self.num_slots()
        &&& self.slot_entity(entity.spec_index() as int) == entity
    }

    /// The scene's internal consistency: a slot's record holds either the
    /// slot's own handle (live, with room left for a generation bump) or the
    /// sentinel with no attached components; the free-list holds distinct
    /// dead slots whose stored generation can still grow; and the registry's
    /// identifiers are distinct and below the allocation counter.
    pub closed spec fn wf(self) -> bool {
        &&& self.entities@.len() <= u32::MAX as int
        &&& (forall|i: int|
            0 <= i < self.entities@.len() ==> {
                let ed = #[trigger] self.entities@[i];
                &&& (ed.spec_entity().spec_index() == i as u32 || ed.spec_entity().spec_index()
                    == u32::MAX)
                &&& (ed.spec_entity().spec_index() == i as u32 ==> ed.spec_entity().spec_version()
                    < u32::MAX)
                &&& (ed.spec_entity().spec_index() == u32::MAX ==> ed.spec_components()
                    == Set::<usize>::empty())
            })
        &&& (forall|j: int|
            0 <= j < self.free_list@.len() ==> {
                let s = #[trigger] self.free_list@[j];
                &&& (s as int) < self.entities@.len()
                &&& self.entities@[s as int].spec_entity().spec_index() == u32::MAX
                &&& self.entities@[s as int].spec_entity().spec_version() < u32::MAX
            })
        &&& (forall|j1: int, j2: int|
            0 <= j1 < j2 < self.free_list@.len() ==> self.free_list@[j1] != self.free_list@[j2])
        &&& (forall|k: core::any::TypeId| #[trigger]
            self.type_keys@.contains_key(k) ==> self.type_keys@[k] < self.next_type_id)
        &&& (forall|k1: core::any::TypeId, k2: core::any::TypeId|
            self.type_keys@.contains_key(k1) && self.type_keys@.contains_key(k2) && k1 != k2
                ==> #[trigger] self.type_keys@[k1] != #[trigger] self.type_keys@[k2])
        &&& (forall|id: usize| #[trigger]
            pool_table_ids(self.pools).contains(id) ==> id < self.next_type_id)
    }

    /// An empty scene.
    pub fn new() -> (scene: Self)
        ensures
            scene.wf(),
            scene.num_slots() == 0,
            scene.free_slots() == Seq::<u32>::empty(),
            scene.pool_ids() == Set::<usize>::empty(),
            scene.type_ids() == Map::<core::any::TypeId, usize>::empty(),
            scene.spec_next_type_id() == 0,
    {
        Scene {
            free_list: Vec::new(),
            entities: Vec::new(),
            pools: pool_table_new(),
            type_keys: HashMap::new(),
            next_type_id: 0,
        }
    }

    /// Creates a new entity and adds it to the scene: a freed slot is
    /// reused, keeping the generation its record already carries (which is
    /// strictly greater than any generation previously issued for that
    /// slot), and only when no freed slot exists does the table grow by a
    /// fresh slot at generation zero. The returned handle always matches the
    /// slot's stored record, and the slot starts with no attached
    /// components.
    pub fn create_entity(&mut self) -> (entity: Entity)
        requires
            old(self).wf(),
            old(self).free_slots().len() > 0 || old(self).num_slots() < u32::MAX as nat,
        ensures
            final(self).wf(),
            final(self).live(entity),
            !old(self).live(entity),
            final(self).slot_components(entity.spec_index() as int) == Set::<usize>::empty(),
            old(self).free_slots().len() > 0 ==> {
                &&& entity.spec_index() == old(self).free_slots().last()
                &&& entity.spec_version() == old(self).slot_entity(
                    entity.spec_index() as int,
                ).spec_version()
                &&& final(self).num_slots() == old(self).num_slots()
                &&& final(self).free_slots() == old(self).free_slots().drop_last()
            },
            old(self).free_slots().len() == 0 ==> {
                &&& entity.spec_index() as int == old(self).num_slots()
                &&& entity.spec_version() == 0
                &&& final(self).num_slots() == old(self).num_slots() + 1
                &&& final(self).free_slots() == old(self).free_slots()
            },
            forall|i: int|
                0 <= i < old(self).num_slots() && i != entity.spec_index() as int
                    ==> final(self).slot_entity(i) == old(self).slot_entity(i)
                        && final(self).slot_components(i) == old(self).slot_components(i),
            final(self).pool_ids() == old(self).pool_ids(),
            final(self).type_ids() == old(self).type_ids(),
            final(self).spec_next_type_id() == old(self).spec_next_type_id(),
    {
        let free_index = self.free_list.pop();
        match free_index {
            None => {
                let index = self.entities.len() as u32;
                let entity = Entity::new(index);
                self.entities.push(EntityDescription::new(entity));
                entity
            },
            Some(index) => {
                let version = self.entities[index as usize].entity().version();
                let entity = Entity::with_version(index, version);
                self.entities[index as usize] = EntityDescription::new(entity);
                entity
            },
        }
    }

    /// Destroys an entity: its slot's component-identifier set is cleared
    /// and its record becomes the sentinel at the next generation, so the
    /// handle (and every copy of it) stops matching; the slot index then
    /// returns to the free-list for reuse. The one exception: a slot whose
    /// generation counter is exhausted is retired rather than reused, so
    /// generations never wrap and stale handles can never match again. A
    /// handle that is not live — stale
    /// generation, sentinel, or out of range — leaves the scene untouched,
    /// so destroying twice is harmless. Pools are deliberately not touched:
    /// a destroyed entity's component values stay in their pools until the
    /// slot is reused and reassigned, or until an explicit per-type remove;
    /// only the scene-level membership record is cleared.
    pub fn destroy_entity(&mut self, entity: Entity)
        requires
            old(self).wf(),
        ensures
            final(self).wf(),
            !final(self).live(entity),
            !old(self).live(entity) ==> *final(self) == *old(self),
            old(self).live(entity) ==> {
                let idx = entity.spec_index() as int;
                &&& final(self).num_slots() == old(self).num_slots()
                &&& final(self).slot_entity(idx).spec_index() == u32::MAX
                &&& final(self).slot_entity(idx).spec_version() == entity.spec_version() + 1
                &&& final(self).slot_components(idx) == Set::<usize>::empty()
                &&& (forall|i: int|
                    0 <= i < old(self).num_slots() && i != idx
                        ==> final(self).slot_entity(i) == old(self).slot_entity(i)
                            && final(self).slot_components(i) == old(self).slot_components(i))
                &&& (entity.spec_version() + 1 < u32::MAX
                    ==> final(self).free_slots() == old(self).free_slots().push(
                    entity.spec_index()))
                &&& (entity.spec_version() + 1 == u32::MAX
                    ==> final(self).free_slots() == old(self).free_slots())
                &&& final(self).pool_ids() == old(self).pool_ids()
                &&& final(self).type_ids() == old(self).type_ids()
                &&& final(self).spec_next_type_id() == old(self).spec_next_type_id()
            },
    {
        let index = entity.index();
        if (index as usize) < self.entities.len() {
            let matches_slot = self.entities[index as usize].check_validity(entity);
            if matches_slot {
                let record = &mut self.entities[index as usize];
                record.invalidate_entity();
                if entity.version() < u32::MAX - 1 {
                    self.free_list.push(index);
                }
            }
        }
    }

    /// Validates that a handle is live, as every entity-addressed operation
    /// must before it touches any other state.
    fn assert_entity_valid(&self, entity: Entity) -> (r: Result<(), RecsError>)
        ensures
            r is Ok <==> self.live(entity),
            r matches Err(e) ==> e == RecsError::InvalidEntityError,
    {
        let index = entity.index();
        if (index as usize) < self.entities.len() && self.entities[index as usize].check_validity(
            entity,
        ) {
            Ok(())
        } else {
            Err(RecsError::InvalidEntityError)
        }
    }

    /// Resolves a type identity to this scene's dense identifier, allocating
    /// the next unused identifier at first use; identifiers are never
    /// recycled. Fails only if the identifier space itself is exhausted,
    /// which no real workload reaches.
    fn register_type_key(&mut self, key: core::any::TypeId) -> (r: Result<usize, RecsError>)
        requires
            old(self).wf(),
        ensures
            final(self).wf(),
            final(self).num_slots() == old(self).num_slots(),
            forall|i: int|
                0 <= i < old(self).num_slots() ==> final(self).slot_entity(i) == old(
                    self).slot_entity(i) && final(self).slot_components(i) == old(
                    self).slot_components(i),
            final(self).free_slots() == old(self).free_slots(),
            final(self).pool_ids() == old(self).pool_ids(),
            r matches Ok(id) ==> final(self).type_ids().contains_key(key) && final(
                self).type_ids()[key] == id,
            old(self).type_ids().contains_key(key) ==> *final(self) == *old(self) && r
                == Ok::<usize, RecsError>(old(self).type_ids()[key]),
            !old(self).type_ids().contains_key(key) && old(self).spec_next_type_id() < usize::MAX
                ==> {
                &&& r == Ok::<usize, RecsError>(old(self).spec_next_type_id())
                &&& final(self).type_ids() == old(self).type_ids().insert(
                    key,
                    old(self).spec_next_type_id(),
                )
                &&& final(self).spec_next_type_id() == old(self).spec_next_type_id() + 1
            },
            !old(self).type_ids().contains_key(key) && old(self).spec_next_type_id() == usize::MAX
                ==> r == Err::<usize, RecsError>(RecsError::PoolAccessOrCreationError) && *final(
                self) == *old(self),
    {
        match type_id_map_get(&self.type_keys, &key) {
            Some(id) => Ok(id),
            None => {
                if self.next_type_id == usize::MAX {
                    Err(RecsError::PoolAccessOrCreationError)
                } else {
                    let id = self.next_type_id;
                    type_id_map_insert(&mut self.type_keys, key, id);
                    self.next_type_id = self.next_type_id + 1;
                    Ok(id)
                }
            },
        }
    }

    /// Assigns a component to an entity and returns a mutable borrow of the
    /// stored value: the handle is validated, the component type's
    /// identifier joins the entity's record, the type's pool is created
    /// lazily if absent, and the pool stores the value (overwriting any
    /// previous value for this entity). Fails with `InvalidEntityError`
    /// exactly when the handle is stale, in which case nothing changes; the
    /// defensive `PoolAccessOrCreationError` cannot arise under correct
    /// type-erasure bookkeeping. Which component values each pool holds is
    /// the pools' own business; [`Pool::assign`]'s contract pins it.
    pub fn assign<T: 'static>(&mut self, entity: Entity, new_component: T) -> (r: Result<
        &mut T,
        RecsError,
    >)
        requires
            old(self).wf(),
        ensures
            final(self).wf(),
            (r matches Err(e) && e == RecsError::InvalidEntityError) <==> !old(self).live(entity),
            !old(self).live(entity) ==> *final(self) == *old(self),
            old(self).live(entity) && old(self).type_ids() == Map::<core::any::TypeId, usize>::empty()
                && old(self).spec_next_type_id() < usize::MAX ==> r is Ok,
            r matches Ok(c) ==> *c == new_component,
            old(self).live(entity) ==> {
                let idx = entity.spec_index() as int;
                &&& final(self).num_slots() == old(self).num_slots()
                &&& (forall|i: int|
                    0 <= i < old(self).num_slots() ==> final(self).slot_entity(i) == old(
                        self).slot_entity(i))
                &&& (forall|i: int|
                    0 <= i < old(self).num_slots() && i != idx ==> final(self).slot_components(i)
                        == old(self).slot_components(i))
                &&& final(self).free_slots() == old(self).free_slots()
                &&& (r is Ok ==> exists|id: usize|
                    {
                        &&& final(self).slot_components(idx) == old(
                            self).slot_components(idx).insert(id)
                        &&& final(self).pool_ids() == old(self).pool_ids().insert(id)
                    })
                &&& (r matches Err(e) ==> e == RecsError::PoolAccessOrCreationError)
            },
    {
        match self.assert_entity_valid(entity) {
            Err(e) => Err(e),
            Ok(()) => {
                let key = get_type_id::<T>();
                match self.register_type_key(key) {
                    Err(e) => Err(e),
                    Ok(id) => {
                        let index = entity.index();
                        let record = &mut self.entities[index as usize];
                        record.components.insert(id);
                        match pool_table_get_or_create_mut::<T>(&mut self.pools, id) {
                            None => Err(RecsError::PoolAccessOrCreationError),
                            Some(pool) => Ok(pool.assign(entity, new_component)),
                        }
                    },
                }
            },
        }
    }

    /// Assigns the component type's default value to an entity, with the
    /// same validation, bookkeeping and failure behaviour as
    /// [`Scene::assign`]. Which value the default is depends on the
    /// component type's own `Default` implementation.
    pub fn assign_default<T: Default + 'static>(&mut self, entity: Entity) -> (r: Result<
        &mut T,
        RecsError,
    >)
        requires
            old(self).wf(),
        ensures
            final(self).wf(),
            (r matches Err(e) && e == RecsError::InvalidEntityError) <==> !old(self).live(entity),
            !old(self).live(entity) ==> *final(self) == *old(self),
            old(self).live(entity) && old(self).type_ids() == Map::<core::any::TypeId, usize>::empty()
                && old(self).spec_next_type_id() < usize::MAX ==> r is Ok,
            old(self).live(entity) ==> {
                let idx = entity.spec_index() as int;
                &&& final(self).num_slots() == old(self).num_slots()
                &&& (forall|i: int|
                    0 <= i < old(self).num_slots() ==> final(self).slot_entity(i) == old(
                        self).slot_entity(i))
                &&& (forall|i: int|
                    0 <= i < old(self).num_slots() && i != idx ==> final(self).slot_components(i)
                        == old(self).slot_components(i))
                &&& final(self).free_slots() == old(self).free_slots()
                &&& (r is Ok ==> exists|id: usize|
                    {
                        &&& final(self).slot_components(idx) == old(
                            self).slot_components(idx).insert(id)
                        &&& final(self).pool_ids() == old(self).pool_ids().insert(id)
                    })
                &&& (r matches Err(e) ==> e == RecsError::PoolAccessOrCreationError)
            },
    {
        match self.assert_entity_valid(entity) {
            Err(e) => Err(e),
            Ok(()) => {
                let key = get_type_id::<T>();
                match self.register_type_key(key) {
                    Err(e) => Err(e),
                    Ok(id) => {
                        let index = entity.index();
                        let record = &mut self.entities[index as usize];
                        record.components.insert(id);
                        match pool_table_get_or_create_mut::<T>(&mut self.pools, id) {
                            None => Err(RecsError::PoolAccessOrCreationError),
                            Some(pool) => Ok(pool.assign_default(entity)),
                        }
                    },
                }
            },
        }
    }

    /// Removes a component from an entity: the component type's identifier
    /// leaves the entity's record and the type's pool releases the stored
    /// value, if there is one. Removing a component the entity does not hold
    /// succeeds as a no-op; the only error is `InvalidEntityError`, exactly
    /// when the handle is stale, and then nothing changes.
    pub fn remove<T: 'static>(&mut self, entity: Entity) -> (r: Result<(), RecsError>)
        requires
            old(self).wf(),
        ensures
            final(self).wf(),
            r is Ok <==> old(self).live(entity),
            r matches Err(e) ==> e == RecsError::InvalidEntityError && *final(self) == *old(self),
            old(self).live(entity) ==> {
                let idx = entity.spec_index() as int;
                &&& final(self).num_slots() == old(self).num_slots()
                &&& (forall|i: int|
                    0 <= i < old(self).num_slots() ==> final(self).slot_entity(i) == old(
                        self).slot_entity(i))
                &&& (forall|i: int|
                    0 <= i < old(self).num_slots() && i != idx ==> final(self).slot_components(i)
                        == old(self).slot_components(i))
                &&& (final(self).slot_components(idx) == old(self).slot_components(idx) || exists|
                    id: usize,
                |
                    final(self).slot_components(idx) == old(self).slot_components(idx).remove(id))
                &&& final(self).free_slots() == old(self).free_slots()
                &&& final(self).pool_ids() == old(self).pool_ids()
                &&& final(self).type_ids() == old(self).type_ids()
                &&& final(self).spec_next_type_id() == old(self).spec_next_type_id()
            },
    {
        match self.assert_entity_valid(entity) {
            Err(e) => Err(e),
            Ok(()) => {
                let key = get_type_id::<T>();
                match type_id_map_get(&self.type_keys, &key) {
                    None => Ok(()),
                    Some(id) => {
                        let index = entity.index();
                        let record = &mut self.entities[index as usize];
                        record.components.remove(&id);
                        match pool_table_get_mut::<T>(&mut self.pools, id) {
                            None => Ok(()),
                            Some(pool) => {
                                pool.free(entity);
                                Ok(())
                            },
                        }
                    },
                }
            },
        }
    }

    /// Gets a read-only borrow of an entity's component of the given type.
    /// A live entity always succeeds: a missing pool or a missing value
    /// yields `Ok(None)` rather than an error. Fails with
    /// `InvalidEntityError` exactly when the handle is stale. Which value
    /// sits behind `Some` is the pool's business; [`Pool::get`]'s contract
    /// pins it.
    pub fn get<T: 'static>(&self, entity: Entity) -> (r: Result<Option<&T>, RecsError>)
        ensures
            r is Ok <==> self.live(entity),
            r matches Err(e) ==> e == RecsError::InvalidEntityError,
    {
        match self.assert_entity_valid(entity) {
            Err(e) => Err(e),
            Ok(()) => {
                let key = get_type_id::<T>();
                match type_id_map_get(&self.type_keys, &key) {
                    None => Ok(None),
                    Some(id) => match pool_table_get::<T>(&self.pools, id) {
                        None => Ok(None),
                        Some(pool) => Ok(pool.get(entity)),
                    },
                }
            },
        }
    }

    /// Gets a mutable borrow of an entity's component of the given type,
    /// with the same success and failure behaviour as [`Scene::get`].
    /// Writing through the borrow overwrites the stored value; every part of
    /// the scene's bookkeeping — slots, records, free-list, registry, pool
    /// set — is left exactly as it was.
    pub fn get_mut<T: 'static>(&mut self, entity: Entity) -> (r: Result<
        Option<&mut T>,
        RecsError,
    >)
        requires
            old(self).wf(),
        ensures
            final(self).wf(),
            r is Ok <==> old(self).live(entity),
            r matches Err(e) ==> e == RecsError::InvalidEntityError,
            final(self).num_slots() == old(self).num_slots(),
            forall|i: int|
                0 <= i < old(self).num_slots() ==> final(self).slot_entity(i) == old(
                    self).slot_entity(i) && final(self).slot_components(i) == old(
                    self).slot_components(i),
            final(self).free_slots() == old(self).free_slots(),
            final(self).pool_ids() == old(self).pool_ids(),
            final(self).type_ids() == old(self).type_ids(),
            final(self).spec_next_type_id() == old(self).spec_next_type_id(),
    {
        match self.assert_entity_valid(entity) {
            Err(e) => Err(e),
            Ok(()) => {
                let key = get_type_id::<T>();
                match type_id_map_get(&self.type_keys, &key) {
                    None => Ok(None),
                    Some(id) => match pool_table_get_mut::<T>(&mut self.pools, id) {
                        None => Ok(None),
                        Some(pool) => Ok(pool.get_mut(entity)),
                    },
                }
            },
        }
    }

    /// Builds a view over this scene's entities filtered by a required list
    /// of component types, written as nested pairs: `(A, (B, ()))` requires
    /// both `A` and `B`; `()` requires nothing and matches every live
    /// entity. The view starts at the first slot and yields matching
    /// entities in slot order. A required type that this scene has never
    /// seen cannot be held by any entity, so such a view yields nothing.
    pub fn view<'a, T: RequireComponents>(&'a self) -> (v: SceneView<'a>)
        ensures
            v.spec_scene() == *self,
            v.cursor() == 0 || v.yields() == Seq::<Entity>::empty(),
    {
        let keys = T::required_component_ids();
        let mut required: Vec<usize> = Vec::new();
        let mut resolved = true;
        let n = keys.len();
        let mut k: usize = 0;
        while k < n
            invariant
                k <= n,
                n == keys@.len(),
            decreases n - k,
        {
            match type_id_map_get(&self.type_keys, &keys[k]) {
                Some(id) => required.push(id),
                None => {
                    resolved = false;
                },
            }
            k = k + 1;
        }
        let start: usize = if resolved {
            0
        } else {
            self.entities.len()
        };
        let v = SceneView { scene: self, required_components: required, index: start };
        proof {
            if !resolved {
                assert(v.yields() =~= Seq::<Entity>::empty());
            }
        }
        v
    }
}

/// Whether a slot currently holds a valid entity record carrying every one
/// of the required component-type identifiers.
pub open spec fn slot_matches(scene: Scene, required: Seq<usize>, i: int) -> bool {
    &&& scene.slot_entity(i).spec_is_valid()
    &&& forall|j: int|
        0 <= j < required.len() ==> scene.slot_components(i).contains(#[trigger] required[j])
}

/// The entities of the slots from `from` to the end of the scene's slot
/// table that match the required component-type identifiers, in slot order.
pub open spec fn matching_entities_from(scene: Scene, required: Seq<usize>, from: int) -> Seq<
    Entity,
>
    decreases scene.num_slots() - from,
{
    if from < 0 || from >= scene.num_slots() {
        Seq::<Entity>::empty()
    } else {
        let rest = matching_entities_from(scene, required, from + 1);
        if slot_matches(scene, required, from) {
            seq![scene.slot_entity(from)] + rest
        } else {
            rest
        }
    }
}

/// A single-pass cursor over the entities of one scene that hold all of a
/// required set of component types. Each call of [`Scene::view`] produces a
/// fresh, independent cursor; the borrow it keeps on the scene prevents the
/// scene from being mutated while the view is alive.
pub struct SceneView<'a> {
    scene: &'a Scene,
    required_components: Vec<usize>,
    index: usize,
}

impl<'a> SceneView<'a> {
    /// The scene this view reads.
    pub closed spec fn spec_scene(self) -> Scene {
        *self.scene
    }

    /// The component-type identifiers an entity must all hold to be
    /// yielded.
    pub closed spec fn required(self) -> Seq<usize> {
        self.required_components@
    }

    /// The slot the cursor stands on.
    pub closed spec fn cursor(self) -> int {
        self.index as int
    }

    /// Exactly the entities this view has yet to yield, in slot order.
    pub open spec fn yields(self) -> Seq<Entity> {
        matching_entities_from(self.spec_scene(), self.required(), self.cursor())
    }

    /// A fresh cursor over the scene's whole slot table, requiring the
    /// given component-type identifiers.
    pub fn new(scene: &'a Scene, required_components: Vec<usize>) -> (v: SceneView<'a>)
        ensures
            v.spec_scene() == *scene,
            v.required() == required_components@,
            v.cursor() == 0,
    {
        SceneView { scene, required_components, index: 0 }
    }

    /// Whether the record holds every required component-type identifier.
    fn entity_has_required_components(&self, entity_description: &EntityDescription) -> (b: bool)
        ensures
            b == (forall|j: int|
                0 <= j < self.required().len() ==> entity_description.spec_components().contains(
                    #[trigger] self.required()[j],
                )),
    {
        let n = self.required_components.len();
        let mut k: usize = 0;
        while k < n
            invariant
                k <= n,
                n == self.required_components.len(),
                forall|j: int|
                    0 <= j < k ==> entity_description.spec_components().contains(
                        #[trigger] self.required_components@[j],
                    ),
            decreases n - k,
        {
            if !entity_description.has_component_with_type_id(self.required_components[k]) {
                proof {
                    assert(!entity_description.spec_components().contains(
                        self.required()[k as int],
                    ));
                }
                return false;
            }
            k = k + 1;
        }
        true
    }

    /// Advances the cursor past slots whose entity is invalid or lacks a
    /// required component, and yields the first qualifying entity, or
    /// nothing once the slot table is exhausted. Repeated calls therefore
    /// hand out exactly [`SceneView::yields`], front to back.
    pub fn next(&mut self) -> (r: Option<Entity>)
        ensures
            final(self).spec_scene() == old(self).spec_scene(),
            final(self).required() == old(self).required(),
            old(self).cursor() <= final(self).cursor(),
            match r {
                Some(e) => old(self).yields().len() > 0 && e == old(self).yields()[0]
                    && final(self).yields() == old(self).yields().drop_first(),
                None => old(self).yields().len() == 0 && final(self).yields().len() == 0,
            },
    {
        let scene_ref: &'a Scene = self.scene;
        while self.index < scene_ref.entities.len()
            invariant
                self.scene == old(self).scene,
                scene_ref == old(self).scene,
                self.required_components == old(self).required_components,
                old(self).cursor() <= self.cursor(),
                old(self).yields() == self.yields(),
            decreases scene_ref.entities@.len() - self.index,
        {
            let ghost at = self.index as int;
            let entity_description = &scene_ref.entities[self.index];
            let matched = self.entity_has_required_components(entity_description)
                && entity_description.entity().is_valid();
            proof {
                assert(matched == slot_matches(*scene_ref, self.required_components@, at));
            }
            self.index = self.index + 1;
            if matched {
                proof {
                    assert(old(self).yields() == seq![
                        scene_ref.slot_entity(at),
                    ] + matching_entities_from(*scene_ref, self.required_components@, at + 1));
                    assert(old(self).yields().drop_first() =~= self.yields());
                }
                return Some(entity_description.entity());
            }
        }
        None
    }
}

/// At most one handle value is live per slot: two live handles with the
/// same slot index are the same handle. In particular, once a freed slot is
/// reused and its new handle is live, every handle issued for the slot's
/// earlier lives stays invalid.
pub proof fn lemma_one_live_handle_per_slot(scene: Scene, e1: Entity, e2: Entity)
    requires
        scene.live(e1),
        scene.live(e2),
        e1.spec_index() == e2.spec_index(),
    ensures
        e1 == e2,
{
}

/// Distinct type identities never share a dense component-type identifier
/// within one scene's registry.
pub proof fn lemma_type_ids_injective(scene: Scene, k1: core::any::TypeId, k2: core::any::TypeId)
    requires
        scene.wf(),
        scene.type_ids().contains_key(k1),
        scene.type_ids().contains_key(k2),
        k1 != k2,
    ensures
        scene.type_ids()[k1] != scene.type_ids()[k2],
{
}

/// With nothing required, a view keeps exactly the live entities: a slot
/// matches the empty requirement precisely when its record is valid.
pub proof fn lemma_empty_requirement_matches_live(scene: Scene, i: int)
    ensures
        slot_matches(scene, Seq::<usize>::empty(), i) == scene.slot_entity(i).spec_is_valid(),
{
}

/// A view's requirement list matters only as a set of identifiers: two
/// lists that contain the same identifiers select the same slots, whatever
/// their order or multiplicity.
pub proof fn lemma_slot_matches_requirement_set(
    scene: Scene,
    req1: Seq<usize>,
    req2: Seq<usize>,
    i: int,
)
    requires
        forall|x: usize| req1.contains(x) == req2.contains(x),
        slot_matches(scene, req1, i),
    ensures
        slot_matches(scene, req2, i),
{
    assert forall|j: int| 0 <= j < req2.len() implies scene.slot_components(i).contains(
        req2[j],
    ) by {
        assert(req2.contains(req2[j]));
        assert(req1.contains(req2[j]));
        let j1 = choose|j1: int| 0 <= j1 < req1.len() && req1[j1] == req2[j];
        assert(scene.slot_components(i).contains(req1[j1]));
    }
}

/// A view yields the same entities for two requirement lists that contain
/// the same identifiers: the order in which required component types are
/// named, and repetitions among them, never change the result.
pub proof fn lemma_view_requirement_order_irrelevant(
    scene: Scene,
    req1: Seq<usize>,
    req2: Seq<usize>,
    from: int,
)
    requires
        forall|x: usize| req1.contains(x) == req2.contains(x),
    ensures
        matching_entities_from(scene, req1, from) == matching_entities_from(scene, req2, from),
    decreases scene.num_slots() - from,
{
    if from < 0 || from >= scene.num_slots() {
    } else {
        if slot_matches(scene, req1, from) {
            lemma_slot_matches_requirement_set(scene, req1, req2, from);
        }
        if slot_matches(scene, req2, from) {
            lemma_slot_matches_requirement_set(scene, req2, req1, from);
        }
        lemma_view_requirement_order_irrelevant(scene, req1, req2, from + 1);
    }
}

/// Everything a view yields is real: each yielded entity is the handle of a
/// slot at or past the view's start whose record is valid and carries every
/// required identifier.
pub proof fn lemma_view_yields_only_matching(
    scene: Scene,
    required: Seq<usize>,
    from: int,
    k: int,
)
    requires
        0 <= k < matching_entities_from(scene, required, from).len(),
    ensures
        exists|i: int|
            {
                &&& from <= i < scene.num_slots()
                &&& slot_matches(scene, required, i)
                &&& matching_entities_from(scene, required, from)[k] == scene.slot_entity(i)
            },
    decreases scene.num_slots() - from,
{
    if from < 0 || from >= scene.num_slots() {
    } else if slot_matches(scene, required, from) {
        if k == 0 {
            assert(matching_entities_from(scene, required, from)[0] == scene.slot_entity(from));
        } else {
            lemma_view_yields_only_matching(scene, required, from + 1, k - 1);
        }
    } else {
        lemma_view_yields_only_matching(scene, required, from + 1, k);
    }
}

/// A view misses nothing: the handle of every slot at or past the view's
/// start whose record is valid and carries every required identifier shows
/// up in what the view yields.
pub proof fn lemma_view_yields_all_matching(scene: Scene, required: Seq<usize>, from: int, i: int)
    requires
        0 <= from <= i < scene.num_slots(),
        slot_matches(scene, required, i),
    ensures
        matching_entities_from(scene, required, from).contains(scene.slot_entity(i)),
    decreases i - from,
{
    let rest = matching_entities_from(scene, required, from + 1);
    if from == i {
        assert(matching_entities_from(scene, required, from)[0] == scene.slot_entity(i));
    } else {
        lemma_view_yields_all_matching(scene, required, from + 1, i);
        let k = choose|k: int| 0 <= k < rest.len() && rest[k] == scene.slot_entity(i);
        if slot_matches(scene, required, from) {
            assert(matching_entities_from(scene, required, from)[k + 1] == scene.slot_entity(i));
        } else {
            assert(matching_entities_from(scene, required, from)[k] == scene.slot_entity(i));
        }
    }
}

/// Each entity a view yields sits at its own slot: its index lies in the
/// scanned range and the slot's record holds exactly that handle. With
/// [`lemma_one_live_handle_per_slot`], the yielded handles are therefore
/// pairwise distinct.
pub proof fn lemma_view_entity_slots(scene: Scene, required: Seq<usize>, from: int, k: int)
    requires
        scene.wf(),
        0 <= from,
        0 <= k < matching_entities_from(scene, required, from).len(),
    ensures
        ({
            let e = matching_entities_from(scene, required, from)[k];
            &&& from <= e.spec_index() < scene.num_slots()
            &&& scene.slot_entity(e.spec_index() as int) == e
            &&& e.spec_is_valid()
        }),
    decreases scene.num_slots() - from,
{
    if from >= scene.num_slots() {
    } else if slot_matches(scene, required, from) {
        if k == 0 {
            assert(matching_entities_from(scene, required, from)[0] == scene.slot_entity(from));
        } else {
            lemma_view_entity_slots(scene, required, from + 1, k - 1);
        }
    } else {
        lemma_view_entity_slots(scene, required, from + 1, k);
    }
}

/// A view yields entities in slot order: of two yielded entities, the one
/// yielded earlier occupies the lower slot.
pub proof fn lemma_view_slot_order(scene: Scene, required: Seq<usize>, from: int, k1: int, k2: int)
    requires
        scene.wf(),
        0 <= from,
        0 <= k1 < k2 < matching_entities_from(scene, required, from).len(),
    ensures
        matching_entities_from(scene, required, from)[k1].spec_index()
            < matching_entities_from(scene, required, from)[k2].spec_index(),
    decreases scene.num_slots() - from,
{
    if from >= scene.num_slots() {
    } else if slot_matches(scene, required, from) {
        if k1 == 0 {
            assert(matching_entities_from(scene, required, from)[0] == scene.slot_entity(from));
            lemma_view_entity_slots(scene, required, from + 1, k2 - 1);
        } else {
            lemma_view_slot_order(scene, required, from + 1, k1 - 1, k2 - 1);
        }
    } else {
        lemma_view_slot_order(scene, required, from + 1, k1, k2);
    }
}

} // verus!

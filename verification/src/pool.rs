use std::collections::HashMap;
use vstd::prelude::*;

use crate::entity::Entity;

verus! {

broadcast use vstd::std_specs::hash::group_hash_axioms;

/// Sparse-set storage for one component type across all entities.
///
/// A pool maps entity slot indices to values of a single component type. It
/// never validates entity generations: the owning scene is expected to have
/// checked handle liveness already, and the pool is purely an index-to-value
/// store. A removed value's dense storage slot goes onto a free-list and is
/// handed out again by a later insertion, so removal never shifts the dense
/// array and both insertion and removal stay O(1).
pub struct Pool<T> {
    /// Map of entity slot index to dense storage index
    entities: HashMap<u32, usize>,
    /// List of dense storage indices free for reuse
    free_list: Vec<usize>,
    /// Dense array of component values
    components: Vec<T>,
}

/// The internal consistency of a pool, over its raw parts: every mapped dense
/// index lies inside the dense array, no two slots share a dense index, and
/// the free-list holds distinct in-bounds dense indices that no slot maps to.
pub open spec fn pool_parts_wf(mapping: Map<u32, usize>, free: Seq<usize>, dense: nat) -> bool {
    &&& forall|s: u32| #[trigger] mapping.contains_key(s) ==> mapping[s] < dense
    &&& forall|s1: u32, s2: u32|
        mapping.contains_key(s1) && mapping.contains_key(s2) && s1 != s2 ==> #[trigger] mapping[s1]
            != #[trigger] mapping[s2]
    &&& forall|i: int| 0 <= i < free.len() ==> #[trigger] free[i] < dense
    &&& forall|i: int, j: int| 0 <= i < j < free.len() ==> free[i] != free[j]
    &&& forall|i: int, s: u32|
        0 <= i < free.len() && mapping.contains_key(s) ==> #[trigger] free[i] != #[trigger] mapping[s]
}

impl<T> Pool<T> {
    /// The mapping from entity slot index to the component value stored for
    /// that slot.
    pub closed spec fn contents(self) -> Map<u32, T> {
        Map::new(
            |slot: u32| self.entities@.contains_key(slot),
            |slot: u32| self.components@[self.entities@[slot] as int],
        )
    }

    /// How many dense storage slots the pool has allocated so far.
    pub closed spec fn dense_len(self) -> nat {
        self.components@.len()
    }

    /// How many dense storage slots sit on the free-list awaiting reuse.
    pub closed spec fn free_len(self) -> nat {
        self.free_list@.len()
    }

    #[verifier::type_invariant]
    spec fn wf(self) -> bool {
        pool_parts_wf(self.entities@, self.free_list@, self.components@.len())
    }

    /// An empty pool.
    pub fn new() -> (pool: Self)
        ensures
            pool.contents() == Map::<u32, T>::empty(),
            pool.dense_len() == 0,
            pool.free_len() == 0,
    {
        let pool = Pool { entities: HashMap::new(), free_list: Vec::new(), components: Vec::new() };
        proof {
            assert(pool.contents() =~= Map::<u32, T>::empty());
        }
        pool
    }

    /// An empty pool whose dense array starts with room for the given number
    /// of component values.
    pub fn with_capacity(capacity: usize) -> (pool: Self)
        ensures
            pool.contents() == Map::<u32, T>::empty(),
            pool.dense_len() == 0,
            pool.free_len() == 0,
    {
        let pool = Pool {
            entities: HashMap::new(),
            free_list: Vec::new(),
            components: Vec::with_capacity(capacity),
        };
        proof {
            assert(pool.contents() =~= Map::<u32, T>::empty());
        }
        pool
    }

    /// The component value stored for the entity's slot, if any. The entity's
    /// generation is deliberately ignored: a pool knows only slot indices.
    pub fn get(&self, entity: Entity) -> (r: Option<&T>)
        ensures
            match r {
                Some(value) => self.contents().contains_key(entity.spec_index()) && *value
                    == self.contents()[entity.spec_index()],
                None => !self.contents().contains_key(entity.spec_index()),
            },
    {
        proof {
            use_type_invariant(&*self);
        }
        let slot = entity.index();
        match self.entities.get(&slot) {
            Some(index) => Some(&self.components[*index]),
            None => None,
        }
    }

    /// A mutable borrow of the component value stored for the entity's slot,
    /// if any. Writing through the borrow overwrites the stored value; the
    /// pool's membership and storage accounting are untouched.
    pub fn get_mut(&mut self, entity: Entity) -> (r: Option<&mut T>)
        ensures
            match r {
                Some(value) => {
                    &&& old(self).contents().contains_key(entity.spec_index())
                    &&& *value == old(self).contents()[entity.spec_index()]
                    &&& final(self).contents() =~= old(self).contents().insert(
                        entity.spec_index(),
                        *final(value),
                    )
                    &&& final(self).dense_len() == old(self).dense_len()
                    &&& final(self).free_len() == old(self).free_len()
                },
                None => {
                    &&& !old(self).contents().contains_key(entity.spec_index())
                    &&& *final(self) == *old(self)
                },
            },
    {
        proof {
            use_type_invariant(&*self);
        }
        let slot = entity.index();
        let found: Option<usize> = match self.entities.get(&slot) {
            Some(index) => Some(*index),
            None => None,
        };
        match found {
            Some(index) => Some(&mut self.components[index]),
            None => None,
        }
    }

    /// Stores a component value for the entity's slot and returns a mutable
    /// borrow of it. An already present value is overwritten in place; a new
    /// value reuses a free dense slot when one exists and grows the dense
    /// array only as a last resort.
    pub fn assign(&mut self, entity: Entity, new_component: T) -> (r: &mut T)
        ensures
            *r == new_component,
            final(self).contents() =~= old(self).contents().insert(
                entity.spec_index(),
                *final(r),
            ),
            old(self).contents().contains_key(entity.spec_index()) ==> {
                &&& final(self).dense_len() == old(self).dense_len()
                &&& final(self).free_len() == old(self).free_len()
            },
            !old(self).contents().contains_key(entity.spec_index()) && old(self).free_len() > 0
                ==> {
                &&& final(self).dense_len() == old(self).dense_len()
                &&& final(self).free_len() + 1 == old(self).free_len()
            },
            !old(self).contents().contains_key(entity.spec_index()) && old(self).free_len() == 0
                ==> {
                &&& final(self).dense_len() == old(self).dense_len() + 1
                &&& final(self).free_len() == 0
            },
    {
        proof {
            use_type_invariant(&*self);
        }
        let slot = entity.index();
        let found: Option<usize> = match self.entities.get(&slot) {
            Some(index) => Some(*index),
            None => None,
        };
        match found {
            Some(index) => {
                self.components[index] = new_component;
                &mut self.components[index]
            },
            None => self.insert_new_component(entity, new_component),
        }
    }

    /// Installs a value for a slot that has none yet: a free dense index is
    /// popped if one exists, the dense array grows otherwise, and the
    /// slot-to-dense mapping is recorded.
    fn insert_new_component(&mut self, entity: Entity, new_component: T) -> (r: &mut T)
        requires
            !old(self).contents().contains_key(entity.spec_index()),
        ensures
            *r == new_component,
            final(self).contents() =~= old(self).contents().insert(
                entity.spec_index(),
                *final(r),
            ),
            old(self).free_len() > 0 ==> {
                &&& final(self).dense_len() == old(self).dense_len()
                &&& final(self).free_len() + 1 == old(self).free_len()
            },
            old(self).free_len() == 0 ==> {
                &&& final(self).dense_len() == old(self).dense_len() + 1
                &&& final(self).free_len() == 0
            },
    {
        proof {
            use_type_invariant(&*self);
        }
        let slot = entity.index();
        let (mut entities, mut free_list, mut components) = self.take_parts();
        let free_index = free_list.pop();
        let index: usize;
        match free_index {
            Some(existing) => {
                index = existing;
                components[index] = new_component;
            },
            None => {
                index = components.len();
                components.push(new_component);
            },
        }
        entities.insert(slot, index);
        self.set_parts(entities, free_list, components);
        let r = &mut self.components[index];
        r
    }

    /// Releases the entity's slot from the pool: the stored value's dense
    /// slot joins the free-list and the slot mapping disappears. Does nothing
    /// if the slot has no stored value.
    pub fn free(&mut self, entity: Entity)
        ensures
            final(self).contents() =~= old(self).contents().remove(entity.spec_index()),
            final(self).dense_len() == old(self).dense_len(),
            old(self).contents().contains_key(entity.spec_index()) ==> final(self).free_len()
                == old(self).free_len() + 1,
            !old(self).contents().contains_key(entity.spec_index()) ==> final(self).free_len()
                == old(self).free_len(),
    {
        proof {
            use_type_invariant(&*self);
        }
        let slot = entity.index();
        let (mut entities, mut free_list, components) = self.take_parts();
        match entities.get(&slot) {
            Some(index) => {
                free_list.push(*index);
                entities.remove(&slot);
            },
            None => {},
        }
        self.set_parts(entities, free_list, components);
    }

    /// Moves the pool's three parts out, leaving the pool empty. The swap
    /// dance keeps the pool a valid value at every step, as the type
    /// invariant demands.
    fn take_parts(&mut self) -> (parts: (HashMap<u32, usize>, Vec<usize>, Vec<T>))
        ensures
            parts.0@ == old(self).entities@,
            parts.1@ == old(self).free_list@,
            parts.2@ == old(self).components@,
            pool_parts_wf(parts.0@, parts.1@, parts.2@.len()),
            final(self).entities@ == Map::<u32, usize>::empty(),
            final(self).free_list@ == Seq::<usize>::empty(),
    {
        proof {
            use_type_invariant(&*self);
        }
        let mut entities: HashMap<u32, usize> = HashMap::new();
        let mut free_list: Vec<usize> = Vec::new();
        let mut components: Vec<T> = Vec::new();
        core::mem::swap(&mut entities, &mut self.entities);
        core::mem::swap(&mut free_list, &mut self.free_list);
        core::mem::swap(&mut components, &mut self.components);
        (entities, free_list, components)
    }

    /// Installs the three parts back into the pool, in an order that keeps
    /// the type invariant at every intermediate step.
    fn set_parts(&mut self, entities: HashMap<u32, usize>, free_list: Vec<usize>, components: Vec<T>)
        requires
            pool_parts_wf(entities@, free_list@, components@.len()),
            old(self).entities@ == Map::<u32, usize>::empty(),
            old(self).free_list@ == Seq::<usize>::empty(),
        ensures
            final(self).entities@ == entities@,
            final(self).free_list@ == free_list@,
            final(self).components@ == components@,
    {
        proof {
            use_type_invariant(&*self);
        }
        self.components = components;
        self.entities = entities;
        self.free_list = free_list;
    }
}

/// Assigning a component and then reading the same slot gives back exactly
/// the assigned value: over the contents model that [`Pool::assign`] and
/// [`Pool::get`] are specified against, an insert pins the slot's value.
pub proof fn lemma_assign_then_get<T>(contents: Map<u32, T>, slot: u32, value: T)
    ensures
        contents.insert(slot, value).contains_key(slot),
        contents.insert(slot, value)[slot] == value,
{
}

/// Assigning twice to the same slot leaves exactly one stored value, the
/// second one: over the contents model, the earlier insert is absorbed
/// completely, so no duplicate storage can be observed.
pub proof fn lemma_assign_overwrites<T>(contents: Map<u32, T>, slot: u32, first: T, second: T)
    ensures
        contents.insert(slot, first).insert(slot, second) == contents.insert(slot, second),
{
    assert(contents.insert(slot, first).insert(slot, second) =~= contents.insert(slot, second));
}

/// Releasing a slot that stores nothing changes nothing: over the contents
/// model that [`Pool::free`] is specified against, removing an absent key
/// is the identity.
pub proof fn lemma_free_absent_is_noop<T>(contents: Map<u32, T>, slot: u32)
    requires
        !contents.contains_key(slot),
    ensures
        contents.remove(slot) == contents,
{
    assert(contents.remove(slot) =~= contents);
}

impl<T: Default> Pool<T> {
    /// Stores the component type's default value for the entity's slot, with
    /// the same storage behaviour as [`Pool::assign`]. Which value the
    /// default is depends on the component type's own `Default`
    /// implementation, so the contract pins only the pool's bookkeeping.
    pub fn assign_default(&mut self, entity: Entity) -> (r: &mut T)
        ensures
            final(self).contents() =~= old(self).contents().insert(
                entity.spec_index(),
                *final(r),
            ),
            old(self).contents().contains_key(entity.spec_index()) ==> {
                &&& final(self).dense_len() == old(self).dense_len()
                &&& final(self).free_len() == old(self).free_len()
            },
            !old(self).contents().contains_key(entity.spec_index()) && old(self).free_len() > 0
                ==> {
                &&& final(self).dense_len() == old(self).dense_len()
                &&& final(self).free_len() + 1 == old(self).free_len()
            },
            !old(self).contents().contains_key(entity.spec_index()) && old(self).free_len() == 0
                ==> {
                &&& final(self).dense_len() == old(self).dense_len() + 1
                &&& final(self).free_len() == 0
            },
    {
        self.assign(entity, T::default())
    }
}

} // verus!

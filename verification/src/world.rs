//! The entity world: one component store per component family, plus the
//! per-entity bookkeeping that says which families an entity owns and
//! which component handle belongs to it.
//!
//! The world keeps three structures in step: an arena
//! ([`ComponentStorage`]) per family, a map per family from entity to
//! component handle, and a per-entity bit set with one bit per family.
//! The stores guarantee their internal slot and generation correctness on
//! their own; the world's job is only this glue.

use vstd::prelude::*;

use std::collections::HashMap;

use crate::bit_array::BitArray;
use crate::bit_array::BitArray64;
use crate::comp_storage::ComponentID;
use crate::comp_storage::ComponentStorage;

verus! {

broadcast use vstd::std_specs::hash::group_hash_axioms;

pub type EntityID = u32;

/// The tag of the component family that `T` belongs to. A single family,
/// tag 0, covers every component type; the world is laid out so that
/// further families only take further tags.
pub fn get_ctid<T>() -> (r: u16)
    ensures
        r == 0,
{
    0
}

/// A world of entities over one component type family.
pub struct World<T> {
    components: Vec<ComponentStorage<T>>,
    component_map: Vec<HashMap<EntityID, ComponentID>>,
    component_bits: HashMap<EntityID, BitArray64>,
    entity_count: u32,
}

impl<T> World<T> {
    /// How many component families are registered.
    pub closed spec fn spec_kinds(&self) -> int {
        self.components@.len() as int
    }

    /// How many entities have been created.
    pub closed spec fn spec_entity_count(&self) -> u32 {
        self.entity_count
    }

    /// Whether `entity` has been created and not removed.
    pub closed spec fn spec_entity_known(&self, entity: EntityID) -> bool {
        self.component_bits@.contains_key(entity)
    }

    /// The store of family `k`.
    pub closed spec fn spec_storage(&self, k: int) -> ComponentStorage<T> {
        self.components@[k]
    }

    /// The component handle of `entity` in family `k`, if one is mapped.
    pub closed spec fn spec_mapping(&self, k: int, entity: EntityID) -> Option<ComponentID> {
        if self.component_map@[k]@.contains_key(entity) {
            Some(self.component_map@[k]@[entity])
        } else {
            None
        }
    }

    /// The world's well-formedness: one entity map per store, and every
    /// store internally well-formed.
    pub closed spec fn wf(&self) -> bool {
        &&& self.components@.len() == self.component_map@.len()
        &&& forall|k: int| 0 <= k < self.spec_kinds() ==> (#[trigger] self.components@[k]).wf()
    }

    /// An empty world: no families, no entities.
    pub fn new() -> (r: Self)
        ensures
            r.wf(),
            r.spec_kinds() == 0,
            r.spec_entity_count() == 0,
            forall|e: EntityID| !r.spec_entity_known(e),
    {
        World {
            components: Vec::new(),
            component_map: Vec::new(),
            component_bits: HashMap::new(),
            entity_count: 0,
        }
    }

    /// Register the component family of `T`: a fresh one-slot store and an
    /// empty entity map for it. Existing families and entities are
    /// untouched.
    pub fn register_component(&mut self)
        requires
            old(self).wf(),
        ensures
            final(self).wf(),
            final(self).spec_kinds() == old(self).spec_kinds() + 1,
            final(self).spec_entity_count() == old(self).spec_entity_count(),
            forall|k: int|
                0 <= k < old(self).spec_kinds() ==> final(self).spec_storage(k) == old(
                    self,
                ).spec_storage(k),
            forall|k: int, e: EntityID|
                0 <= k < old(self).spec_kinds() ==> final(self).spec_mapping(k, e) == old(
                    self,
                ).spec_mapping(k, e),
            ({
                let s = final(self).spec_storage(old(self).spec_kinds());
                &&& s.wf()
                &&& s.spec_capacity() == 1
                &&& s.spec_size() == 0
                &&& s.spec_ctid() == 0
            }),
            forall|e: EntityID|
                final(self).spec_mapping(old(self).spec_kinds(), e) is None,
            forall|e: EntityID| final(self).spec_entity_known(e) == old(self).spec_entity_known(e),
    {
        let ctsize: u32 = #[verifier::truncate] (core::mem::size_of::<T>() as u32);
        let storage = match ComponentStorage::new(get_ctid::<T>(), ctsize, 1) {
            Ok(s) => s,
            Err(_) => vstd::pervasive::unreached(),
        };
        self.components.push(storage);
        self.component_map.push(HashMap::new());
    }

    /// Hand out the next entity identity, starting at 1, and begin
    /// tracking its (empty) component ownership.
    pub fn create_entity(&mut self) -> (r: EntityID)
        requires
            old(self).wf(),
            old(self).spec_entity_count() < u32::MAX,
        ensures
            final(self).wf(),
            r == old(self).spec_entity_count() + 1,
            final(self).spec_entity_count() == r,
            final(self).spec_entity_known(r),
            final(self).spec_kinds() == old(self).spec_kinds(),
            forall|k: int|
                0 <= k < old(self).spec_kinds() ==> final(self).spec_storage(k) == old(
                    self,
                ).spec_storage(k),
            forall|k: int, e: EntityID|
                0 <= k < old(self).spec_kinds() ==> final(self).spec_mapping(k, e) == old(
                    self,
                ).spec_mapping(k, e),
            forall|e: EntityID|
                e != r ==> final(self).spec_entity_known(e) == old(self).spec_entity_known(e),
    {
        self.entity_count = self.entity_count + 1;
        self.component_bits.insert(self.entity_count, BitArray64::new());
        self.entity_count
    }

    /// Give `entity` a component: place it in the family's store, map the
    /// entity to the returned handle, and set the family's bit in the
    /// entity's ownership set. The handle is returned so that the caller
    /// can address the component directly.
    pub fn add_component(&mut self, entity: EntityID, component: T) -> (r: ComponentID)
        requires
            old(self).wf(),
            old(self).spec_kinds() > 0,
            old(self).spec_entity_known(entity),
            old(self).spec_storage(0).spec_size() < 0x8000_0000,
        ensures
            final(self).wf(),
            final(self).spec_kinds() == old(self).spec_kinds(),
            final(self).spec_entity_count() == old(self).spec_entity_count(),
            final(self).spec_mapping(0, entity) == Some(r),
            final(self).spec_storage(0).spec_has(r),
            final(self).spec_storage(0).spec_value(r.spec_index() as int) == component,
            final(self).spec_storage(0).spec_size() == old(self).spec_storage(0).spec_size() + 1,
            forall|k: int|
                0 < k < old(self).spec_kinds() ==> final(self).spec_storage(k) == old(
                    self,
                ).spec_storage(k),
            forall|k: int, e: EntityID|
                0 < k < old(self).spec_kinds() ==> final(self).spec_mapping(k, e) == old(
                    self,
                ).spec_mapping(k, e),
            forall|e: EntityID|
                e != entity ==> final(self).spec_mapping(0, e) == old(self).spec_mapping(0, e),
            forall|e: EntityID| final(self).spec_entity_known(e) == old(self).spec_entity_known(e),
            forall|h2: ComponentID|
                old(self).spec_storage(0).spec_has(h2) ==> final(self).spec_storage(0).spec_has(h2)
                    && final(self).spec_storage(0).spec_value(h2.spec_index() as int) == old(
                    self,
                ).spec_storage(0).spec_value(h2.spec_index() as int),
    {
        let ctid = get_ctid::<T>() as usize;
        let storage = &mut self.components[ctid];
        let comp_id = storage.insert(component);
        let map = &mut self.component_map[ctid];
        map.insert(entity, comp_id);
        let bits: BitArray64 = match self.component_bits.get(&entity) {
            Some(b) => *b,
            None => vstd::pervasive::unreached(),
        };
        let mut bits2 = bits;
        bits2.set_true(ctid);
        self.component_bits.insert(entity, bits2);
        comp_id
    }

    /// Borrow `entity`'s component of the family, if the entity has one
    /// whose handle is still valid; an unmapped entity answers `None`.
    pub fn get_component(&self, entity: EntityID) -> (r: Option<&T>)
        requires
            self.wf(),
        ensures
            match r {
                Some(v) => {
                    &&& self.spec_kinds() > 0
                    &&& self.spec_mapping(0, entity) matches Some(id)
                        && self.spec_storage(0).spec_has(id) && *v == self.spec_storage(
                        0,
                    ).spec_value(id.spec_index() as int)
                },
                None => self.spec_kinds() == 0 || self.spec_mapping(0, entity) is None || (
                self.spec_mapping(0, entity) matches Some(id) && !self.spec_storage(0).spec_has(
                    id,
                )),
            },
    {
        let ctid = get_ctid::<T>() as usize;
        if ctid >= self.components.len() {
            return None;
        }
        match self.component_map[ctid].get(&entity) {
            Some(id) => self.components[ctid].try_get(*id),
            None => None,
        }
    }

    /// Mutably borrow `entity`'s component of the family, if the entity
    /// has one whose handle is still valid; nothing but the borrowed
    /// record changes, and an unmapped entity answers `None` changing
    /// nothing.
    pub fn get_component_mut(&mut self, entity: EntityID) -> (r: Option<&mut T>)
        requires
            old(self).wf(),
        ensures
            match r {
                Some(m) => {
                    &&& old(self).spec_kinds() > 0
                    &&& final(self).wf()
                    &&& final(self).spec_kinds() == old(self).spec_kinds()
                    &&& final(self).spec_entity_count() == old(self).spec_entity_count()
                    &&& old(self).spec_mapping(0, entity) matches Some(id) && {
                        &&& old(self).spec_storage(0).spec_has(id)
                        &&& *m == old(self).spec_storage(0).spec_value(id.spec_index() as int)
                        &&& final(self).spec_storage(0).spec_value(id.spec_index() as int)
                            == *final(m)
                        &&& forall|i: int|
                            0 <= i < old(self).spec_storage(0).spec_capacity() && i
                                != id.spec_index() && old(self).spec_storage(0).spec_live(i)
                                ==> final(self).spec_storage(0).spec_value(i) == old(
                                self,
                            ).spec_storage(0).spec_value(i)
                    }
                    &&& forall|i: int|
                        final(self).spec_storage(0).spec_live(i) == old(self).spec_storage(
                            0,
                        ).spec_live(i)
                    &&& final(self).spec_storage(0).spec_size() == old(self).spec_storage(
                        0,
                    ).spec_size()
                    &&& forall|k: int|
                        0 < k < old(self).spec_kinds() ==> final(self).spec_storage(k) == old(
                            self,
                        ).spec_storage(k)
                    &&& forall|k: int, e: EntityID|
                        0 <= k < old(self).spec_kinds() ==> final(self).spec_mapping(k, e) == old(
                            self,
                        ).spec_mapping(k, e)
                    &&& forall|e: EntityID|
                        final(self).spec_entity_known(e) == old(self).spec_entity_known(e)
                },
                None => {
                    &&& final(self).wf()
                    &&& final(self).spec_kinds() == old(self).spec_kinds()
                    &&& final(self).spec_entity_count() == old(self).spec_entity_count()
                    &&& forall|k: int|
                        0 <= k < old(self).spec_kinds() ==> final(self).spec_storage(k) == old(
                            self,
                        ).spec_storage(k)
                    &&& forall|k: int, e: EntityID|
                        0 <= k < old(self).spec_kinds() ==> final(self).spec_mapping(k, e) == old(
                            self,
                        ).spec_mapping(k, e)
                    &&& forall|e: EntityID|
                        final(self).spec_entity_known(e) == old(self).spec_entity_known(e)
                    &&& (old(self).spec_kinds() == 0 || old(self).spec_mapping(0, entity) is None
                        || (old(self).spec_mapping(0, entity) matches Some(id) && !old(
                        self,
                    ).spec_storage(0).spec_has(id)))
                },
            },
    {
        let ctid = get_ctid::<T>() as usize;
        if ctid >= self.components.len() {
            return None;
        }
        let id: ComponentID = match self.component_map[ctid].get(&entity) {
            Some(id) => *id,
            None => {
                return None;
            },
        };
        let storage = &mut self.components[ctid];
        storage.try_get_mut(id)
    }

    /// Take `entity`'s component of the family away: unmap it, release
    /// its record, and clear the family's bit. Answers whether a
    /// component was mapped — removing an absent component is reported,
    /// not ignored.
    pub fn remove_component(&mut self, entity: EntityID) -> (r: bool)
        requires
            old(self).wf(),
        ensures
            final(self).wf(),
            final(self).spec_kinds() == old(self).spec_kinds(),
            final(self).spec_entity_count() == old(self).spec_entity_count(),
            r == (old(self).spec_kinds() > 0 && old(self).spec_mapping(0, entity) is Some),
            old(self).spec_kinds() > 0 ==> final(self).spec_mapping(0, entity) is None,
            forall|k: int, e: EntityID|
                0 < k < old(self).spec_kinds() ==> final(self).spec_mapping(k, e) == old(
                    self,
                ).spec_mapping(k, e),
            forall|e: EntityID|
                e != entity ==> final(self).spec_mapping(0, e) == old(self).spec_mapping(0, e),
            forall|e: EntityID| final(self).spec_entity_known(e) == old(self).spec_entity_known(e),
    {
        let ctid = get_ctid::<T>() as usize;
        if ctid >= self.components.len() {
            return false;
        }
        let map = &mut self.component_map[ctid];
        let comp_id: ComponentID = match map.remove(&entity) {
            Some(id) => id,
            None => {
                return false;
            },
        };
        let storage = &mut self.components[ctid];
        let _ = storage.release(comp_id);
        match self.component_bits.get(&entity) {
            Some(b) => {
                let mut bits2 = *b;
                bits2.set_false(ctid);
                self.component_bits.insert(entity, bits2);
            },
            None => {},
        }
        true
    }

    /// Remove an entity: walk the families its bit set names, unmapping
    /// and releasing each component it owns, then forget the entity. An
    /// unknown entity is left as a no-op.
    pub fn remove_entity(&mut self, entity: EntityID)
        requires
            old(self).wf(),
        ensures
            final(self).wf(),
            final(self).spec_kinds() == old(self).spec_kinds(),
            final(self).spec_entity_count() == old(self).spec_entity_count(),
            !final(self).spec_entity_known(entity),
            forall|e: EntityID|
                e != entity ==> final(self).spec_entity_known(e) == old(self).spec_entity_known(e),
    {
        let bits: BitArray64 = match self.component_bits.get(&entity) {
            Some(b) => *b,
            None => {
                self.component_bits.remove(&entity);
                return ;
            },
        };
        let mut it = bits.iter();
        loop
            invariant
                self.wf(),
                self.spec_kinds() == old(self).spec_kinds(),
                self.spec_entity_count() == old(self).spec_entity_count(),
                it.spec_source() == bits,
                0 <= it.spec_pos() <= 64,
                forall|e: EntityID|
                    self.spec_entity_known(e) == old(self).spec_entity_known(e),
            decreases 64 - it.spec_pos(),
        {
            match it.next() {
                Some(ctid) => {
                    if ctid < self.component_map.len() {
                        let map = &mut self.component_map[ctid];
                        match map.remove(&entity) {
                            Some(comp_id) => {
                                let storage = &mut self.components[ctid];
                                let _ = storage.release(comp_id);
                            },
                            None => {},
                        }
                    }
                },
                None => {
                    break ;
                },
            }
        }
        self.component_bits.remove(&entity);
    }
}

} // verus!

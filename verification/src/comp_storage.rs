//! A densely packed slot map for high-volume component records.
//!
//! A [`ComponentStorage<T>`] trades the name index of
//! [`crate::storage::Storage`] for dense packing: the live records always
//! sit contiguously in `data[0..size]`, so iteration touches exactly the
//! live records with no occupancy checks. Each slot carries a
//! `packed_index` indirection from its stable identity to the record's
//! current physical position, and a reverse lookup (`packed_to_slot`)
//! recovers the slot holding any physical position. Releasing a record
//! swap-removes it: the last record moves into the freed position and
//! both slots' indirections are exchanged, which keeps handles valid
//! while physical positions shift.

use vstd::prelude::*;

use crate::storage::StorageError;
use crate::storage::next_generation;

verus! {

/// A copyable handle to one slot of a [`ComponentStorage`]: a weak
/// reference that the owning store may invalidate at any time through
/// release.
#[derive(Clone, Copy, PartialEq, Eq, Structural, Hash, PartialOrd, Ord, Debug)]
pub struct ComponentID {
    index: u32,
    generation: u16,
    ctid: u16,
}

impl ComponentID {
    /// The slot index the handle refers to.
    pub closed spec fn spec_index(&self) -> u32 {
        self.index
    }

    /// The generation the slot carried when the handle was issued.
    pub closed spec fn spec_generation(&self) -> u16 {
        self.generation
    }

    /// The component type tag of the store that issued the handle.
    pub closed spec fn spec_ctid(&self) -> u16 {
        self.ctid
    }

    pub fn index(&self) -> (r: u32)
        ensures
            r == self.spec_index(),
    {
        self.index
    }

    pub fn generation(&self) -> (r: u16)
        ensures
            r == self.spec_generation(),
    {
        self.generation
    }

    pub fn ctid(&self) -> (r: u16)
        ensures
            r == self.spec_ctid(),
    {
        self.ctid
    }
}

#[derive(Clone, Copy)]
struct CompSlot {
    packed_index: u32,
    next_index: u32,
    generation: u16,
    free: bool,
}

/// A slot map of fixed-size component records, densely packed for fast
/// linear iteration.
pub struct ComponentStorage<T> {
    data: Vec<T>,
    slots: Vec<CompSlot>,
    packed_to_slot: Vec<u32>,
    size: u32,
    first_available: u32,
    ctid: u16,
    ctsize: u32,
    free_order: Ghost<Seq<int>>,
}

impl<T> ComponentStorage<T> {
    /// How many slots the store currently has, live or free.
    pub closed spec fn spec_capacity(&self) -> int {
        self.slots@.len() as int
    }

    /// How many records are live.
    pub closed spec fn spec_size(&self) -> u32 {
        self.size
    }

    /// The component type tag fixed at construction.
    pub closed spec fn spec_ctid(&self) -> u16 {
        self.ctid
    }

    /// The record size in bytes fixed at construction.
    pub closed spec fn spec_ctsize(&self) -> u32 {
        self.ctsize
    }

    /// Whether slot `i` holds a live record.
    pub closed spec fn spec_live(&self, i: int) -> bool {
        0 <= i < self.spec_capacity() && !self.slots@[i].free
    }

    /// The generation counter of slot `i`.
    pub closed spec fn spec_slot_generation(&self, i: int) -> u16 {
        self.slots@[i].generation
    }

    /// The physical position of slot `i`'s record.
    pub closed spec fn spec_packed(&self, i: int) -> u32 {
        self.slots@[i].packed_index
    }

    /// The slot whose record sits at physical position `p`.
    pub closed spec fn spec_packed_slot(&self, p: int) -> u32 {
        self.packed_to_slot@[p]
    }

    /// The record slot `i` refers to, through the indirection.
    pub closed spec fn spec_value(&self, i: int) -> T
        recommends
            self.spec_live(i),
    {
        self.data@[self.spec_packed(i) as int]
    }

    /// The validity predicate: a handle is valid iff its slot is live and
    /// the slot's generation equals the handle's.
    pub open spec fn spec_has(&self, id: ComponentID) -> bool {
        &&& self.spec_live(id.spec_index() as int)
        &&& self.spec_slot_generation(id.spec_index() as int) == id.spec_generation()
    }

    /// What dereferencing a handle yields: the slot's record where the
    /// handle is valid, nothing otherwise.
    pub open spec fn spec_get(&self, id: ComponentID) -> Option<T> {
        if self.spec_has(id) {
            Some(self.spec_value(id.spec_index() as int))
        } else {
            None
        }
    }

    /// The internal well-formedness of the store: the free list threads
    /// exactly the free slots; the live records pack the prefix
    /// `data[0..size]`, with `packed_index` and `packed_to_slot` inverse
    /// bijections between live slots and physical positions.
    pub closed spec fn wf(&self) -> bool {
        let cap = self.spec_capacity();
        let fl = self.free_order@;
        &&& cap <= u32::MAX
        &&& 1 <= cap
        &&& self.size as int == cap - fl.len()
        &&& self.data@.len() == self.size as int
        &&& self.packed_to_slot@.len() == self.size as int
        &&& (forall|k: int| 0 <= k < fl.len() ==> 0 <= #[trigger] fl[k] < cap)
        &&& (forall|k: int| 0 <= k < fl.len() ==> self.slots@[#[trigger] fl[k]].free)
        &&& (forall|k1: int, k2: int| 0 <= k1 < k2 < fl.len() ==> fl[k1] != fl[k2])
        &&& (forall|i: int| 0 <= i < cap && self.slots@[i].free ==> fl.contains(i))
        &&& self.first_available as int == (if fl.len() == 0 {
            cap
        } else {
            fl[0]
        })
        &&& (forall|k: int|
            0 <= k < fl.len() - 1 ==> self.slots@[#[trigger] fl[k]].next_index as int == fl[k + 1])
        &&& (fl.len() > 0 ==> self.slots@[fl[fl.len() - 1]].next_index as int == cap)
        &&& (forall|i: int|
            0 <= i < cap && !(#[trigger] self.slots@[i]).free ==> {
                &&& self.slots@[i].packed_index < self.size
                &&& self.packed_to_slot@[self.slots@[i].packed_index as int] == i
            })
        &&& (forall|p: int|
            0 <= p < self.size ==> {
                &&& 0 <= #[trigger] self.packed_to_slot@[p] < cap
                &&& !self.slots@[self.packed_to_slot@[p] as int].free
                &&& self.slots@[self.packed_to_slot@[p] as int].packed_index == p
            })
    }

    /// A fresh store for records of `ctsize` bytes tagged `ctid`, with
    /// `capacity` all-free slots and the free list running forward from
    /// slot 0; refused when `capacity` is zero.
    pub fn new(ctid: u16, ctsize: u32, capacity: u32) -> (r: Result<Self, StorageError>)
        ensures
            match r {
                Ok(s) => {
                    &&& capacity > 0
                    &&& s.wf()
                    &&& s.spec_capacity() == capacity
                    &&& s.spec_size() == 0
                    &&& s.spec_ctid() == ctid
                    &&& s.spec_ctsize() == ctsize
                    &&& (forall|i: int| !s.spec_live(i))
                    &&& (forall|i: int| 0 <= i < capacity ==> s.spec_slot_generation(i) == 0)
                },
                Err(e) => capacity == 0 && e == StorageError::InvalidCapacity,
            },
    {
        if capacity == 0 {
            return Err(StorageError::InvalidCapacity);
        }
        let mut slots: Vec<CompSlot> = Vec::with_capacity(capacity as usize);
        let mut i: u32 = 0;
        while i < capacity
            invariant
                i <= capacity,
                slots@.len() == i as int,
                forall|j: int|
                    0 <= j < i ==> (#[trigger] slots@[j]).free && slots@[j].next_index == j + 1
                        && slots@[j].generation == 0 && slots@[j].packed_index == j,
            decreases capacity - i,
        {
            slots.push(CompSlot { packed_index: i, next_index: i + 1, generation: 0, free: true });
            i = i + 1;
        }
        let s = ComponentStorage {
            data: Vec::new(),
            slots,
            packed_to_slot: Vec::new(),
            size: 0,
            first_available: 0,
            ctid,
            ctsize,
            free_order: Ghost(Seq::new(capacity as nat, |k: int| k)),
        };
        proof {
            assert forall|i2: int| 0 <= i2 < capacity && s.slots@[i2].free implies s
                .free_order@.contains(i2) by {
                assert(s.free_order@[i2] == i2);
            }
        }
        Ok(s)
    }

    /// The number of live records: inserts minus releases so far.
    pub fn size(&self) -> (r: u32)
        ensures
            r == self.spec_size(),
    {
        self.size
    }

    /// The current slot count.
    pub fn capacity(&self) -> (r: u32)
        requires
            self.wf(),
        ensures
            r as int == self.spec_capacity(),
    {
        self.slots.len() as u32
    }

    /// Whether `id` is currently valid. Never fails, whatever the handle:
    /// an out-of-range or stale handle answers `false`.
    pub fn has(&self, id: ComponentID) -> (r: bool)
        requires
            self.wf(),
        ensures
            r == self.spec_has(id),
    {
        if id.index as usize >= self.slots.len() {
            return false;
        }
        let comp_index = &self.slots[id.index as usize];
        !comp_index.free && comp_index.generation == id.generation
    }

    /// Double the slot array, extending the free list with the fresh
    /// slots; the records and every slot's `packed_index` are untouched,
    /// so no repacking happens and all handles stay valid.
    fn expand(&mut self)
        requires
            old(self).wf(),
            old(self).spec_size() as int == old(self).spec_capacity(),
            old(self).spec_capacity() < 0x8000_0000,
        ensures
            final(self).wf(),
            final(self).spec_capacity() == 2 * old(self).spec_capacity(),
            final(self).spec_size() == old(self).spec_size(),
            final(self).spec_ctid() == old(self).spec_ctid(),
            final(self).spec_ctsize() == old(self).spec_ctsize(),
            forall|i: int|
                0 <= i < old(self).spec_capacity() ==> {
                    &&& final(self).spec_live(i) == old(self).spec_live(i)
                    &&& final(self).spec_slot_generation(i) == old(self).spec_slot_generation(i)
                    &&& final(self).spec_packed(i) == old(self).spec_packed(i)
                },
            forall|i: int|
                0 <= i < old(self).spec_capacity() && old(self).spec_live(i)
                    ==> final(self).spec_value(i) == old(self).spec_value(i),
            forall|i: int|
                old(self).spec_capacity() <= i < final(self).spec_capacity() ==> {
                    &&& !final(self).spec_live(i)
                    &&& final(self).spec_slot_generation(i) == 0
                },
            final(self).first_available as int == old(self).spec_capacity(),
    {
        let capacity = self.capacity();
        let mut i: u32 = capacity;
        while i < 2 * capacity
            invariant
                capacity as int == old(self).spec_capacity(),
                0 < capacity < 0x8000_0000,
                capacity <= i <= 2 * capacity,
                self.slots@.len() == i as int,
                self.data == old(self).data,
                self.packed_to_slot == old(self).packed_to_slot,
                self.size == old(self).size,
                self.first_available == old(self).first_available,
                self.ctid == old(self).ctid,
                self.ctsize == old(self).ctsize,
                self.free_order == old(self).free_order,
                forall|j: int| 0 <= j < capacity ==> self.slots@[j] == old(self).slots@[j],
                forall|j: int|
                    capacity <= j < i ==> (#[trigger] self.slots@[j]).free
                        && self.slots@[j].next_index == j + 1 && self.slots@[j].generation == 0,
            decreases 2 * capacity - i,
        {
            self.slots.push(
                CompSlot { packed_index: i, next_index: i + 1, generation: 0, free: true },
            );
            i = i + 1;
        }
        proof {
            assert(old(self).free_order@.len() == 0);
        }
        self.free_order = Ghost(Seq::new(capacity as nat, |k: int| capacity + k));
        proof {
            let cap2 = self.spec_capacity();
            let fl = self.free_order@;
            assert forall|i2: int| 0 <= i2 < cap2 && self.slots@[i2].free implies fl.contains(
                i2,
            ) by {
                if i2 < capacity {
                    assert(old(self).slots@[i2].free);
                    assert(old(self).free_order@.contains(i2));
                } else {
                    assert(fl[i2 - capacity] == i2);
                }
            }
        }
    }

    /// Place `item` at the end of the packed prefix and hand out a fresh
    /// handle carrying the slot's bumped generation. Amortized O(1): when
    /// the free list is exhausted the store grows by doubling first, and
    /// every handle that was valid before stays valid and keeps its
    /// record.
    pub fn insert(&mut self, item: T) -> (r: ComponentID)
        requires
            old(self).wf(),
            old(self).spec_size() < 0x8000_0000,
        ensures
            final(self).wf(),
            final(self).spec_ctid() == old(self).spec_ctid(),
            final(self).spec_ctsize() == old(self).spec_ctsize(),
            r.spec_ctid() == old(self).spec_ctid(),
            0 <= r.spec_index() < final(self).spec_capacity(),
            !old(self).spec_live(r.spec_index() as int),
            final(self).spec_live(r.spec_index() as int),
            final(self).spec_value(r.spec_index() as int) == item,
            r.spec_generation() == final(self).spec_slot_generation(r.spec_index() as int),
            final(self).spec_has(r),
            final(self).spec_get(r) == Some(item),
            final(self).spec_packed(r.spec_index() as int) == old(self).spec_size(),
            final(self).spec_size() == old(self).spec_size() + 1,
            old(self).spec_size() < old(self).spec_capacity() ==> final(self).spec_capacity()
                == old(self).spec_capacity(),
            old(self).spec_size() == old(self).spec_capacity() ==> final(self).spec_capacity()
                == 2 * old(self).spec_capacity(),
            r.spec_index() < old(self).spec_capacity() ==> r.spec_generation()
                == next_generation(old(self).spec_slot_generation(r.spec_index() as int)),
            r.spec_index() >= old(self).spec_capacity() ==> r.spec_generation() == 1,
            forall|h2: ComponentID|
                old(self).spec_has(h2) ==> final(self).spec_has(h2) && final(self).spec_value(
                    h2.spec_index() as int,
                ) == old(self).spec_value(h2.spec_index() as int),
            forall|i: int|
                0 <= i < final(self).spec_capacity() && i != r.spec_index()
                    ==> final(self).spec_live(i) == (i < old(self).spec_capacity() && old(self).spec_live(i)),
            forall|i: int|
                0 <= i < old(self).spec_capacity() && i != r.spec_index()
                    ==> final(self).spec_slot_generation(i) == old(self).spec_slot_generation(i),
    {
        if self.first_available == self.capacity() {
            proof {
                if self.free_order@.len() != 0 {
                    assert(self.first_available as int == self.free_order@[0]);
                    assert(self.free_order@[0] < self.spec_capacity());
                }
            }
            self.expand();
        } else {
            proof {
                assert(self.free_order@.len() != 0);
            }
        }
        let ghost mid = *self;
        proof {
            assert(mid.free_order@.len() > 0);
        }
        let new_index = self.first_available;
        proof {
            assert(new_index as int == mid.free_order@[0]);
            if old(self).free_order@.len() == 0 {
                assert(new_index as int == old(self).spec_capacity());
                assert(self.spec_slot_generation(new_index as int) == 0);
            } else {
                assert(new_index as int == old(self).free_order@[0]);
                assert((new_index as int) < old(self).spec_capacity());
            }
        }
        let next = self.slots[new_index as usize].next_index;
        let gen_old = self.slots[new_index as usize].generation;
        let new_generation: u16 = if gen_old == 0xffffu16 {
            0
        } else {
            gen_old + 1
        };
        let p = self.size;
        self.slots[new_index as usize] = CompSlot {
            packed_index: p,
            next_index: next,
            generation: new_generation,
            free: false,
        };
        self.first_available = next;
        self.free_order = Ghost(self.free_order@.drop_first());
        self.data.push(item);
        self.packed_to_slot.push(new_index);
        self.size = self.size + 1;
        let r = ComponentID { index: new_index, generation: new_generation, ctid: self.ctid };
        proof {
            let cap = self.spec_capacity();
            let fl = self.free_order@;
            let flm = mid.free_order@;
            assert forall|i: int| 0 <= i < cap && self.slots@[i].free implies fl.contains(i) by {
                assert(flm.contains(i));
                let j = choose|j: int| 0 <= j < flm.len() && flm[j] == i;
                assert(j != 0);
                assert(fl[j - 1] == i);
            }
            assert forall|i: int| 0 <= i < cap && !(#[trigger] self.slots@[i]).free implies {
                &&& self.slots@[i].packed_index < self.size
                &&& self.packed_to_slot@[self.slots@[i].packed_index as int] == i
            } by {
                if i != new_index {
                    assert(self.slots@[i] == mid.slots@[i]);
                }
            }
            assert(self.wf());
            assert forall|i: int|
                0 <= i < self.spec_capacity() && i != r.spec_index() implies self.spec_live(i) == (
            i < old(self).spec_capacity() && old(self).spec_live(i)) by {
                assert(self.slots@[i] == mid.slots@[i]);
                assert(self.spec_live(i) == mid.spec_live(i));
            }
        }
        r
    }

    /// Borrow the record a valid handle refers to, through the packed
    /// indirection. Dereferencing a freed slot or a stale generation is a
    /// contract violation and is reported as `InvalidHandle`, leaving the
    /// store untouched.
    pub fn get(&self, id: ComponentID) -> (r: Result<&T, StorageError>)
        requires
            self.wf(),
        ensures
            match r {
                Ok(v) => self.spec_has(id) && *v == self.spec_value(id.spec_index() as int)
                    && self.spec_get(id) == Some(*v),
                Err(e) => !self.spec_has(id) && e == StorageError::InvalidHandle,
            },
    {
        if id.index as usize >= self.slots.len() {
            return Err(StorageError::InvalidHandle);
        }
        let comp_index = &self.slots[id.index as usize];
        if !comp_index.free && comp_index.generation == id.generation {
            Ok(&self.data[comp_index.packed_index as usize])
        } else {
            Err(StorageError::InvalidHandle)
        }
    }

    /// Borrow the record a handle refers to, or `None` for an invalid
    /// handle: the recoverable twin of [`ComponentStorage::get`].
    pub fn try_get(&self, id: ComponentID) -> (r: Option<&T>)
        requires
            self.wf(),
        ensures
            match r {
                Some(v) => self.spec_has(id) && *v == self.spec_value(id.spec_index() as int),
                None => !self.spec_has(id),
            },
    {
        match self.get(id) {
            Ok(v) => Some(v),
            Err(_) => None,
        }
    }

    /// Mutably borrow the record a valid handle refers to; nothing but
    /// the borrowed record changes. An invalid handle is a contract
    /// violation, reported as `InvalidHandle` with the store untouched.
    pub fn get_mut(&mut self, id: ComponentID) -> (r: Result<&mut T, StorageError>)
        requires
            old(self).wf(),
        ensures
            match r {
                Ok(m) => {
                    &&& old(self).spec_has(id)
                    &&& *m == old(self).spec_value(id.spec_index() as int)
                    &&& final(self).wf()
                    &&& final(self).spec_capacity() == old(self).spec_capacity()
                    &&& final(self).spec_size() == old(self).spec_size()
                    &&& final(self).spec_ctid() == old(self).spec_ctid()
                    &&& forall|i: int| final(self).spec_live(i) == old(self).spec_live(i)
                    &&& forall|i: int|
                        0 <= i < old(self).spec_capacity() ==> final(self).spec_slot_generation(i)
                            == old(self).spec_slot_generation(i) && final(self).spec_packed(i)
                            == old(self).spec_packed(i)
                    &&& final(self).spec_value(id.spec_index() as int) == *final(m)
                    &&& forall|i: int|
                        0 <= i < old(self).spec_capacity() && i != id.spec_index() && old(self).spec_live(i) ==> final(self).spec_value(i) == old(self).spec_value(i)
                },
                Err(e) => {
                    &&& !old(self).spec_has(id)
                    &&& e == StorageError::InvalidHandle
                    &&& *final(self) == *old(self)
                },
            },
    {
        if !self.has(id) {
            return Err(StorageError::InvalidHandle);
        }
        let p = self.slots[id.index as usize].packed_index as usize;
        proof {
            // Distinct live slots pack to distinct positions, so writing
            // through this one leaves the other records alone.
            assert forall|i: int|
                0 <= i < self.spec_capacity() && i != id.spec_index() && self.spec_live(i)
                    implies self.spec_packed(i) != p by {
                if self.spec_packed(i) == p {
                    assert(self.packed_to_slot@[p as int] == i);
                    assert(self.packed_to_slot@[p as int] == id.spec_index());
                }
            }
        }
        Ok(&mut self.data[p])
    }

    /// Mutably borrow the record a handle refers to, or `None` for an
    /// invalid handle, changing nothing: the recoverable twin of
    /// [`ComponentStorage::get_mut`].
    pub fn try_get_mut(&mut self, id: ComponentID) -> (r: Option<&mut T>)
        requires
            old(self).wf(),
        ensures
            match r {
                Some(m) => {
                    &&& old(self).spec_has(id)
                    &&& *m == old(self).spec_value(id.spec_index() as int)
                    &&& final(self).wf()
                    &&& final(self).spec_capacity() == old(self).spec_capacity()
                    &&& final(self).spec_size() == old(self).spec_size()
                    &&& forall|i: int| final(self).spec_live(i) == old(self).spec_live(i)
                    &&& forall|i: int|
                        0 <= i < old(self).spec_capacity() ==> final(self).spec_slot_generation(i)
                            == old(self).spec_slot_generation(i)
                    &&& final(self).spec_value(id.spec_index() as int) == *final(m)
                    &&& forall|i: int|
                        0 <= i < old(self).spec_capacity() && i != id.spec_index() && old(self).spec_live(i) ==> final(self).spec_value(i) == old(self).spec_value(i)
                },
                None => !old(self).spec_has(id) && *final(self) == *old(self),
            },
    {
        if !self.has(id) {
            return None;
        }
        match self.get_mut(id) {
            Ok(m) => Some(m),
            Err(_) => None,
        }
    }

    /// Release the record a valid handle refers to by swap-removal: the
    /// last packed record moves into the freed position, the two slots'
    /// indirections are exchanged, the slot returns to the free-list head
    /// and the live count drops by one. Every other handle stays valid and
    /// keeps its record; only physical positions shift. Releasing an
    /// invalid handle is a contract violation and is reported as
    /// `InvalidHandle`, leaving the store untouched.
    pub fn release(&mut self, id: ComponentID) -> (r: Result<(), StorageError>)
        requires
            old(self).wf(),
        ensures
            final(self).wf(),
            final(self).spec_ctid() == old(self).spec_ctid(),
            final(self).spec_ctsize() == old(self).spec_ctsize(),
            match r {
                Ok(()) => {
                    &&& old(self).spec_has(id)
                    &&& !final(self).spec_has(id)
                    &&& !final(self).spec_live(id.spec_index() as int)
                    &&& final(self).spec_capacity() == old(self).spec_capacity()
                    &&& final(self).spec_size() == old(self).spec_size() - 1
                    &&& forall|i: int|
                        0 <= i < old(self).spec_capacity() ==> final(self).spec_slot_generation(i)
                            == old(self).spec_slot_generation(i)
                    &&& forall|i: int|
                        0 <= i < old(self).spec_capacity() && i != id.spec_index()
                            ==> final(self).spec_live(i) == old(self).spec_live(i)
                    &&& forall|h2: ComponentID|
                        old(self).spec_has(h2) && h2.spec_index() != id.spec_index() ==> final(self).spec_has(h2) && final(self).spec_value(h2.spec_index() as int) == old(self).spec_value(h2.spec_index() as int)
                    &&& forall|h2: ComponentID|
                        final(self).spec_has(h2) ==> old(self).spec_has(h2)
                },
                Err(e) => {
                    &&& !old(self).spec_has(id)
                    &&& e == StorageError::InvalidHandle
                    &&& *final(self) == *old(self)
                },
            },
    {
        if !self.has(id) {
            return Err(StorageError::InvalidHandle);
        }
        let idx = id.index as usize;
        let p = self.slots[idx].packed_index as usize;
        let last = (self.size - 1) as usize;
        let s_last = self.packed_to_slot[last];
        let _released = self.data.swap_remove(p);
        self.packed_to_slot[p] = s_last;
        let moved = self.slots[s_last as usize];
        self.slots[s_last as usize] = CompSlot {
            packed_index: p as u32,
            next_index: moved.next_index,
            generation: moved.generation,
            free: moved.free,
        };
        self.packed_to_slot.pop();
        let gen = self.slots[idx].generation;
        let next = self.first_available;
        self.slots[idx] = CompSlot {
            packed_index: 0,
            next_index: next,
            generation: gen,
            free: true,
        };
        self.first_available = id.index;
        self.free_order = Ghost(seq![idx as int] + self.free_order@);
        self.size = self.size - 1;
        proof {
            let cap = self.spec_capacity();
            let fl = self.free_order@;
            let flo = old(self).free_order@;
            assert(fl[0] == idx as int);
            assert(forall|k: int| 1 <= k < fl.len() ==> fl[k] == flo[k - 1]);
            assert(!flo.contains(idx as int));
            assert forall|i: int| 0 <= i < cap && self.slots@[i].free implies fl.contains(i) by {
                if i != idx {
                    assert(self.slots@[i].free == old(self).slots@[i].free);
                    assert(flo.contains(i));
                    let j = choose|j: int| 0 <= j < flo.len() && flo[j] == i;
                    assert(fl[j + 1] == i);
                }
            }
            // The two indirection maps stay inverse bijections on the
            // shortened prefix.
            let sz = self.size as int;
            assert forall|i: int| 0 <= i < cap && !(#[trigger] self.slots@[i]).free implies {
                &&& self.slots@[i].packed_index < self.size
                &&& self.packed_to_slot@[self.slots@[i].packed_index as int] == i
            } by {
                assert(i != idx);
                if i == s_last {
                    assert(self.slots@[i].packed_index == p as u32);
                    assert((p as int) < sz || p == last);
                    assert(self.packed_to_slot@[p as int] == s_last);
                } else {
                    assert(self.slots@[i] == old(self).slots@[i]);
                    let q = old(self).slots@[i].packed_index as int;
                    assert(old(self).packed_to_slot@[q] == i);
                    assert(q != p) by {
                        if q == p {
                            assert(old(self).packed_to_slot@[p as int] == idx as int);
                        }
                    }
                    assert(q != last as int) by {
                        if q == last as int {
                            assert(old(self).packed_to_slot@[last as int] == s_last as int);
                        }
                    }
                    assert(self.packed_to_slot@[q] == i);
                }
            }
            assert forall|q: int| 0 <= q < sz implies {
                &&& 0 <= #[trigger] self.packed_to_slot@[q] < cap
                &&& !self.slots@[self.packed_to_slot@[q] as int].free
                &&& self.slots@[self.packed_to_slot@[q] as int].packed_index == q
            } by {
                if q == p as int {
                    assert(self.packed_to_slot@[q] == s_last);
                    assert(s_last != id.spec_index()) by {
                        if s_last == id.spec_index() {
                            assert(old(self).slots@[idx as int].packed_index == last as u32);
                            assert(p == last);
                            assert(p as int >= sz);
                        }
                    }
                } else {
                    let s_q = old(self).packed_to_slot@[q];
                    assert(self.packed_to_slot@[q] == s_q);
                    assert(old(self).slots@[s_q as int].packed_index == q);
                    assert(s_q != idx as u32) by {
                        if s_q == idx as u32 {
                            assert(old(self).slots@[idx as int].packed_index == p as u32);
                        }
                    }
                    assert(s_q != s_last) by {
                        if s_q == s_last {
                            assert(old(self).slots@[s_last as int].packed_index == last as u32);
                        }
                    }
                    assert(self.slots@[s_q as int] == old(self).slots@[s_q as int]);
                }
            }
            assert(self.wf());
            // Every other handle keeps its record: the moved record's new
            // position is read back through the exchanged indirection.
            assert forall|h2: ComponentID|
                old(self).spec_has(h2) && h2.spec_index() != id.spec_index() implies self.spec_has(
                h2,
            ) && self.spec_value(h2.spec_index() as int) == old(self).spec_value(
                h2.spec_index() as int,
            ) by {
                let i = h2.spec_index() as int;
                if i == s_last as int {
                    assert(self.spec_packed(i) == p as u32);
                    assert(self.data@[p as int] == old(self).data@[last as int]);
                } else {
                    assert(self.slots@[i] == old(self).slots@[i]);
                    let q = old(self).slots@[i].packed_index as int;
                    assert(q != p && q != last as int) by {
                        if q == p {
                            assert(old(self).packed_to_slot@[p as int] == idx as int);
                        }
                        if q == last as int {
                            assert(old(self).packed_to_slot@[last as int] == s_last as int);
                        }
                    }
                    assert(self.data@[q] == old(self).data@[q]);
                }
            }
        }
        Ok(())
    }

    /// Borrow every live record, in packed order: the fastest path in the
    /// whole system, touching exactly the `size()` live records with no
    /// occupancy checks.
    pub fn iterate(&self) -> (r: Vec<&T>)
        requires
            self.wf(),
        ensures
            r@.len() == self.spec_size(),
            forall|p: int|
                0 <= p < self.spec_size() ==> *(#[trigger] r@[p]) == self.spec_value(
                    self.spec_packed_slot(p) as int,
                ),
    {
        let mut r: Vec<&T> = Vec::new();
        let n = self.size;
        let mut p: u32 = 0;
        while p < n
            invariant
                self.wf(),
                n == self.spec_size(),
                p <= n,
                r@.len() == p as int,
                forall|q: int|
                    0 <= q < p ==> *(#[trigger] r@[q]) == self.spec_value(
                        self.spec_packed_slot(q) as int,
                    ),
            decreases n - p,
        {
            let v = &self.data[p as usize];
            proof {
                let s_p = self.spec_packed_slot(p as int) as int;
                assert(self.spec_packed(s_p) == p);
                assert(self.spec_value(s_p) == self.data@[p as int]);
            }
            r.push(v);
            p = p + 1;
        }
        r
    }

    /// Invalidation is permanent: a handle to a released slot stays
    /// invalid through the insert that reuses the slot, because the slot's
    /// generation has moved on. `mid` is the store right after the release
    /// (the slot is free but still carries the stale handle's generation),
    /// `post` the store after any subsequent insert, which returned `r`;
    /// the hypotheses are what [`ComponentStorage::insert`] ensures of
    /// that pair of states.
    pub proof fn lemma_released_handle_stays_invalid(
        mid: &ComponentStorage<T>,
        post: &ComponentStorage<T>,
        h: ComponentID,
        r: ComponentID,
    )
        requires
            !mid.spec_has(h),
            0 <= h.spec_index() < mid.spec_capacity(),
            mid.spec_slot_generation(h.spec_index() as int) == h.spec_generation(),
            r.spec_index() < mid.spec_capacity() ==> r.spec_generation() == next_generation(
                mid.spec_slot_generation(r.spec_index() as int),
            ),
            post.spec_slot_generation(r.spec_index() as int) == r.spec_generation(),
            forall|i: int|
                0 <= i < post.spec_capacity() && i != r.spec_index() ==> post.spec_live(i) == (i
                    < mid.spec_capacity() && mid.spec_live(i)),
            forall|i: int|
                0 <= i < mid.spec_capacity() && i != r.spec_index() ==> post.spec_slot_generation(
                    i,
                ) == mid.spec_slot_generation(i),
        ensures
            !post.spec_has(h),
    {
        if h.spec_index() == r.spec_index() {
            assert(next_generation(h.spec_generation()) != h.spec_generation());
        }
    }

    /// Dense packing: after any sequence of inserts and releases, the
    /// physical positions below `size()` and the live slots are in exact
    /// one-to-one correspondence — iterating the packed prefix visits
    /// exactly `size()` records, each belonging to one distinct live slot,
    /// and never a freed one.
    pub proof fn lemma_dense_packing(&self)
        requires
            self.wf(),
        ensures
            forall|p: int|
                0 <= p < self.spec_size() ==> self.spec_live(
                    #[trigger] self.spec_packed_slot(p) as int,
                ) && self.spec_packed(self.spec_packed_slot(p) as int) == p,
            forall|p1: int, p2: int|
                0 <= p1 < p2 < self.spec_size() ==> self.spec_packed_slot(p1)
                    != self.spec_packed_slot(p2),
            forall|i: int|
                self.spec_live(i) ==> 0 <= #[trigger] self.spec_packed(i) < self.spec_size()
                    && self.spec_packed_slot(self.spec_packed(i) as int) == i,
    {
        assert forall|p1: int, p2: int|
            0 <= p1 < p2 < self.spec_size() implies self.spec_packed_slot(p1)
            != self.spec_packed_slot(p2) by {
            if self.spec_packed_slot(p1) == self.spec_packed_slot(p2) {
                assert(self.slots@[self.packed_to_slot@[p1] as int].packed_index == p1);
                assert(self.slots@[self.packed_to_slot@[p2] as int].packed_index == p2);
            }
        }
    }
}

} // verus!
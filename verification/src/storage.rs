//! A named, generic slot map handing out generational handles.
//!
//! A [`Storage<T>`] owns a growable array of optional values. Each slot
//! carries a generation counter bumped on every reuse, so a handle to a
//! released slot is rejected forever after (barring 16-bit wraparound).
//! Free slots form a singly linked list threaded through the slots' own
//! `next_index` fields; `first_available` points at its head, or equals
//! the capacity when the list is exhausted and the next insert must grow
//! the array. A name index maps human-readable names to slots.

use vstd::prelude::*;

use crate::name_index;
use core::marker::PhantomData;

verus! {

/// Why a store operation was refused.
#[derive(Clone, Copy, PartialEq, Eq, Structural, Debug)]
pub enum StorageError {
    /// A store cannot be created with zero capacity.
    InvalidCapacity,
    /// The handle's slot is unoccupied or its generation is stale.
    InvalidHandle,
    /// No live entry is registered under the given name.
    NameNotFound,
}

/// A family of values that a [`Storage`] can own. The type tag stamps the
/// handles of different families apart, so that a serialized handle says
/// which store it belongs to.
pub trait Resource {
    fn tid() -> u16;
}

/// A copyable handle to one slot of a [`Storage<T>`]: a weak reference
/// that the owning store may invalidate at any time through release.
pub struct ResourceID<T: Resource> {
    index: u32,
    generation: u16,
    tid: u16,
    phantom: PhantomData<T>,
}

impl<T: Resource> Clone for ResourceID<T> {
    fn clone(&self) -> (r: Self)
        ensures
            r == *self,
    {
        ResourceID { index: self.index, generation: self.generation, tid: self.tid, phantom: PhantomData }
    }
}

impl<T: Resource> Copy for ResourceID<T> {

}

impl<T: Resource> PartialEq for ResourceID<T> {
    fn eq(&self, other: &Self) -> (r: bool) {
        self.index == other.index && self.generation == other.generation && self.tid == other.tid
    }
}

impl<T: Resource> Eq for ResourceID<T> {

}

impl<T: Resource> vstd::std_specs::cmp::PartialEqSpecImpl for ResourceID<T> {
    open spec fn obeys_eq_spec() -> bool {
        true
    }

    open spec fn eq_spec(&self, other: &Self) -> bool {
        self.spec_index() == other.spec_index() && self.spec_generation()
            == other.spec_generation() && self.spec_tid() == other.spec_tid()
    }
}

impl<T: Resource> ResourceID<T> {
    /// The slot index the handle refers to.
    pub closed spec fn spec_index(&self) -> u32 {
        self.index
    }

    /// The generation the slot carried when the handle was issued.
    pub closed spec fn spec_generation(&self) -> u16 {
        self.generation
    }

    /// The type tag of the family the handle belongs to.
    pub closed spec fn spec_tid(&self) -> u16 {
        self.tid
    }

    /// The distinguished handle that refers to nothing.
    pub fn null() -> (r: ResourceID<T>)
        ensures
            r.spec_index() == u32::MAX,
            r.spec_generation() == 0,
    {
        ResourceID { index: u32::MAX, generation: 0, tid: T::tid(), phantom: PhantomData }
    }

    /// Whether the handle is the null sentinel.
    pub fn is_null(&self) -> (r: bool)
        ensures
            r == (self.spec_index() == u32::MAX),
    {
        self.index == u32::MAX
    }

    /// The handle's serialized form: the fixed-width token of its packed
    /// fields.
    pub fn to_token(&self) -> (r: String)
        ensures
            r@ == crate::token::token_of(
                crate::token::pack_handle(
                    self.spec_index(),
                    self.spec_generation(),
                    self.spec_tid(),
                ),
            ),
    {
        let v: u64 = (self.index as u64) | ((self.generation as u64) << 32u64) | ((self.tid
            as u64) << 48u64);
        crate::token::encode_token(v)
    }

    /// Rebuild a handle from its serialized token. A malformed token is
    /// data corruption and is rejected, saying what is wrong with it; a
    /// well-formed token yields the handle whose token it is, bit for bit.
    pub fn from_token(s: &str) -> (r: Result<ResourceID<T>, crate::token::TokenError>)
        ensures
            match r {
                Ok(h) => s@ == crate::token::token_of(
                    crate::token::pack_handle(h.spec_index(), h.spec_generation(), h.spec_tid()),
                ),
                Err(e) => match e {
                    crate::token::TokenError::InvalidLength => s@.len() != 16,
                    crate::token::TokenError::InvalidDigit => s@.len() == 16 && exists|j: int|
                        0 <= j < 16 && crate::token::hex_val(s@[j]) is None,
                },
            },
    {
        match crate::token::decode_token(s) {
            Ok(v) => {
                proof {
                    assert((v & 0xffff_ffff) <= 0xffff_ffffu64) by (bit_vector);
                    assert(((v >> 32u64) & 0xffff) <= 0xffffu64) by (bit_vector);
                    assert(((v >> 48u64) & 0xffff) <= 0xffffu64) by (bit_vector);
                }
                let index: u32 = (v & 0xffff_ffff) as u32;
                let generation: u16 = ((v >> 32u64) & 0xffff) as u16;
                let tid: u16 = ((v >> 48u64) & 0xffff) as u16;
                proof {
                    assert(((v & 0xffff_ffff) | (((v >> 32u64) & 0xffff) << 32u64) | (((v
                        >> 48u64) & 0xffff) << 48u64)) == v) by (bit_vector);
                    assert(crate::token::pack_handle(index, generation, tid) == v);
                }
                Ok(ResourceID { index, generation, tid, phantom: PhantomData })
            },
            Err(e) => Err(e),
        }
    }
}

/// The generation a slot carries after one more reuse: one higher,
/// wrapping around at the 16-bit limit.
pub open spec fn next_generation(g: u16) -> u16 {
    if g == 0xffff {
        0
    } else {
        (g + 1) as u16
    }
}

struct ItemNode<T> {
    item: Option<T>,
    next_index: u32,
    generation: u16,
    name: String,
}

/// A named slot map: values of one resource family, addressed by
/// generational handle or by name.
pub struct Storage<T: Resource> {
    nodes: Vec<ItemNode<T>>,
    size: u32,
    first_available: u32,
    name_index: name_index::NameIndex,
    free_order: Ghost<Seq<int>>,
}

impl<T: Resource> Storage<T> {
    /// How many slots the store currently has, occupied or free.
    pub closed spec fn spec_capacity(&self) -> int {
        self.nodes@.len() as int
    }

    /// How many slots are occupied.
    pub closed spec fn spec_size(&self) -> u32 {
        self.size
    }

    /// Whether slot `i` holds a value.
    pub closed spec fn spec_occupied(&self, i: int) -> bool {
        0 <= i < self.spec_capacity() && self.nodes@[i].item is Some
    }

    /// The generation counter of slot `i`.
    pub closed spec fn spec_slot_generation(&self, i: int) -> u16 {
        self.nodes@[i].generation
    }

    /// The value held by slot `i`.
    pub closed spec fn spec_value(&self, i: int) -> T
        recommends
            self.spec_occupied(i),
    {
        self.nodes@[i].item->Some_0
    }

    /// The name slot `i` was last inserted under.
    pub closed spec fn spec_slot_name(&self, i: int) -> Seq<char> {
        self.nodes@[i].name@
    }

    /// The slot registered under name `n`, if any.
    pub closed spec fn spec_name_slot(&self, n: Seq<char>) -> Option<u32> {
        self.name_index.spec_find(n)
    }

    /// The validity predicate: a handle is valid iff its slot is occupied
    /// and the slot's generation equals the handle's.
    pub open spec fn spec_has(&self, h: ResourceID<T>) -> bool {
        &&& self.spec_occupied(h.spec_index() as int)
        &&& self.spec_slot_generation(h.spec_index() as int) == h.spec_generation()
    }

    /// What dereferencing a handle yields: the slot's value where the
    /// handle is valid, nothing otherwise.
    pub open spec fn spec_get(&self, h: ResourceID<T>) -> Option<T> {
        if self.spec_has(h) {
            Some(self.spec_value(h.spec_index() as int))
        } else {
            None
        }
    }

    /// The internal well-formedness of the store: the free list threads
    /// exactly the unoccupied slots and ends at the capacity; the size
    /// counts the occupied slots; every name entry points at an occupied
    /// slot carrying that name.
    pub closed spec fn wf(&self) -> bool {
        let cap = self.spec_capacity();
        let fl = self.free_order@;
        &&& cap <= u32::MAX
        &&& 1 <= cap
        &&& self.size as int == cap - fl.len()
        &&& (forall|k: int| 0 <= k < fl.len() ==> 0 <= #[trigger] fl[k] < cap)
        &&& (forall|k: int| 0 <= k < fl.len() ==> self.nodes@[#[trigger] fl[k]].item is None)
        &&& (forall|k1: int, k2: int| 0 <= k1 < k2 < fl.len() ==> fl[k1] != fl[k2])
        &&& (forall|i: int| 0 <= i < cap && self.nodes@[i].item is None ==> fl.contains(i))
        &&& self.first_available as int == (if fl.len() == 0 {
            cap
        } else {
            fl[0]
        })
        &&& (forall|k: int|
            0 <= k < fl.len() - 1 ==> self.nodes@[#[trigger] fl[k]].next_index as int == fl[k + 1])
        &&& (fl.len() > 0 ==> self.nodes@[fl[fl.len() - 1]].next_index as int == cap)
        &&& self.name_index.wf()
        &&& (forall|n: Seq<char>|
            (#[trigger] self.name_index.spec_find(n)) matches Some(i) ==> {
                &&& 0 <= i < cap
                &&& self.nodes@[i as int].item is Some
                &&& self.nodes@[i as int].name@ == n
            })
    }

    /// A fresh store of `capacity` all-free slots, its free list running
    /// forward from slot 0; refused when `capacity` is zero.
    pub fn new(capacity: u32) -> (r: Result<Self, StorageError>)
        ensures
            match r {
                Ok(s) => {
                    &&& capacity > 0
                    &&& s.wf()
                    &&& s.spec_capacity() == capacity
                    &&& s.spec_size() == 0
                    &&& (forall|i: int| !s.spec_occupied(i))
                    &&& (forall|i: int| 0 <= i < capacity ==> s.spec_slot_generation(i) == 0)
                    &&& (forall|n: Seq<char>| s.spec_name_slot(n) is None)
                },
                Err(e) => capacity == 0 && e == StorageError::InvalidCapacity,
            },
    {
        if capacity == 0 {
            return Err(StorageError::InvalidCapacity);
        }
        let mut nodes: Vec<ItemNode<T>> = Vec::with_capacity(capacity as usize);
        let mut i: u32 = 0;
        while i < capacity
            invariant
                i <= capacity,
                nodes@.len() == i as int,
                forall|j: int|
                    0 <= j < i ==> (#[trigger] nodes@[j]).item is None && nodes@[j].next_index
                        == j + 1 && nodes@[j].generation == 0,
            decreases capacity - i,
        {
            nodes.push(
                ItemNode { item: None, next_index: i + 1, generation: 0, name: String::new() },
            );
            i = i + 1;
        }
        let s = Storage {
            nodes,
            size: 0,
            first_available: 0,
            name_index: name_index::NameIndex::new(),
            free_order: Ghost(Seq::new(capacity as nat, |k: int| k)),
        };
        proof {
            assert forall|i: int| 0 <= i < capacity && s.nodes@[i].item is None implies s
                .free_order@.contains(i) by {
                assert(s.free_order@[i] == i);
            }
        }
        Ok(s)
    }

    /// The number of live entries: inserts minus releases so far.
    pub fn size(&self) -> (r: u32)
        ensures
            r == self.spec_size(),
    {
        self.size
    }

    /// The current slot count.
    pub fn capacity(&self) -> (r: u32)
        requires
            self.wf(),
        ensures
            r as int == self.spec_capacity(),
    {
        self.nodes.len() as u32
    }

    /// Whether `item_ref` is currently valid. Never fails, whatever the
    /// handle: an out-of-range or stale handle answers `false`.
    pub fn has(&self, item_ref: ResourceID<T>) -> (r: bool)
        requires
            self.wf(),
        ensures
            r == self.spec_has(item_ref),
    {
        if item_ref.index as usize >= self.nodes.len() {
            return false;
        }
        let node = &self.nodes[item_ref.index as usize];
        node.item.is_some() && node.generation == item_ref.generation
    }

    /// Borrow the value a valid handle refers to. Dereferencing an
    /// unoccupied slot or a stale generation is a contract violation and
    /// is reported as `InvalidHandle`, leaving the store untouched.
    pub fn get(&self, item_ref: ResourceID<T>) -> (r: Result<&T, StorageError>)
        requires
            self.wf(),
        ensures
            match r {
                Ok(v) => self.spec_has(item_ref) && *v == self.spec_value(
                    item_ref.spec_index() as int,
                ) && self.spec_get(item_ref) == Some(*v),
                Err(e) => !self.spec_has(item_ref) && e == StorageError::InvalidHandle,
            },
    {
        if item_ref.index as usize >= self.nodes.len() {
            return Err(StorageError::InvalidHandle);
        }
        let node = &self.nodes[item_ref.index as usize];
        match node.item.as_ref() {
            Some(v) if node.generation == item_ref.generation => Ok(v),
            _ => Err(StorageError::InvalidHandle),
        }
    }

    /// Double the slot array, extending the free list with the fresh
    /// slots; called only when the free list is exhausted.
    fn expand(&mut self)
        requires
            old(self).wf(),
            old(self).spec_size() as int == old(self).spec_capacity(),
            old(self).spec_capacity() < 0x8000_0000,
        ensures
            final(self).wf(),
            final(self).spec_capacity() == 2 * old(self).spec_capacity(),
            final(self).spec_size() == old(self).spec_size(),
            forall|i: int|
                0 <= i < old(self).spec_capacity() ==> {
                    &&& final(self).spec_occupied(i) == old(self).spec_occupied(i)
                    &&& final(self).spec_slot_generation(i) == old(self).spec_slot_generation(i)
                    &&& final(self).spec_slot_name(i) == old(self).spec_slot_name(i)
                },
            forall|i: int|
                0 <= i < old(self).spec_capacity() && old(self).spec_occupied(i)
                    ==> final(self).spec_value(i) == old(self).spec_value(i),
            forall|i: int|
                old(self).spec_capacity() <= i < final(self).spec_capacity() ==> {
                    &&& !final(self).spec_occupied(i)
                    &&& final(self).spec_slot_generation(i) == 0
                },
            final(self).name_index == old(self).name_index,
            final(self).first_available as int == old(self).spec_capacity(),
    {
        let capacity = self.capacity();
        let mut i: u32 = capacity;
        while i < 2 * capacity
            invariant
                capacity as int == old(self).spec_capacity(),
                0 < capacity < 0x8000_0000,
                capacity <= i <= 2 * capacity,
                self.nodes@.len() == i as int,
                self.size == old(self).size,
                self.first_available == old(self).first_available,
                self.name_index == old(self).name_index,
                self.free_order == old(self).free_order,
                forall|j: int| 0 <= j < capacity ==> self.nodes@[j] == old(self).nodes@[j],
                forall|j: int|
                    capacity <= j < i ==> (#[trigger] self.nodes@[j]).item is None
                        && self.nodes@[j].next_index == j + 1 && self.nodes@[j].generation == 0,
            decreases 2 * capacity - i,
        {
            self.nodes.push(
                ItemNode { item: None, next_index: i + 1, generation: 0, name: String::new() },
            );
            i = i + 1;
        }
        proof {
            // The free list was exhausted, so the fresh tail of the slot
            // array is the whole new free list.
            assert(old(self).free_order@.len() == 0);
        }
        self.free_order = Ghost(Seq::new(capacity as nat, |k: int| capacity + k));
        proof {
            let cap2 = self.spec_capacity();
            let fl = self.free_order@;
            assert forall|i: int| 0 <= i < cap2 && self.nodes@[i].item is None implies fl.contains(
                i,
            ) by {
                if i < capacity {
                    assert(old(self).nodes@[i].item is None);
                    assert(old(self).free_order@.contains(i));
                } else {
                    assert(fl[i - capacity] == i);
                }
            }
            assert forall|n: Seq<char>|
                (#[trigger] self.name_index.spec_find(n)) is Some implies {
                let idx = self.name_index.spec_find(n)->Some_0;
                &&& 0 <= idx < cap2
                &&& self.nodes@[idx as int].item is Some
                &&& self.nodes@[idx as int].name@ == n
            } by {
                assert(self.name_index.spec_find(n) == old(self).name_index.spec_find(n));
                let idx = self.name_index.spec_find(n)->Some_0;
                assert(self.nodes@[idx as int] == old(self).nodes@[idx as int]);
            }
        }
    }

    /// Place `item` in a free slot, register it under `name` (overwriting
    /// any prior owner of that name), and return a fresh handle carrying
    /// the slot's bumped generation. Amortized O(1): when the free list is
    /// exhausted the store grows by doubling first, and every handle that
    /// was valid before stays valid and keeps its value.
    pub fn insert(&mut self, name: &str, item: T) -> (r: ResourceID<T>)
        requires
            old(self).wf(),
            old(self).spec_size() < 0x8000_0000,
        ensures
            final(self).wf(),
            0 <= r.spec_index() < final(self).spec_capacity(),
            !old(self).spec_occupied(r.spec_index() as int),
            final(self).spec_occupied(r.spec_index() as int),
            final(self).spec_value(r.spec_index() as int) == item,
            final(self).spec_slot_name(r.spec_index() as int) == name@,
            r.spec_generation() == final(self).spec_slot_generation(r.spec_index() as int),
            final(self).spec_has(r),
            final(self).spec_get(r) == Some(item),
            final(self).spec_size() == old(self).spec_size() + 1,
            old(self).spec_size() < old(self).spec_capacity() ==> final(self).spec_capacity()
                == old(self).spec_capacity(),
            old(self).spec_size() == old(self).spec_capacity() ==> final(self).spec_capacity()
                == 2 * old(self).spec_capacity(),
            r.spec_index() < old(self).spec_capacity() ==> r.spec_generation()
                == next_generation(old(self).spec_slot_generation(r.spec_index() as int)),
            r.spec_index() >= old(self).spec_capacity() ==> r.spec_generation() == 1,
            forall|h2: ResourceID<T>|
                old(self).spec_has(h2) ==> final(self).spec_has(h2) && final(self).spec_value(
                    h2.spec_index() as int,
                ) == old(self).spec_value(h2.spec_index() as int),
            forall|i: int|
                0 <= i < final(self).spec_capacity() && i != r.spec_index()
                    ==> final(self).spec_occupied(i) == (i < old(self).spec_capacity() && old(self).spec_occupied(i)),
            forall|i: int|
                0 <= i < old(self).spec_capacity() && i != r.spec_index()
                    ==> final(self).spec_slot_generation(i) == old(self).spec_slot_generation(i),
            forall|i: int|
                0 <= i < old(self).spec_capacity() && i != r.spec_index() && old(self).spec_occupied(i) ==> final(self).spec_value(i) == old(self).spec_value(i)
                    && final(self).spec_slot_name(i) == old(self).spec_slot_name(i),
            forall|n: Seq<char>|
                final(self).spec_name_slot(n) == (if n == name@ {
                    Some(r.spec_index())
                } else {
                    old(self).spec_name_slot(n)
                }),
    {
        if self.first_available == self.capacity() {
            proof {
                // The free list is empty exactly when every slot is
                // occupied, so doubling is in order.
                if self.free_order@.len() != 0 {
                    assert(self.first_available as int == self.free_order@[0]);
                    assert(self.free_order@[0] < self.spec_capacity());
                }
            }
            self.expand();
        } else {
            proof {
                assert(self.free_order@.len() != 0);
            }
        }
        let ghost mid = *self;
        proof {
            assert(mid.free_order@.len() > 0);
        }
        let new_index = self.first_available;
        proof {
            assert(new_index as int == mid.free_order@[0]);
            if old(self).free_order@.len() == 0 {
                assert(new_index as int == old(self).spec_capacity());
                assert(self.spec_slot_generation(new_index as int) == 0);
            } else {
                assert(new_index as int == old(self).free_order@[0]);
                assert((new_index as int) < old(self).spec_capacity());
            }
        }
        let next = self.nodes[new_index as usize].next_index;
        let gen_old = self.nodes[new_index as usize].generation;
        let new_generation: u16 = if gen_old == 0xffffu16 {
            0
        } else {
            gen_old + 1
        };
        let name_owned: String = name.to_owned();
        let name_for_node: String = name_owned.clone();
        self.nodes[new_index as usize] = ItemNode {
            item: Some(item),
            next_index: next,
            generation: new_generation,
            name: name_for_node,
        };
        self.first_available = next;
        self.free_order = Ghost(self.free_order@.drop_first());
        proof {
            let cap = self.spec_capacity();
            let fl = self.free_order@;
            let flm = mid.free_order@;
            assert forall|i: int| 0 <= i < cap && self.nodes@[i].item is None implies fl.contains(
                i,
            ) by {
                assert(flm.contains(i));
                let j = choose|j: int| 0 <= j < flm.len() && flm[j] == i;
                assert(j != 0);
                assert(fl[j - 1] == i);
            }
        }
        self.size = self.size + 1;
        self.name_index.set(name_owned, new_index);
        let r = ResourceID {
            index: new_index,
            generation: new_generation,
            tid: T::tid(),
            phantom: PhantomData,
        };
        proof {
            let cap = self.spec_capacity();
            assert forall|n: Seq<char>|
                (#[trigger] self.name_index.spec_find(n)) is Some implies {
                let idx = self.name_index.spec_find(n)->Some_0;
                &&& 0 <= idx < cap
                &&& self.nodes@[idx as int].item is Some
                &&& self.nodes@[idx as int].name@ == n
            } by {
                if n != name@ {
                    let idx = mid.name_index.spec_find(n)->Some_0;
                    assert(mid.name_index.spec_find(n) is Some);
                    assert(idx != new_index);
                    assert(self.nodes@[idx as int] == mid.nodes@[idx as int]);
                }
            }
            assert(self.wf());
            assert forall|i: int|
                0 <= i < self.spec_capacity() && i != r.spec_index() implies self.spec_occupied(i)
                    == (i < old(self).spec_capacity() && old(self).spec_occupied(i)) by {
                assert(self.nodes@[i] == mid.nodes@[i]);
                assert(self.spec_occupied(i) == mid.spec_occupied(i));
            }
            assert(mid.name_index == old(self).name_index);
            assert forall|n: Seq<char>|
                self.spec_name_slot(n) == (if n == name@ {
                    Some(r.spec_index())
                } else {
                    old(self).spec_name_slot(n)
                }) by {
                assert(mid.spec_name_slot(n) == old(self).spec_name_slot(n));
            }
        }
        r
    }

    /// An occupied slot keeps the free list short of the capacity, so the
    /// live count is positive.
    proof fn lemma_occupied_size_positive(&self, i: int)
        requires
            self.wf(),
            self.spec_occupied(i),
        ensures
            self.spec_size() >= 1,
    {
        broadcast use vstd::set::group_set_axioms;

        let fl = self.free_order@;
        let cap = self.spec_capacity();
        assert(fl.no_duplicates()) by {
            assert(forall|k1: int, k2: int|
                0 <= k1 < fl.len() && 0 <= k2 < fl.len() && k1 != k2 ==> fl[k1] != fl[k2]);
        }
        fl.unique_seq_to_set();
        vstd::set_lib::lemma_int_range(0, cap);
        let without = vstd::set_lib::set_int_range(0, cap).remove(i);
        assert(fl.to_set().subset_of(without)) by {
            assert forall|x: int| fl.to_set().contains(x) implies without.contains(x) by {
                let k = choose|k: int| 0 <= k < fl.len() && fl[k] == x;
                assert(self.nodes@[x].item is None);
            }
        }
        vstd::set_lib::lemma_len_subset(fl.to_set(), without);
    }

    /// Unhook the name entry pointing at slot `index`, if one does, and
    /// push the slot back onto the free-list head.
    fn release_slot(&mut self, index: u32)
        requires
            old(self).wf(),
            old(self).spec_occupied(index as int),
        ensures
            final(self).wf(),
            final(self).spec_capacity() == old(self).spec_capacity(),
            final(self).spec_size() == old(self).spec_size() - 1,
            !final(self).spec_occupied(index as int),
            forall|i: int|
                0 <= i < old(self).spec_capacity() && i != index
                    ==> final(self).spec_occupied(i) == old(self).spec_occupied(i),
            forall|i: int|
                0 <= i < old(self).spec_capacity()
                    ==> final(self).spec_slot_generation(i) == old(self).spec_slot_generation(i),
            forall|i: int|
                0 <= i < old(self).spec_capacity() && i != index && old(self).spec_occupied(i)
                    ==> final(self).spec_value(i) == old(self).spec_value(i)
                        && final(self).spec_slot_name(i) == old(self).spec_slot_name(i),
            forall|n: Seq<char>|
                final(self).spec_name_slot(n) == (if old(self).spec_name_slot(n) == Some(index) {
                    None::<u32>
                } else {
                    old(self).spec_name_slot(n)
                }),
    {
        proof {
            self.lemma_occupied_size_positive(index as int);
        }
        let idx = index as usize;
        let node_name = self.nodes[idx].name.clone();
        let ghost mut removed: bool = false;
        match self.name_index.find(&node_name) {
            Some(j) => {
                if j == index {
                    let _ = self.name_index.remove(&node_name);
                    proof {
                        removed = true;
                    }
                }
            },
            None => {},
        }
        proof {
            // A name can map to this slot only if it reads the slot's own
            // name, so at most the slot's name was unhooked; `removed`
            // says whether it was.
            assert forall|n: Seq<char>|
                self.name_index.spec_find(n) == (if old(self).spec_name_slot(n) == Some(index) {
                    None::<u32>
                } else {
                    old(self).spec_name_slot(n)
                }) by {
                if old(self).spec_name_slot(n) == Some(index) {
                    assert(old(self).nodes@[index as int].name@ == n);
                    assert(n == node_name@);
                    assert(removed);
                } else {
                    if n == node_name@ && removed {
                        assert(old(self).spec_name_slot(node_name@) == Some(index));
                        assert(false);
                    }
                }
            }
        }
        let gen = self.nodes[idx].generation;
        let next = self.first_available;
        self.nodes[idx] = ItemNode {
            item: None,
            next_index: next,
            generation: gen,
            name: String::new(),
        };
        self.first_available = index;
        self.free_order = Ghost(seq![index as int] + self.free_order@);
        self.size = self.size - 1;
        proof {
            let cap = self.spec_capacity();
            let fl = self.free_order@;
            let flo = old(self).free_order@;
            assert(fl[0] == index as int);
            assert(forall|k: int| 1 <= k < fl.len() ==> fl[k] == flo[k - 1]);
            assert(!flo.contains(index as int));
            assert forall|i: int| 0 <= i < cap && self.nodes@[i].item is None implies fl.contains(
                i,
            ) by {
                if i != index {
                    assert(flo.contains(i));
                    let j = choose|j: int| 0 <= j < flo.len() && flo[j] == i;
                    assert(fl[j + 1] == i);
                }
            }
            assert forall|n: Seq<char>|
                (#[trigger] self.name_index.spec_find(n)) is Some implies {
                let i2 = self.name_index.spec_find(n)->Some_0;
                &&& 0 <= i2 < cap
                &&& self.nodes@[i2 as int].item is Some
                &&& self.nodes@[i2 as int].name@ == n
            } by {
                let i2 = self.name_index.spec_find(n)->Some_0;
                assert(old(self).spec_name_slot(n) == Some(i2));
                assert(i2 != index);
                assert(self.nodes@[i2 as int] == old(self).nodes@[i2 as int]);
            }
            assert(self.wf());
        }
    }

    /// Release the value a valid handle refers to: the slot returns to
    /// the free-list head, its name mapping disappears, and the live
    /// count drops by one. Releasing an invalid handle is a contract
    /// violation and is reported as `InvalidHandle`, leaving the store
    /// untouched.
    pub fn release(&mut self, item_ref: ResourceID<T>) -> (r: Result<(), StorageError>)
        requires
            old(self).wf(),
        ensures
            final(self).wf(),
            match r {
                Ok(()) => {
                    &&& old(self).spec_has(item_ref)
                    &&& !final(self).spec_has(item_ref)
                    &&& !final(self).spec_occupied(item_ref.spec_index() as int)
                    &&& final(self).spec_capacity() == old(self).spec_capacity()
                    &&& final(self).spec_size() == old(self).spec_size() - 1
                    &&& forall|i: int|
                        0 <= i < old(self).spec_capacity() ==> final(self).spec_slot_generation(i)
                            == old(self).spec_slot_generation(i)
                    &&& forall|h2: ResourceID<T>|
                        old(self).spec_has(h2) && h2.spec_index() != item_ref.spec_index()
                            ==> final(self).spec_has(h2) && final(self).spec_value(
                            h2.spec_index() as int,
                        ) == old(self).spec_value(h2.spec_index() as int)
                    &&& forall|h2: ResourceID<T>|
                        final(self).spec_has(h2) ==> old(self).spec_has(h2)
                    &&& forall|n: Seq<char>|
                        final(self).spec_name_slot(n) == (if old(self).spec_name_slot(n) == Some(
                            item_ref.spec_index(),
                        ) {
                            None::<u32>
                        } else {
                            old(self).spec_name_slot(n)
                        })
                },
                Err(e) => {
                    &&& !old(self).spec_has(item_ref)
                    &&& e == StorageError::InvalidHandle
                    &&& *final(self) == *old(self)
                },
            },
    {
        if !self.has(item_ref) {
            return Err(StorageError::InvalidHandle);
        }
        self.release_slot(item_ref.index);
        Ok(())
    }

    /// Release the entry registered under `name`. An unknown name is
    /// reported as `NameNotFound` rather than ignored, leaving the store
    /// untouched.
    pub fn release_by_name(&mut self, name: &str) -> (r: Result<(), StorageError>)
        requires
            old(self).wf(),
        ensures
            final(self).wf(),
            match r {
                Ok(()) => {
                    &&& old(self).spec_name_slot(name@) is Some
                    &&& {
                        let idx = old(self).spec_name_slot(name@)->Some_0;
                        &&& !final(self).spec_occupied(idx as int)
                        &&& final(self).spec_capacity() == old(self).spec_capacity()
                        &&& final(self).spec_size() == old(self).spec_size() - 1
                        &&& forall|i: int|
                            0 <= i < old(self).spec_capacity() ==> final(self).spec_slot_generation(i) == old(self).spec_slot_generation(i)
                        &&& forall|h2: ResourceID<T>|
                            old(self).spec_has(h2) && h2.spec_index() != idx ==> final(self).spec_has(h2) && final(self).spec_value(h2.spec_index() as int)
                                == old(self).spec_value(h2.spec_index() as int)
                        &&& forall|h2: ResourceID<T>|
                            final(self).spec_has(h2) ==> old(self).spec_has(h2)
                        &&& final(self).spec_name_slot(name@) is None
                        &&& forall|n: Seq<char>|
                            final(self).spec_name_slot(n) == (if old(self).spec_name_slot(n)
                                == Some(idx) {
                                None::<u32>
                            } else {
                                old(self).spec_name_slot(n)
                            })
                    }
                },
                Err(e) => {
                    &&& old(self).spec_name_slot(name@) is None
                    &&& e == StorageError::NameNotFound
                    &&& *final(self) == *old(self)
                },
            },
    {
        let name_owned: String = name.to_owned();
        let index: u32 = match self.name_index.find(&name_owned) {
            Some(i) => i,
            None => {
                return Err(StorageError::NameNotFound);
            },
        };
        self.release_slot(index);
        Ok(())
    }

    /// Borrow the entry registered under `name`, together with a handle
    /// to it; an unknown name answers `None`.
    pub fn get_by_name(&self, name: &str) -> (r: Option<(&T, ResourceID<T>)>)
        requires
            self.wf(),
        ensures
            match r {
                Some(p) => {
                    &&& self.spec_name_slot(name@) == Some(p.1.spec_index())
                    &&& self.spec_has(p.1)
                    &&& *p.0 == self.spec_value(p.1.spec_index() as int)
                    &&& self.spec_get(p.1) == Some(*p.0)
                    &&& self.spec_slot_name(p.1.spec_index() as int) == name@
                },
                None => self.spec_name_slot(name@) is None,
            },
    {
        let name_owned: String = name.to_owned();
        match self.name_index.find(&name_owned) {
            Some(index) => {
                let node = &self.nodes[index as usize];
                let v = node.item.as_ref().unwrap();
                Some(
                    (
                        v,
                        ResourceID {
                            index,
                            generation: node.generation,
                            tid: T::tid(),
                            phantom: PhantomData,
                        },
                    ),
                )
            },
            None => None,
        }
    }

    /// Mutably borrow the value a valid handle refers to; nothing but the
    /// borrowed value changes. An unoccupied slot or a stale generation is
    /// a contract violation, reported as `InvalidHandle` with the store
    /// untouched.
    pub fn get_mut(&mut self, item_ref: ResourceID<T>) -> (r: Result<&mut T, StorageError>)
        requires
            old(self).wf(),
        ensures
            match r {
                Ok(m) => {
                    &&& old(self).spec_has(item_ref)
                    &&& *m == old(self).spec_value(item_ref.spec_index() as int)
                    &&& final(self).wf()
                    &&& final(self).spec_capacity() == old(self).spec_capacity()
                    &&& final(self).spec_size() == old(self).spec_size()
                    &&& forall|i: int|
                        final(self).spec_occupied(i) == old(self).spec_occupied(i)
                    &&& forall|i: int|
                        0 <= i < old(self).spec_capacity() ==> final(self).spec_slot_generation(i)
                            == old(self).spec_slot_generation(i) && final(self).spec_slot_name(i)
                            == old(self).spec_slot_name(i)
                    &&& final(self).spec_value(item_ref.spec_index() as int) == *final(m)
                    &&& forall|i: int|
                        0 <= i < old(self).spec_capacity() && i != item_ref.spec_index() && old(
                            self,
                        ).spec_occupied(i) ==> final(self).spec_value(i) == old(self).spec_value(i)
                    &&& forall|n: Seq<char>|
                        final(self).spec_name_slot(n) == old(self).spec_name_slot(n)
                },
                Err(e) => {
                    &&& !old(self).spec_has(item_ref)
                    &&& e == StorageError::InvalidHandle
                    &&& *final(self) == *old(self)
                },
            },
    {
        if !self.has(item_ref) {
            return Err(StorageError::InvalidHandle);
        }
        let idx = item_ref.index as usize;
        let node = &mut self.nodes[idx];
        match node.item.as_mut() {
            Some(m) => Ok(m),
            None => Err(StorageError::InvalidHandle),
        }
    }

    /// Mutably borrow the entry registered under `name`, together with a
    /// handle to it; an unknown name answers `None` and changes nothing.
    pub fn get_mut_by_name(&mut self, name: &str) -> (r: Option<(&mut T, ResourceID<T>)>)
        requires
            old(self).wf(),
        ensures
            match r {
                Some(p) => {
                    &&& old(self).spec_name_slot(name@) == Some(p.1.spec_index())
                    &&& old(self).spec_has(p.1)
                    &&& *p.0 == old(self).spec_value(p.1.spec_index() as int)
                    &&& final(self).wf()
                    &&& final(self).spec_capacity() == old(self).spec_capacity()
                    &&& final(self).spec_size() == old(self).spec_size()
                    &&& forall|i: int|
                        final(self).spec_occupied(i) == old(self).spec_occupied(i)
                    &&& forall|i: int|
                        0 <= i < old(self).spec_capacity() ==> final(self).spec_slot_generation(i)
                            == old(self).spec_slot_generation(i) && final(self).spec_slot_name(i)
                            == old(self).spec_slot_name(i)
                    &&& final(self).spec_value(p.1.spec_index() as int) == *final(p.0)
                    &&& forall|i: int|
                        0 <= i < old(self).spec_capacity() && i != p.1.spec_index() && old(
                            self,
                        ).spec_occupied(i) ==> final(self).spec_value(i) == old(self).spec_value(i)
                    &&& forall|n: Seq<char>|
                        final(self).spec_name_slot(n) == old(self).spec_name_slot(n)
                },
                None => old(self).spec_name_slot(name@) is None && *final(self) == *old(self),
            },
    {
        let name_owned: String = name.to_owned();
        let index: u32 = match self.name_index.find(&name_owned) {
            Some(i) => i,
            None => {
                return None;
            },
        };
        let generation = self.nodes[index as usize].generation;
        let node = &mut self.nodes[index as usize];
        match node.item.as_mut() {
            Some(m) => Some(
                (
                    m,
                    ResourceID { index, generation, tid: T::tid(), phantom: PhantomData },
                ),
            ),
            None => None,
        }
    }

    /// The values of the occupied slots in ascending slot order, up to
    /// slot `n`.
    pub closed spec fn spec_values_upto(&self, n: int) -> Seq<T>
        decreases n,
    {
        if n <= 0 {
            Seq::empty()
        } else {
            self.spec_values_upto(n - 1) + if self.spec_occupied(n - 1) {
                seq![self.spec_value(n - 1)]
            } else {
                Seq::empty()
            }
        }
    }

    /// The values of all occupied slots in ascending slot order.
    pub open spec fn spec_values(&self) -> Seq<T> {
        self.spec_values_upto(self.spec_capacity())
    }

    /// Borrow every live value, in ascending slot order (not insertion
    /// order: slots may have been reused). Single pass, read only.
    pub fn iterate(&self) -> (r: Vec<&T>)
        requires
            self.wf(),
        ensures
            r@.map_values(|v: &T| *v) == self.spec_values(),
    {
        let mut r: Vec<&T> = Vec::new();
        let capacity = self.capacity();
        let mut i: u32 = 0;
        while i < capacity
            invariant
                self.wf(),
                capacity as int == self.spec_capacity(),
                i <= capacity,
                r@.map_values(|v: &T| *v) == self.spec_values_upto(i as int),
            decreases capacity - i,
        {
            let node = &self.nodes[i as usize];
            match node.item.as_ref() {
                Some(v) => {
                    r.push(v);
                },
                None => {},
            }
            proof {
                assert(r@.map_values(|v: &T| *v) =~= self.spec_values_upto(i + 1));
            }
            i = i + 1;
        }
        r
    }

    /// How many of the slots below `n` are free.
    spec fn spec_free_count_upto(&self, n: int) -> int
        decreases n,
    {
        if n <= 0 {
            0
        } else {
            self.spec_free_count_upto(n - 1) + if self.spec_occupied(n - 1) {
                0int
            } else {
                1int
            }
        }
    }

    /// Each slot below `n` shows up either as a value or as a free slot.
    proof fn lemma_values_or_free(&self, n: int)
        requires
            0 <= n <= self.spec_capacity(),
        ensures
            self.spec_values_upto(n).len() + self.spec_free_count_upto(n) == n,
        decreases n,
    {
        if n > 0 {
            self.lemma_values_or_free(n - 1);
        }
    }

    /// The free slots below `n` are exactly the free list's members below
    /// `n`.
    proof fn lemma_free_count_matches_list(&self, n: int)
        requires
            self.wf(),
            0 <= n <= self.spec_capacity(),
        ensures
            self.spec_free_count_upto(n) == self.free_order@.to_set().intersect(
                vstd::set_lib::set_int_range(0, n),
            ).len() as int,
        decreases n,
    {
        broadcast use vstd::set::group_set_axioms;

        let fs = self.free_order@.to_set();
        vstd::set_lib::lemma_int_range(0, n);
        vstd::set_lib::lemma_len_subset(
            fs.intersect(vstd::set_lib::set_int_range(0, n)),
            vstd::set_lib::set_int_range(0, n),
        );
        if n > 0 {
            self.lemma_free_count_matches_list(n - 1);
            let below = fs.intersect(vstd::set_lib::set_int_range(0, n - 1));
            let upto = fs.intersect(vstd::set_lib::set_int_range(0, n));
            vstd::set_lib::lemma_int_range(0, n - 1);
            vstd::set_lib::lemma_len_subset(below, vstd::set_lib::set_int_range(0, n - 1));
            if self.spec_occupied(n - 1) {
                assert(!fs.contains(n - 1));
                assert(upto =~= below);
            } else {
                assert(fs.contains(n - 1));
                assert(upto =~= below.insert(n - 1));
                assert(!below.contains(n - 1));
            }
        } else {
            assert(fs.intersect(vstd::set_lib::set_int_range(0, 0)) =~= Set::empty());
        }
    }

    /// Iteration completeness: walking the store visits exactly `size()`
    /// values — one per occupied slot, none twice, none missed.
    pub proof fn lemma_values_complete(&self)
        requires
            self.wf(),
        ensures
            self.spec_values().len() == self.spec_size(),
    {
        broadcast use vstd::set::group_set_axioms;

        let cap = self.spec_capacity();
        let fl = self.free_order@;
        self.lemma_values_or_free(cap);
        self.lemma_free_count_matches_list(cap);
        assert(fl.no_duplicates()) by {
            assert(forall|k1: int, k2: int|
                0 <= k1 < fl.len() && 0 <= k2 < fl.len() && k1 != k2 ==> fl[k1] != fl[k2]);
        }
        fl.unique_seq_to_set();
        assert(fl.to_set().intersect(vstd::set_lib::set_int_range(0, cap)) =~= fl.to_set());
    }

    /// Invalidation is permanent: a handle to a released slot stays
    /// invalid through the insert that reuses the slot, because the slot's
    /// generation has moved on. `mid` is the store right after the release
    /// (the slot is unoccupied but still carries the stale handle's
    /// generation), `post` the store after any subsequent insert, which
    /// returned `r`; the hypotheses are what [`Storage::insert`] ensures of
    /// that pair of states.
    pub proof fn lemma_released_handle_stays_invalid(
        mid: &Storage<T>,
        post: &Storage<T>,
        h: ResourceID<T>,
        r: ResourceID<T>,
    )
        requires
            !mid.spec_has(h),
            0 <= h.spec_index() < mid.spec_capacity(),
            mid.spec_slot_generation(h.spec_index() as int) == h.spec_generation(),
            r.spec_index() < mid.spec_capacity() ==> r.spec_generation() == next_generation(
                mid.spec_slot_generation(r.spec_index() as int),
            ),
            post.spec_slot_generation(r.spec_index() as int) == r.spec_generation(),
            forall|i: int|
                0 <= i < post.spec_capacity() && i != r.spec_index() ==> post.spec_occupied(i) == (
                i < mid.spec_capacity() && mid.spec_occupied(i)),
            forall|i: int|
                0 <= i < mid.spec_capacity() && i != r.spec_index() ==> post.spec_slot_generation(
                    i,
                ) == mid.spec_slot_generation(i),
        ensures
            !post.spec_has(h),
    {
        if h.spec_index() == r.spec_index() {
            assert(next_generation(h.spec_generation()) != h.spec_generation());
        }
    }

    /// Growth transparency: one doubling per exhaustion event means that
    /// after the N-th exhaustion the capacity is the initial capacity
    /// times 2^N. `caps` is the history of capacities, one entry per
    /// exhaustion, each doubled from the one before, as
    /// [`Storage::insert`] ensures.
    pub proof fn lemma_capacity_after_doublings(caps: Seq<int>)
        requires
            caps.len() >= 1,
            forall|k: int| 0 <= k < caps.len() - 1 ==> #[trigger] caps[k + 1] == 2 * caps[k],
        ensures
            caps.last() == caps[0] * vstd::arithmetic::power2::pow2((caps.len() - 1) as nat),
        decreases caps.len(),
    {
        if caps.len() == 1 {
            assert(vstd::arithmetic::power2::pow2(0) == 1) by {
                vstd::arithmetic::power2::lemma_pow2(0);
                vstd::arithmetic::power::lemma_pow0(2);
            }
            assert((caps.len() - 1) as nat == 0);
            assert(caps[0] * vstd::arithmetic::power2::pow2(0) == caps[0] * 1);
            assert(caps.last() == caps[0]);
        } else {
            let front = caps.drop_last();
            assert(forall|k: int| 0 <= k < front.len() ==> front[k] == caps[k]);
            Self::lemma_capacity_after_doublings(front);
            let n = (caps.len() - 2) as nat;
            vstd::arithmetic::power2::lemma_pow2_unfold((n + 1) as nat);
            assert(caps.last() == 2 * caps[caps.len() - 2]);
            assert(caps[caps.len() - 2] == caps[0] * vstd::arithmetic::power2::pow2(n));
            let c0 = caps[0];
            let p = vstd::arithmetic::power2::pow2(n) as int;
            assert(c0 * (2 * p) == 2 * (c0 * p)) by (nonlinear_arith);
            assert(vstd::arithmetic::power2::pow2((n + 1) as nat) as int == 2 * p);
            assert(caps.last() == 2 * (c0 * p));
            assert(caps.last() == c0 * (2 * p));
            assert((caps.len() - 1) as nat == (n + 1) as nat);
            assert(caps.last() == caps[0] * vstd::arithmetic::power2::pow2(
                (caps.len() - 1) as nat,
            ));
        }
    }
}

} // verus!

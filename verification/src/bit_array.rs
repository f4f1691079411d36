//! A fixed-width bit set recording which component families an entity owns.

use vstd::prelude::*;

verus! {

/// Spec-level view of bit `index` of `value`.
pub open spec fn u64_bit(value: u64, index: u64) -> bool {
    (value >> index) & 1 == 1
}

/// A bit set addressed by bit position.
pub trait BitArray {
    /// How many bit positions the implementation carries.
    spec fn spec_width(&self) -> nat;

    /// Spec-level view of one bit.
    spec fn spec_bit(&self, index: int) -> bool;

    fn set_true(&mut self, index: usize)
        requires
            index < old(self).spec_width(),
        ensures
            final(self).spec_width() == old(self).spec_width(),
            final(self).spec_bit(index as int),
            forall|j: int|
                0 <= j < old(self).spec_width() && j != index ==> final(self).spec_bit(j)
                    == old(self).spec_bit(j),
    ;

    fn set_false(&mut self, index: usize)
        requires
            index < old(self).spec_width(),
        ensures
            final(self).spec_width() == old(self).spec_width(),
            !final(self).spec_bit(index as int),
            forall|j: int|
                0 <= j < old(self).spec_width() && j != index ==> final(self).spec_bit(j)
                    == old(self).spec_bit(j),
    ;

    fn get(&self, index: usize) -> (r: bool)
        requires
            index < self.spec_width(),
        ensures
            r == self.spec_bit(index as int),
    ;
}

/// A 64-bit wide bit set.
#[derive(Clone, Copy)]
pub struct BitArray64 {
    value: u64,
}

impl BitArray64 {
    pub fn new() -> (r: Self)
        ensures
            r.spec_width() == 64,
            forall|j: int| 0 <= j < 64 ==> !r.spec_bit(j),
    {
        let r = BitArray64 { value: 0 };
        proof {
            assert forall|j: int| 0 <= j < 64 implies !r.spec_bit(j) by {
                let ju = j as u64;
                assert((0u64 >> ju) & 1 == 0) by (bit_vector);
            }
        }
        r
    }

    /// A cursor over the set bit positions, starting at position 0.
    pub fn iter(&self) -> (r: BitArray64Iter<'_>)
        ensures
            r.spec_pos() == 0,
            r.spec_source() == *self,
    {
        BitArray64Iter { count: 0, value: self }
    }
}

impl BitArray for BitArray64 {
    open spec fn spec_width(&self) -> nat {
        64
    }

    closed spec fn spec_bit(&self, index: int) -> bool {
        u64_bit(self.value, index as u64)
    }

    fn set_true(&mut self, index: usize) {
        let i = index as u64;
        let v = self.value;
        self.value = self.value | (1u64 << i);
        proof {
            assert((v | (1u64 << i)) >> i & 1 == 1) by (bit_vector)
                requires
                    i < 64,
            ;
            assert forall|j: int| 0 <= j < 64 && j != index implies self.spec_bit(j) == old(
                self,
            ).spec_bit(j) by {
                let ju = j as u64;
                assert((v | (1u64 << i)) >> ju & 1 == v >> ju & 1) by (bit_vector)
                    requires
                        i < 64 && ju < 64 && i != ju,
                ;
            }
        }
    }

    fn set_false(&mut self, index: usize) {
        let i = index as u64;
        let v = self.value;
        self.value = self.value & !(1u64 << i);
        proof {
            assert((v & !(1u64 << i)) >> i & 1 == 0) by (bit_vector)
                requires
                    i < 64,
            ;
            assert forall|j: int| 0 <= j < 64 && j != index implies self.spec_bit(j) == old(
                self,
            ).spec_bit(j) by {
                let ju = j as u64;
                assert((v & !(1u64 << i)) >> ju & 1 == v >> ju & 1) by (bit_vector)
                    requires
                        i < 64 && ju < 64 && i != ju,
                ;
            }
        }
    }

    fn get(&self, index: usize) -> (r: bool) {
        let i = index as u64;
        (self.value >> i) & 1 == 1
    }
}

/// Yields the positions of the set bits of a [`BitArray64`] in increasing
/// order.
pub struct BitArray64Iter<'a> {
    count: usize,
    value: &'a BitArray64,
}

impl<'a> BitArray64Iter<'a> {
    pub closed spec fn spec_pos(&self) -> int {
        self.count as int
    }

    pub closed spec fn spec_source(&self) -> BitArray64 {
        *self.value
    }

    /// The next set bit position at or past the cursor, if any.
    pub fn next(&mut self) -> (r: Option<usize>)
        requires
            old(self).spec_pos() <= 64,
        ensures
            final(self).spec_source() == old(self).spec_source(),
            match r {
                Some(i) => {
                    &&& old(self).spec_pos() <= i < 64
                    &&& old(self).spec_source().spec_bit(i as int)
                    &&& forall|j: int|
                        old(self).spec_pos() <= j < i ==> !old(self).spec_source().spec_bit(j)
                    &&& final(self).spec_pos() == i + 1
                },
                None => {
                    &&& forall|j: int|
                        old(self).spec_pos() <= j < 64 ==> !old(self).spec_source().spec_bit(j)
                    &&& final(self).spec_pos() == 64
                },
            },
    {
        while self.count < 64
            invariant
                old(self).spec_pos() <= self.count <= 64,
                self.value == old(self).value,
                forall|j: int|
                    old(self).spec_pos() <= j < self.count ==> !old(self).spec_source().spec_bit(
                        j,
                    ),
            decreases 64 - self.count,
        {
            let i = self.count;
            self.count = i + 1;
            if self.value.get(i) {
                return Some(i);
            }
        }
        None
    }
}

} // verus!

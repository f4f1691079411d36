//! The name index of a store: a bucketed map from human-readable names to
//! slot indices, so that lookup by name costs O(1) on average.
//!
//! A name hashes over its UTF-8 bytes into one of a fixed number of
//! buckets; each bucket is a short association list with pairwise-distinct
//! keys. Since equal names always hash alike, the buckets partition the
//! entries and a lookup touches exactly one bucket.

use vstd::prelude::*;

use vstd::string::StringSliceAdditionalSpecFns;
use vstd::utf8::encode_utf8;

verus! {

/// How many buckets the index spreads its entries over.
pub const NUM_BUCKETS: usize = 1024;

/// The running hash after folding in the bytes `bs`, kept below 2^32.
pub open spec fn hash_bytes(bs: Seq<u8>) -> u64
    decreases bs.len(),
{
    if bs.len() == 0 {
        0
    } else {
        ((hash_bytes(bs.drop_last()) * 31 + bs.last()) % 0x1_0000_0000) as u64
    }
}

/// The bucket that entries for name `n` live in.
pub open spec fn bucket_of(n: Seq<char>) -> int {
    (hash_bytes(encode_utf8(n)) % (NUM_BUCKETS as u64)) as int
}

/// The slot registered under name `n` in one bucket, if any: the first
/// entry whose key reads `n`.
pub open spec fn assoc_find(entries: Seq<(String, u32)>, n: Seq<char>) -> Option<u32>
    decreases entries.len(),
{
    if entries.len() == 0 {
        None
    } else if entries[0].0@ == n {
        Some(entries[0].1)
    } else {
        assoc_find(entries.drop_first(), n)
    }
}

/// No two entries of a bucket share a key.
pub open spec fn distinct_keys(entries: Seq<(String, u32)>) -> bool {
    forall|k1: int, k2: int|
        0 <= k1 < k2 < entries.len() ==> entries[k1].0@ != entries[k2].0@
}

/// An entry whose key reads `n` settles the lookup.
proof fn lemma_find_at(entries: Seq<(String, u32)>, n: Seq<char>, k: int)
    requires
        distinct_keys(entries),
        0 <= k < entries.len(),
        entries[k].0@ == n,
    ensures
        assoc_find(entries, n) == Some(entries[k].1),
    decreases entries.len(),
{
    if k > 0 {
        assert(entries[0].0@ != n);
        assert(distinct_keys(entries.drop_first())) by {
            assert(forall|k1: int, k2: int|
                0 <= k1 < k2 < entries.drop_first().len() ==> entries.drop_first()[k1]
                    == entries[k1 + 1] && entries.drop_first()[k2] == entries[k2 + 1]);
        }
        lemma_find_at(entries.drop_first(), n, k - 1);
    }
}

/// Without an entry whose key reads `n`, the lookup misses.
proof fn lemma_find_absent(entries: Seq<(String, u32)>, n: Seq<char>)
    requires
        forall|k: int| 0 <= k < entries.len() ==> entries[k].0@ != n,
    ensures
        assoc_find(entries, n) is None,
    decreases entries.len(),
{
    if entries.len() > 0 {
        assert(forall|k: int|
            0 <= k < entries.drop_first().len() ==> entries.drop_first()[k] == entries[k + 1]);
        lemma_find_absent(entries.drop_first(), n);
    }
}

/// How appending an entry with a fresh key changes every lookup in its
/// bucket.
proof fn lemma_find_push(entries: Seq<(String, u32)>, e: (String, u32), n: Seq<char>)
    requires
        distinct_keys(entries),
        forall|k: int| 0 <= k < entries.len() ==> entries[k].0@ != e.0@,
    ensures
        assoc_find(entries.push(e), n) == if n == e.0@ {
            Some(e.1)
        } else {
            assoc_find(entries, n)
        },
    decreases entries.len(),
{
    if entries.len() == 0 {
        assert(entries.push(e)[0] == e);
        assert(entries.push(e).len() == 1);
        if n != e.0@ {
            assert(assoc_find(entries.push(e).drop_first(), n) is None);
        }
    } else {
        assert(entries.push(e)[0] == entries[0]);
        if entries[0].0@ != n {
            assert(entries.push(e).drop_first() =~= entries.drop_first().push(e));
            assert(forall|k: int|
                0 <= k < entries.drop_first().len() ==> entries.drop_first()[k] == entries[k + 1]);
            assert(distinct_keys(entries.drop_first()));
            lemma_find_push(entries.drop_first(), e, n);
        }
    }
}

/// How replacing the value of the entry at position `k` (key unchanged)
/// changes every lookup in its bucket.
proof fn lemma_find_update(entries: Seq<(String, u32)>, k: int, e: (String, u32), n: Seq<char>)
    requires
        distinct_keys(entries),
        0 <= k < entries.len(),
        e.0@ == entries[k].0@,
    ensures
        assoc_find(entries.update(k, e), n) == if n == e.0@ {
            Some(e.1)
        } else {
            assoc_find(entries, n)
        },
    decreases entries.len(),
{
    let updated = entries.update(k, e);
    if k == 0 {
        assert(updated[0] == e);
        if n != e.0@ {
            assert(updated.drop_first() =~= entries.drop_first());
        } else {
            assert(assoc_find(updated, n) == Some(e.1));
        }
    } else {
        assert(updated[0] == entries[0]);
        assert(entries[0].0@ != e.0@);
        assert(forall|j: int|
            0 <= j < entries.drop_first().len() ==> entries.drop_first()[j] == entries[j + 1]);
        assert(distinct_keys(entries.drop_first()));
        assert(updated.drop_first() =~= entries.drop_first().update(k - 1, e));
        lemma_find_update(entries.drop_first(), k - 1, e, n);
    }
}

/// How removing the entry at position `k` changes every lookup in its
/// bucket.
proof fn lemma_find_remove(entries: Seq<(String, u32)>, k: int, n: Seq<char>)
    requires
        distinct_keys(entries),
        0 <= k < entries.len(),
    ensures
        assoc_find(entries.remove(k), n) == if n == entries[k].0@ {
            None::<u32>
        } else {
            assoc_find(entries, n)
        },
    decreases entries.len(),
{
    let removed = entries.remove(k);
    if k == 0 {
        assert(removed =~= entries.drop_first());
        if n == entries[0].0@ {
            assert(forall|j: int| 0 <= j < removed.len() ==> removed[j] == entries[j + 1]);
            lemma_find_absent(removed, n);
        }
    } else {
        assert(removed[0] == entries[0]);
        assert(forall|j: int|
            0 <= j < entries.drop_first().len() ==> entries.drop_first()[j] == entries[j + 1]);
        assert(distinct_keys(entries.drop_first()));
        assert(removed.drop_first() =~= entries.drop_first().remove(k - 1));
        lemma_find_remove(entries.drop_first(), k - 1, n);
        if entries[0].0@ == n {
            lemma_find_at(entries, n, 0);
        }
    }
}

/// The bucket a name belongs in, computed over the name's UTF-8 bytes.
fn bucket_index(name: &String) -> (r: usize)
    ensures
        r as int == bucket_of(name@),
{
    let bs = name.as_str().as_bytes();
    let n = bs.len();
    let mut h: u64 = 0;
    let mut i: usize = 0;
    while i < n
        invariant
            n == bs@.len(),
            i <= n,
            bs@ == encode_utf8(name@),
            h == hash_bytes(bs@.subrange(0, i as int)),
            h < 0x1_0000_0000,
        decreases n - i,
    {
        let b = bs[i];
        h = (h * 31 + b as u64) % 0x1_0000_0000;
        proof {
            assert(bs@.subrange(0, i + 1).drop_last() =~= bs@.subrange(0, i as int));
            assert(bs@.subrange(0, i + 1).last() == bs@[i as int]);
        }
        i = i + 1;
    }
    proof {
        assert(bs@.subrange(0, n as int) =~= bs@);
    }
    (h % (NUM_BUCKETS as u64)) as usize
}

/// The position of the entry registered under `name` in one bucket, if
/// any.
fn find_position(entries: &Vec<(String, u32)>, name: &String) -> (r: Option<usize>)
    ensures
        match r {
            Some(k) => k < entries@.len() && entries@[k as int].0@ == name@,
            None => forall|k: int| 0 <= k < entries@.len() ==> entries@[k].0@ != name@,
        },
{
    let n = entries.len();
    let mut k: usize = 0;
    while k < n
        invariant
            n == entries@.len(),
            k <= n,
            forall|j: int| 0 <= j < k ==> entries@[j].0@ != name@,
        decreases n - k,
    {
        if entries[k].0 == *name {
            return Some(k);
        }
        k = k + 1;
    }
    None
}

/// The name index: a map from names to slot indices.
pub struct NameIndex {
    buckets: Vec<Vec<(String, u32)>>,
}

impl NameIndex {
    /// The slot registered under name `n`, if any.
    pub closed spec fn spec_find(&self, n: Seq<char>) -> Option<u32> {
        assoc_find(self.buckets@[bucket_of(n)]@, n)
    }

    /// Well-formedness: the bucket count is fixed, every entry sits in
    /// its name's bucket, and no two entries share a name.
    pub closed spec fn wf(&self) -> bool {
        &&& self.buckets@.len() == NUM_BUCKETS
        &&& (forall|b: int, k: int|
            0 <= b < NUM_BUCKETS && 0 <= k < self.buckets@[b]@.len() ==> bucket_of(
                (#[trigger] self.buckets@[b]@[k]).0@,
            ) == b)
        &&& (forall|b: int| 0 <= b < NUM_BUCKETS ==> distinct_keys(#[trigger] self.buckets@[b]@))
    }

    /// An empty index: every lookup misses.
    pub fn new() -> (r: NameIndex)
        ensures
            r.wf(),
            forall|n: Seq<char>| r.spec_find(n) is None,
    {
        let mut buckets: Vec<Vec<(String, u32)>> = Vec::with_capacity(NUM_BUCKETS);
        let mut i: usize = 0;
        while i < NUM_BUCKETS
            invariant
                i <= NUM_BUCKETS,
                buckets@.len() == i as int,
                forall|b: int| 0 <= b < i ==> (#[trigger] buckets@[b])@.len() == 0,
            decreases NUM_BUCKETS - i,
        {
            buckets.push(Vec::new());
            i = i + 1;
        }
        NameIndex { buckets }
    }

    /// The slot registered under `name`, if any.
    pub fn find(&self, name: &String) -> (r: Option<u32>)
        requires
            self.wf(),
        ensures
            r == self.spec_find(name@),
    {
        let b = bucket_index(name);
        let bucket = &self.buckets[b];
        match find_position(bucket, name) {
            Some(k) => {
                proof {
                    lemma_find_at(bucket@, name@, k as int);
                }
                Some(bucket[k].1)
            },
            None => {
                proof {
                    lemma_find_absent(bucket@, name@);
                }
                None
            },
        }
    }

    /// Register `name` as pointing at `slot`, silently overwriting any
    /// prior owner of that name.
    pub fn set(&mut self, name: String, slot: u32)
        requires
            old(self).wf(),
        ensures
            final(self).wf(),
            forall|n: Seq<char>|
                final(self).spec_find(n) == (if n == name@ {
                    Some(slot)
                } else {
                    old(self).spec_find(n)
                }),
    {
        let b = bucket_index(&name);
        let ghost before = self.buckets@[b as int]@;
        let bucket = &mut self.buckets[b];
        match find_position(bucket, &name) {
            Some(k) => {
                proof {
                    lemma_find_at(before, name@, k as int);
                }
                bucket[k] = (name, slot);
                proof {
                    let after = self.buckets@[b as int]@;
                    assert(after == before.update(k as int, after[k as int]));
                    assert forall|n: Seq<char>|
                        self.spec_find(n) == (if n == after[k as int].0@ {
                            Some(slot)
                        } else {
                            old(self).spec_find(n)
                        }) by {
                        if bucket_of(n) == b {
                            lemma_find_update(before, k as int, after[k as int], n);
                        } else {
                            assert(self.buckets@[bucket_of(n)] == old(self).buckets@[bucket_of(
                                n,
                            )]);
                        }
                    }
                }
            },
            None => {
                bucket.push((name, slot));
                proof {
                    let after = self.buckets@[b as int]@;
                    assert(after == before.push(after.last()));
                    assert forall|n: Seq<char>|
                        self.spec_find(n) == (if n == after.last().0@ {
                            Some(slot)
                        } else {
                            old(self).spec_find(n)
                        }) by {
                        if bucket_of(n) == b {
                            lemma_find_push(before, after.last(), n);
                        } else {
                            assert(self.buckets@[bucket_of(n)] == old(self).buckets@[bucket_of(
                                n,
                            )]);
                        }
                    }
                    assert forall|bb: int, k: int|
                        0 <= bb < NUM_BUCKETS && 0 <= k < self.buckets@[bb]@.len() implies
                        bucket_of((#[trigger] self.buckets@[bb]@[k]).0@) == bb by {
                        if bb != b {
                            assert(self.buckets@[bb] == old(self).buckets@[bb]);
                        } else {
                            if k < before.len() {
                                assert(self.buckets@[bb]@[k] == before[k]);
                            }
                        }
                    }
                }
            },
        }
    }

    /// Unregister `name`, answering the slot it pointed at; an unknown
    /// name answers `None` and changes nothing.
    pub fn remove(&mut self, name: &String) -> (r: Option<u32>)
        requires
            old(self).wf(),
        ensures
            final(self).wf(),
            r == old(self).spec_find(name@),
            forall|n: Seq<char>|
                final(self).spec_find(n) == (if n == name@ {
                    None::<u32>
                } else {
                    old(self).spec_find(n)
                }),
    {
        let b = bucket_index(name);
        let ghost before = self.buckets@[b as int]@;
        let bucket = &mut self.buckets[b];
        match find_position(bucket, name) {
            Some(k) => {
                proof {
                    lemma_find_at(before, name@, k as int);
                }
                let slot = bucket[k].1;
                bucket.remove(k);
                proof {
                    let after = self.buckets@[b as int]@;
                    assert(after == before.remove(k as int));
                    assert forall|n: Seq<char>|
                        self.spec_find(n) == (if n == name@ {
                            None::<u32>
                        } else {
                            old(self).spec_find(n)
                        }) by {
                        if bucket_of(n) == b {
                            lemma_find_remove(before, k as int, n);
                            if n != name@ && n == before[k as int].0@ {
                                assert(false);
                            }
                        } else {
                            assert(self.buckets@[bucket_of(n)] == old(self).buckets@[bucket_of(
                                n,
                            )]);
                            assert(n != name@);
                        }
                    }
                    assert forall|bb: int, k2: int|
                        0 <= bb < NUM_BUCKETS && 0 <= k2 < self.buckets@[bb]@.len() implies
                        bucket_of((#[trigger] self.buckets@[bb]@[k2]).0@) == bb by {
                        if bb != b {
                            assert(self.buckets@[bb] == old(self).buckets@[bb]);
                        } else {
                            assert(self.buckets@[bb]@[k2] == if k2 < k as int {
                                before[k2]
                            } else {
                                before[k2 + 1]
                            });
                        }
                    }
                    assert forall|bb: int|
                        0 <= bb < NUM_BUCKETS implies distinct_keys(
                        #[trigger] self.buckets@[bb]@,
                    ) by {
                        if bb != b {
                            assert(self.buckets@[bb] == old(self).buckets@[bb]);
                        } else {
                            let after2 = self.buckets@[bb]@;
                            assert forall|k1: int, k2: int|
                                0 <= k1 < k2 < after2.len() implies after2[k1].0@ != after2[k2].0@
                            by {
                                let j1: int = if k1 < k as int {
                                    k1
                                } else {
                                    k1 + 1
                                };
                                let j2: int = if k2 < k as int {
                                    k2
                                } else {
                                    k2 + 1
                                };
                                assert(after2[k1] == before[j1]);
                                assert(after2[k2] == before[j2]);
                            }
                        }
                    }
                }
                Some(slot)
            },
            None => {
                proof {
                    lemma_find_absent(before, name@);
                    assert forall|n: Seq<char>|
                        self.spec_find(n) == (if n == name@ {
                            None::<u32>
                        } else {
                            old(self).spec_find(n)
                        }) by {
                        if n == name@ {
                            assert(self.spec_find(n) is None);
                        }
                    }
                }
                None
            },
        }
    }
}

} // verus!

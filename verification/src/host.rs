//! The host storage primitive: one sparse, key-addressed byte store with
//! metering counters.
//!
//! This is the storage space the sandboxed execution host exposes to one
//! contract account. Every slot either holds a byte sequence or is absent,
//! and every read and every write or clear bumps the matching counter, so
//! the exact host traffic of the typed layers above can be stated in their
//! contracts and observed by tests.

use vstd::prelude::*;
use crate::key::Key;

verus! {

/// Returns a vector holding the same bytes as `v`.
pub fn dup_bytes(v: &Vec<u8>) -> (r: Vec<u8>)
    ensures
        r@ == v@,
{
    let r = v.clone();
    proof {
        assert(r@ =~= v@);
    }
    r
}

pub(crate) open spec fn slots_has(s: Seq<(Key, Vec<u8>)>, k: Key) -> bool {
    exists|i: int| 0 <= i < s.len() && s[i].0 == k
}

pub(crate) open spec fn slots_at(s: Seq<(Key, Vec<u8>)>, k: Key) -> Seq<u8> {
    s[choose|i: int| 0 <= i < s.len() && s[i].0 == k].1@
}

/// The key-addressed byte store of one contract account, with its
/// read and write meters.
#[derive(Debug)]
pub struct Host {
    slots: Vec<(Key, Vec<u8>)>,
    reads: u64,
    writes: u64,
}

impl Host {
    /// Each key occupies at most one slot entry.
    pub closed spec fn wf(self) -> bool {
        forall|i: int, j: int|
            0 <= i < j < self.slots@.len() ==> self.slots@[i].0 != self.slots@[j].0
    }

    /// What the store holds: the bytes under each occupied key.
    pub closed spec fn contents(self) -> Map<Key, Seq<u8>> {
        Map::new(|k: Key| slots_has(self.slots@, k), |k: Key| slots_at(self.slots@, k))
    }

    /// How many reads the host has performed.
    pub closed spec fn reads(self) -> u64 {
        self.reads
    }

    /// How many writes and clears the host has performed.
    pub closed spec fn writes(self) -> u64 {
        self.writes
    }

    /// A fresh host: no occupied slot, both meters at zero.
    pub fn new() -> (r: Host)
        ensures
            r.wf(),
            r.contents() == Map::<Key, Seq<u8>>::empty(),
            r.reads() == 0,
            r.writes() == 0,
    {
        let r = Host { slots: Vec::new(), reads: 0, writes: 0 };
        proof {
            assert(r.contents() =~= Map::<Key, Seq<u8>>::empty());
        }
        r
    }

    /// The read meter.
    pub fn total_reads(&self) -> (r: u64)
        ensures
            r == self.reads(),
    {
        self.reads
    }

    /// The write meter.
    pub fn total_writes(&self) -> (r: u64)
        ensures
            r == self.writes(),
    {
        self.writes
    }

    fn find(&self, key: &Key) -> (r: Option<usize>)
        requires
            self.wf(),
        ensures
            match r {
                Some(i) => i < self.slots@.len() && self.slots@[i as int].0 == *key
                    && self.contents().contains_key(*key)
                    && self.contents()[*key] == self.slots@[i as int].1@,
                None => !self.contents().contains_key(*key),
            },
    {
        let n = self.slots.len();
        let mut i: usize = 0;
        while i < n
            invariant
                n == self.slots@.len(),
                i <= n,
                self.wf(),
                forall|j: int| 0 <= j < i ==> self.slots@[j].0 != *key,
            decreases n - i,
        {
            if self.slots[i].0 == *key {
                proof {
                    let w = choose|w: int| 0 <= w < self.slots@.len()
                        && self.slots@[w].0 == *key;
                    assert(w == i);
                }
                return Some(i);
            }
            i += 1;
        }
        None
    }

    /// Reads the slot under `key`, bumping the read meter.
    pub fn read(&mut self, key: &Key) -> (r: Option<Vec<u8>>)
        requires
            old(self).wf(),
            old(self).reads() < u64::MAX,
        ensures
            final(self).wf(),
            final(self).contents() == old(self).contents(),
            final(self).reads() == old(self).reads() + 1,
            final(self).writes() == old(self).writes(),
            match r {
                Some(v) => old(self).contents().contains_key(*key)
                    && v@ == old(self).contents()[*key],
                None => !old(self).contents().contains_key(*key),
            },
    {
        self.reads = self.reads + 1;
        match self.find(key) {
            Some(i) => Some(dup_bytes(&self.slots[i].1)),
            None => None,
        }
    }

    /// Writes `value` to the slot under `key`, bumping the write meter.
    pub fn write(&mut self, key: &Key, value: Vec<u8>) -> (r: ())
        requires
            old(self).wf(),
            old(self).writes() < u64::MAX,
        ensures
            final(self).wf(),
            final(self).contents() == old(self).contents().insert(*key, value@),
            final(self).reads() == old(self).reads(),
            final(self).writes() == old(self).writes() + 1,
    {
        self.writes = self.writes + 1;
        let ghost pre = self.slots@;
        match self.find(key) {
            Some(i) => {
                self.slots[i] = (*key, value);
                proof {
                    assert forall|k: Key| slots_has(self.slots@, k)
                        <==> slots_has(pre, k) || k == *key by {
                        if slots_has(pre, k) {
                            let w = choose|w: int| 0 <= w < pre.len() && pre[w].0 == k;
                            assert(self.slots@[w].0 == k || w == i);
                        }
                        if slots_has(self.slots@, k) && k != *key {
                            let w = choose|w: int| 0 <= w < self.slots@.len()
                                && self.slots@[w].0 == k;
                            assert(pre[w].0 == k);
                        }
                    }
                    assert(self.contents() =~= old(self).contents().insert(*key, value@));
                }
            }
            None => {
                self.slots.push((*key, value));
                proof {
                    assert forall|k: Key| slots_has(self.slots@, k)
                        <==> slots_has(pre, k) || k == *key by {
                        assert(self.slots@[pre.len() as int].0 == *key);
                        if slots_has(pre, k) {
                            let w = choose|w: int| 0 <= w < pre.len() && pre[w].0 == k;
                            assert(self.slots@[w].0 == k);
                        }
                        if slots_has(self.slots@, k) && k != *key {
                            let w = choose|w: int| 0 <= w < self.slots@.len()
                                && self.slots@[w].0 == k;
                            assert(pre[w].0 == k);
                        }
                    }
                    assert(self.contents() =~= old(self).contents().insert(*key, value@));
                }
            }
        }
    }

    /// Empties the slot under `key`, bumping the write meter.
    pub fn clear(&mut self, key: &Key) -> (r: ())
        requires
            old(self).wf(),
            old(self).writes() < u64::MAX,
        ensures
            final(self).wf(),
            final(self).contents() == old(self).contents().remove(*key),
            final(self).reads() == old(self).reads(),
            final(self).writes() == old(self).writes() + 1,
    {
        self.writes = self.writes + 1;
        let ghost pre = self.slots@;
        match self.find(key) {
            Some(i) => {
                self.slots.swap_remove(i);
                proof {
                    let post = self.slots@;
                    assert forall|k: Key| slots_has(post, k)
                        <==> (slots_has(pre, k) && k != *key) by {
                        if slots_has(post, k) {
                            let w = choose|w: int| 0 <= w < post.len() && post[w].0 == k;
                            if w == i {
                                assert(pre[pre.len() - 1].0 == k);
                            } else {
                                assert(pre[w].0 == k);
                            }
                        }
                        if slots_has(pre, k) && k != *key {
                            let w = choose|w: int| 0 <= w < pre.len() && pre[w].0 == k;
                            if w < post.len() {
                                if w == i {
                                    assert(post[i as int] == pre[pre.len() - 1]);
                                    assert(false);
                                } else {
                                    assert(post[w].0 == k);
                                }
                            } else {
                                assert(w == pre.len() - 1);
                                if i < post.len() {
                                    assert(post[i as int].0 == k);
                                } else {
                                    assert(i == w);
                                    assert(false);
                                }
                            }
                        }
                    }
                    assert forall|k: Key| #[trigger] slots_has(post, k)
                        implies slots_at(post, k) == slots_at(pre, k) by {
                        let w = choose|w: int| 0 <= w < post.len() && post[w].0 == k;
                        let w2 = choose|w2: int| 0 <= w2 < pre.len() && pre[w2].0 == k;
                        if w == i {
                            assert(pre[pre.len() - 1].0 == k);
                            assert(w2 == pre.len() - 1);
                        } else {
                            assert(pre[w].0 == k);
                            assert(w2 == w);
                        }
                    }
                    assert(self.contents() =~= old(self).contents().remove(*key));
                }
            }
            None => {
                proof {
                    assert(self.contents() =~= old(self).contents().remove(*key));
                }
            }
        }
    }
}

} // verus!

//! The write-back cache's entry store: one tri-state, dirty-tracked record
//! per accessed chunk index.
//!
//! An index the cache has never seen has no entry at all ("untouched"); once
//! an entry exists it asserts either a present value or explicit absence,
//! together with whether that assertion still has to be written back.

use vstd::prelude::*;
use vstd::pervasive::VecAdditionalExecFns;

verus! {

/// One cached record: what the cache believes the slot holds (`Some` value
/// or explicitly absent), and whether the host has seen that belief yet.
///
/// Dirtiness is attached to the entry, not inferred from the value: setting
/// an equal value again still leaves the entry dirty.
#[derive(Debug)]
pub struct CacheEntry<T> {
    /// The cached slot content: a decoded value, or `None` for a slot the
    /// cache asserts to be empty.
    pub value: Option<T>,
    /// Whether this belief has yet to be flushed to the host.
    pub dirty: bool,
}

/// The sparse index-to-entry map of one caching chunk.
pub struct Cache<T> {
    entries: Vec<(u32, CacheEntry<T>)>,
}

pub(crate) open spec fn entries_has<T>(s: Seq<(u32, CacheEntry<T>)>, n: u32) -> bool {
    exists|i: int| 0 <= i < s.len() && s[i].0 == n
}

pub(crate) open spec fn entries_at<T>(s: Seq<(u32, CacheEntry<T>)>, n: u32) -> CacheEntry<T> {
    s[choose|i: int| 0 <= i < s.len() && s[i].0 == n].1
}

/// Each index occupies at most one position of the entry list.
pub(crate) open spec fn entries_wf<T>(s: Seq<(u32, CacheEntry<T>)>) -> bool {
    forall|i: int, j: int| 0 <= i < j < s.len() ==> s[i].0 != s[j].0
}

/// The entry list read as a map from index to entry.
pub(crate) open spec fn entries_view<T>(s: Seq<(u32, CacheEntry<T>)>) -> Map<u32, CacheEntry<T>> {
    Map::new(|n: u32| entries_has(s, n), |n: u32| entries_at(s, n))
}

/// Replacing the entry at one position of the list, keeping its index,
/// updates the map view at just that index.
pub(crate) proof fn lemma_entries_update_view<T>(
    pre: Seq<(u32, CacheEntry<T>)>,
    i: int,
    e: CacheEntry<T>,
)
    requires
        0 <= i < pre.len(),
        entries_wf(pre),
    ensures
        entries_wf(pre.update(i, (pre[i].0, e))),
        entries_view(pre.update(i, (pre[i].0, e))) == entries_view(pre).insert(pre[i].0, e),
{
    let post = pre.update(i, (pre[i].0, e));
    let n0 = pre[i].0;
    assert(forall|j: int| 0 <= j < pre.len() ==> post[j].0 == pre[j].0);
    assert forall|k: u32| entries_has(post, k) <==> entries_has(pre, k) by {
        if entries_has(pre, k) {
            let w = choose|w: int| 0 <= w < pre.len() && pre[w].0 == k;
            assert(post[w].0 == k);
        }
        if entries_has(post, k) {
            let w = choose|w: int| 0 <= w < post.len() && post[w].0 == k;
            assert(pre[w].0 == k);
        }
    }
    assert forall|k: u32| #[trigger] entries_has(post, k) && k != n0
        implies entries_at(post, k) == entries_at(pre, k) by {
        let w1 = choose|w1: int| 0 <= w1 < post.len() && post[w1].0 == k;
        let w2 = choose|w2: int| 0 <= w2 < pre.len() && pre[w2].0 == k;
        assert(pre[w1].0 == k);
        assert(w1 == w2);
    }
    assert(entries_at(post, n0) == e) by {
        assert(post[i].0 == n0);
        let w = choose|w: int| 0 <= w < post.len() && post[w].0 == n0;
        assert(pre[w].0 == n0);
        assert(w == i);
    }
    assert(entries_view(post) =~= entries_view(pre).insert(n0, e));
}

/// Appending an entry for a fresh index extends the map view at just that
/// index.
pub(crate) proof fn lemma_entries_push_view<T>(
    pre: Seq<(u32, CacheEntry<T>)>,
    n: u32,
    e: CacheEntry<T>,
)
    requires
        entries_wf(pre),
        !entries_has(pre, n),
    ensures
        entries_wf(pre.push((n, e))),
        entries_view(pre.push((n, e))) == entries_view(pre).insert(n, e),
{
    let post = pre.push((n, e));
    assert forall|k: u32| entries_has(post, k) <==> entries_has(pre, k) || k == n by {
        assert(post[pre.len() as int].0 == n);
        if entries_has(pre, k) {
            let w = choose|w: int| 0 <= w < pre.len() && pre[w].0 == k;
            assert(post[w].0 == k);
        }
        if entries_has(post, k) && k != n {
            let w = choose|w: int| 0 <= w < post.len() && post[w].0 == k;
            assert(pre[w].0 == k);
        }
    }
    assert forall|k: u32| #[trigger] entries_has(pre, k)
        implies entries_at(post, k) == entries_at(pre, k) by {
        let w = choose|w: int| 0 <= w < pre.len() && pre[w].0 == k;
        assert(post[w].0 == k);
        let w1 = choose|w1: int| 0 <= w1 < post.len() && post[w1].0 == k;
        let w2 = choose|w2: int| 0 <= w2 < pre.len() && pre[w2].0 == k;
        assert(post[w1] == pre[w1]);
    }
    assert(entries_at(post, n) == e) by {
        let w = choose|w: int| 0 <= w < post.len() && post[w].0 == n;
        assert(post[pre.len() as int].0 == n);
        assert(w == pre.len());
    }
    assert(entries_view(post) =~= entries_view(pre).insert(n, e));
}

/// Under `entries_wf`, the list and its map view correspond position by
/// position, and the view's domain is finite.
pub(crate) proof fn lemma_entries_seq_view<T>(s: Seq<(u32, CacheEntry<T>)>)
    requires
        entries_wf(s),
    ensures
        forall|i: int| 0 <= i < s.len()
            ==> entries_view(s).contains_key(#[trigger] s[i].0)
                && entries_view(s)[s[i].0] == s[i].1,
        forall|n: u32| entries_view(s).contains_key(n)
            ==> exists|i: int| 0 <= i < s.len() && s[i].0 == n,
        entries_view(s).dom().finite(),
{
    assert forall|i: int| 0 <= i < s.len()
        implies entries_view(s).contains_key(#[trigger] s[i].0)
            && entries_view(s)[s[i].0] == s[i].1 by {
        let n = s[i].0;
        let w = choose|w: int| 0 <= w < s.len() && s[w].0 == n;
        assert(w == i);
    }
    let key_of = |i: int| s[i].0;
    let index_set = vstd::set_lib::set_int_range(0, s.len() as int);
    vstd::set_lib::lemma_int_range(0, s.len() as int);
    assert(entries_view(s).dom() =~= index_set.map(key_of)) by {
        assert forall|n: u32| entries_view(s).dom().contains(n)
            implies index_set.map(key_of).contains(n) by {
            let w = choose|w: int| 0 <= w < s.len() && s[w].0 == n;
            assert(index_set.contains(w) && key_of(w) == n);
        }
        assert forall|n: u32| index_set.map(key_of).contains(n)
            implies entries_view(s).dom().contains(n) by {
            let w = choose|w: int| index_set.contains(w) && key_of(w) == n;
            assert(0 <= w < s.len() && s[w].0 == n);
        }
    }
    index_set.lemma_map_finite(key_of);
}

impl<T> Cache<T> {
    /// Each index occupies at most one entry.
    pub closed spec fn wf(self) -> bool {
        entries_wf(self.entries@)
    }

    /// The entry list itself, for callers that walk the cache.
    pub closed spec fn seq(self) -> Seq<(u32, CacheEntry<T>)> {
        self.entries@
    }

    /// The entries by index.
    pub closed spec fn view(self) -> Map<u32, CacheEntry<T>> {
        entries_view(self.entries@)
    }

    /// The map view and well-formedness are those of the entry list.
    pub(crate) proof fn lemma_view_is_entries(self)
        ensures
            self.view() == entries_view(self.seq()),
            self.wf() == entries_wf(self.seq()),
    {
    }

    /// A fresh cache: no entry at any index.
    pub fn new() -> (r: Cache<T>)
        ensures
            r.wf(),
            r.seq() == Seq::<(u32, CacheEntry<T>)>::empty(),
            r.view() == Map::<u32, CacheEntry<T>>::empty(),
    {
        let r = Cache { entries: Vec::new() };
        proof {
            assert(r.seq() =~= Seq::<(u32, CacheEntry<T>)>::empty());
            assert(r.view() =~= Map::<u32, CacheEntry<T>>::empty());
        }
        r
    }

    /// The position of index `n`'s entry in the list, if the cache holds one.
    pub(crate) fn find(&self, n: u32) -> (r: Option<usize>)
        requires
            self.wf(),
        ensures
            match r {
                Some(i) => i < self.seq().len() && self.seq()[i as int].0 == n
                    && self.view().contains_key(n) && self.view()[n] == self.seq()[i as int].1,
                None => !self.view().contains_key(n),
            },
    {
        let len = self.entries.len();
        let mut i: usize = 0;
        while i < len
            invariant
                len == self.entries@.len(),
                i <= len,
                self.wf(),
                forall|j: int| 0 <= j < i ==> self.entries@[j].0 != n,
            decreases len - i,
        {
            if self.entries[i].0 == n {
                proof {
                    let w = choose|w: int| 0 <= w < self.entries@.len()
                        && self.entries@[w].0 == n;
                    assert(w == i);
                }
                return Some(i);
            }
            i += 1;
        }
        None
    }

    /// How many indices have an entry.
    pub fn len(&self) -> (r: usize)
        ensures
            r == self.seq().len(),
    {
        self.entries.len()
    }

    /// The index stored at position `i` of the entry list.
    pub(crate) fn key_at(&self, i: usize) -> (r: u32)
        requires
            i < self.seq().len(),
        ensures
            r == self.seq()[i as int].0,
    {
        self.entries[i].0
    }

    /// Whether the entry at position `i` is dirty.
    pub(crate) fn dirty_at(&self, i: usize) -> (r: bool)
        requires
            i < self.seq().len(),
        ensures
            r == self.seq()[i as int].1.dirty,
    {
        self.entries[i].1.dirty
    }

    /// Whether the entry at position `i` caches a present value.
    pub(crate) fn has_value_at(&self, i: usize) -> (r: bool)
        requires
            i < self.seq().len(),
        ensures
            r == (self.seq()[i as int].1.value is Some),
    {
        self.entries[i].1.value.is_some()
    }

    /// Borrows the present value cached at position `i`.
    pub(crate) fn value_at(&self, i: usize) -> (r: &T)
        requires
            i < self.seq().len(),
            self.seq()[i as int].1.value is Some,
        ensures
            Some(*r) == self.seq()[i as int].1.value,
    {
        match &self.entries[i].1.value {
            Some(v) => v,
            None => {
                proof {
                    assert(false);
                }
                vstd::pervasive::unreached()
            }
        }
    }

    /// Marks the entry at position `i` clean.
    pub(crate) fn mark_clean_at(&mut self, i: usize)
        requires
            old(self).wf(),
            i < old(self).seq().len(),
        ensures
            final(self).wf(),
            final(self).seq() == old(self).seq().update(
                i as int,
                (
                    old(self).seq()[i as int].0,
                    CacheEntry { value: old(self).seq()[i as int].1.value, dirty: false },
                ),
            ),
            final(self).view() == old(self).view().insert(
                old(self).seq()[i as int].0,
                CacheEntry { value: old(self).seq()[i as int].1.value, dirty: false },
            ),
    {
        let ghost pre = self.entries@;
        self.entries[i].1.dirty = false;
        proof {
            let e = CacheEntry { value: pre[i as int].1.value, dirty: false };
            assert(self.entries@ =~= pre.update(i as int, (pre[i as int].0, e)));
            lemma_entries_update_view(pre, i as int, e);
        }
    }

    /// Marks the entry at position `i` dirty.
    pub(crate) fn mark_dirty_at(&mut self, i: usize)
        requires
            old(self).wf(),
            i < old(self).seq().len(),
        ensures
            final(self).wf(),
            final(self).seq() == old(self).seq().update(
                i as int,
                (
                    old(self).seq()[i as int].0,
                    CacheEntry { value: old(self).seq()[i as int].1.value, dirty: true },
                ),
            ),
            final(self).view() == old(self).view().insert(
                old(self).seq()[i as int].0,
                CacheEntry { value: old(self).seq()[i as int].1.value, dirty: true },
            ),
    {
        let ghost pre = self.entries@;
        self.entries[i].1.dirty = true;
        proof {
            let e = CacheEntry { value: pre[i as int].1.value, dirty: true };
            assert(self.entries@ =~= pre.update(i as int, (pre[i as int].0, e)));
            lemma_entries_update_view(pre, i as int, e);
        }
    }

    /// Borrows, mutably, the cached slot content at position `i`. Whatever
    /// the borrower leaves behind becomes the entry's belief; its dirty
    /// flag keeps its old state.
    pub(crate) fn value_opt_mut(&mut self, i: usize) -> (r: &mut Option<T>)
        requires
            old(self).wf(),
            i < old(self).seq().len(),
        ensures
            *r == old(self).seq()[i as int].1.value,
            final(self).wf(),
            final(self).seq() == old(self).seq().update(
                i as int,
                (
                    old(self).seq()[i as int].0,
                    CacheEntry { value: *final(r), dirty: old(self).seq()[i as int].1.dirty },
                ),
            ),
            final(self).view() == old(self).view().insert(
                old(self).seq()[i as int].0,
                CacheEntry { value: *final(r), dirty: old(self).seq()[i as int].1.dirty },
            ),
    {
        let ghost pre = self.entries@;
        proof {
            assert forall|e: CacheEntry<T>|
                entries_wf(pre.update(i as int, (pre[i as int].0, e)))
                    && #[trigger] entries_view(pre.update(i as int, (pre[i as int].0, e)))
                        == entries_view(pre).insert(pre[i as int].0, e) by {
                lemma_entries_update_view(pre, i as int, e);
            }
        }
        &mut self.entries[i].1.value
    }

    /// Replaces (or creates) the entry at index `n`, returning the entry it
    /// displaced if one existed.
    pub fn insert(&mut self, n: u32, e: CacheEntry<T>) -> (r: Option<CacheEntry<T>>)
        requires
            old(self).wf(),
        ensures
            final(self).wf(),
            final(self).view() == old(self).view().insert(n, e),
            match r {
                Some(prev) => old(self).view().contains_key(n)
                    && prev == old(self).view()[n],
                None => !old(self).view().contains_key(n),
            },
    {
        let ghost pre = self.entries@;
        match self.find(n) {
            Some(i) => {
                let mut pair = (n, e);
                self.entries.set_and_swap(i, &mut pair);
                proof {
                    lemma_entries_update_view(pre, i as int, e);
                }
                Some(pair.1)
            }
            None => {
                self.entries.push((n, e));
                proof {
                    lemma_entries_push_view(pre, n, e);
                }
                None
            }
        }
    }
}

} // verus!

//! Keeping the on-disk image cache under its size cap: the cache's total
//! size, the order in which files are evicted (least recently touched
//! first), and the eviction walk itself, one removal at a time.

use vstd::prelude::*;

use crate::update::{nanos_of, total_nanos, Timestamp};

verus! {

/// One file of the image cache: when it was last written or served (a
/// hit touches its modification time) and its size in bytes.
#[derive(Debug, Clone, Copy)]
pub struct CachedFile {
    /// Last modification time.
    pub modified: Timestamp,
    /// Size in bytes.
    pub size: u64,
}

/// The sum of the sizes of `files`.
pub open spec fn total_size(files: Seq<CachedFile>) -> nat
    decreases files.len(),
{
    if files.len() == 0 {
        0
    } else {
        total_size(files.drop_last()) + files.last().size as nat
    }
}

/// The cache's size as a saturating `u64` sum: the total, or `u64::MAX`
/// when the total does not fit.
pub fn cache_size_total(files: &[CachedFile]) -> (r: u64)
    ensures
        total_size(files@) <= u64::MAX ==> r == total_size(files@),
        total_size(files@) > u64::MAX ==> r == u64::MAX,
{
    let mut total: u64 = 0;
    let mut i: usize = 0;
    while i < files.len()
        invariant
            i <= files.len(),
            total_size(files@.subrange(0, i as int)) <= u64::MAX ==> total == total_size(
                files@.subrange(0, i as int),
            ),
            total_size(files@.subrange(0, i as int)) > u64::MAX ==> total == u64::MAX,
        decreases files.len() - i,
    {
        assert(files@.subrange(0, i + 1).drop_last() == files@.subrange(0, i as int));
        total = total.saturating_add(files[i].size);
        i = i + 1;
    }
    assert(files@.subrange(0, i as int) == files@);
    total
}

/// File `a` is evicted before file `b`: it is older, or as old and listed
/// earlier.
pub open spec fn evicts_before(files: Seq<CachedFile>, a: int, b: int) -> bool {
    ||| nanos_of(files[a].modified) < nanos_of(files[b].modified)
    ||| (nanos_of(files[a].modified) == nanos_of(files[b].modified) && a < b)
}

/// `order` lists indices of `files`, one per file, strictly in eviction
/// order (so no index twice): oldest first, ties in listing order.
pub open spec fn is_eviction_order(files: Seq<CachedFile>, order: Seq<usize>) -> bool {
    &&& order.len() == files.len()
    &&& forall|i: int| 0 <= i < order.len() ==> #[trigger] order[i] < files.len()
    &&& forall|i: int, j: int|
        0 <= i < j < order.len() ==> evicts_before(files, #[trigger] order[i] as int, #[trigger] order[j] as int)
}

/// The indices of `files` in eviction order (a stable sort by
/// modification time).
pub fn eviction_order(files: &[CachedFile]) -> (order: Vec<usize>)
    ensures
        is_eviction_order(files@, order@),
{
    let mut order: Vec<usize> = Vec::new();
    let mut k: usize = 0;
    while k < files.len()
        invariant
            k <= files.len(),
            order@.len() == k,
            forall|i: int| 0 <= i < k ==> #[trigger] order@[i] < k,
            forall|i: int, j: int|
                0 <= i < j < k ==> evicts_before(files@, #[trigger] order@[i] as int, #[trigger] order@[j] as int),
        decreases files.len() - k,
    {
        let key = total_nanos(files[k].modified);
        let mut p: usize = 0;
        let mut found = false;
        while p < order.len() && !found
            invariant
                p <= order@.len(),
                order@.len() == k,
                k < files@.len(),
                key == nanos_of(files@[k as int].modified),
                forall|i: int| 0 <= i < k ==> #[trigger] order@[i] < k,
                forall|i: int| 0 <= i < p ==> nanos_of(files@[#[trigger] order@[i] as int].modified)
                    <= key,
                found ==> p < order@.len() && key < nanos_of(files@[order@[p as int] as int].modified),
            decreases order@.len() - p + if found {
                0int
            } else {
                1int
            },
        {
            let o = order[p];
            if key < total_nanos(files[o].modified) {
                found = true;
            } else {
                p = p + 1;
            }
        }
        let ghost old_order = order@;
        proof {
            assert forall|i: int| p <= i < k implies key < nanos_of(
                files@[#[trigger] old_order[i] as int].modified,
            ) by {
                if i > p {
                    assert(evicts_before(files@, old_order[p as int] as int, old_order[i] as int));
                }
            }
        }
        order.insert(p, k);
        proof {
            let n = order@;
            assert(forall|i: int| 0 <= i < p ==> n[i] == old_order[i]);
            assert(n[p as int] == k);
            assert(forall|i: int| p < i <= k ==> n[i] == old_order[i - 1]);
            assert forall|i: int| 0 <= i < k + 1 implies #[trigger] n[i] < k + 1 by {
                if i < p {
                    assert(n[i] == old_order[i]);
                } else if i > p {
                    assert(n[i] == old_order[i - 1]);
                }
            }
            assert forall|i: int, j: int| 0 <= i < j < k + 1 implies evicts_before(
                files@,
                #[trigger] n[i] as int,
                #[trigger] n[j] as int,
            ) by {
                if i < p && j < p {
                    assert(n[i] == old_order[i] && n[j] == old_order[j]);
                } else if i < p && j == p {
                    assert(n[i] == old_order[i]);
                } else if i < p && j > p {
                    assert(n[i] == old_order[i] && n[j] == old_order[j - 1]);
                } else if i == p {
                    assert(n[j] == old_order[j - 1]);
                } else {
                    assert(n[i] == old_order[i - 1] && n[j] == old_order[j - 1]);
                }
            }
        }
        k = k + 1;
    }
    order
}

/// The sizes of `files`, in listing order.
pub open spec fn sizes_of(files: Seq<CachedFile>) -> Seq<u64> {
    files.map_values(|f: CachedFile| f.size)
}

/// An eviction walk as values: `(eviction order, file sizes, bytes still
/// cached, cap, number of files tried)`.
pub type PruneView = (Seq<usize>, Seq<u64>, u64, u64, nat);

/// The file the walk removes next: none once the bytes still cached are
/// at or under the cap or every file has been tried; else the oldest file
/// not yet tried.
pub open spec fn next_removal(v: PruneView) -> Option<usize> {
    if v.2 <= v.3 || v.4 >= v.0.len() {
        None
    } else {
        Some(v.0[v.4 as int])
    }
}

/// The walk after trying to remove its next file: one more file tried,
/// and that file's size no longer counted when the removal succeeded.
pub open spec fn after_removal(v: PruneView, removed: bool) -> PruneView {
    let size = v.1[v.0[v.4 as int] as int];
    let running = if !removed {
        v.2
    } else if v.2 >= size {
        (v.2 - size) as u64
    } else {
        0u64
    };
    (v.0, v.1, running, v.3, v.4 + 1)
}

/// The walk that prunes the cache down to its cap: it offers the files
/// oldest first and stops as soon as the bytes still cached are at or
/// under the cap. The caller removes each offered file and reports
/// whether the removal succeeded; a failed removal frees nothing.
pub struct PrunePlan {
    order: Vec<usize>,
    sizes: Vec<u64>,
    running: u64,
    cap: u64,
    pos: usize,
}

impl View for PrunePlan {
    type V = PruneView;

    closed spec fn view(&self) -> PruneView {
        (self.order@, self.sizes@, self.running, self.cap, self.pos as nat)
    }
}

impl PrunePlan {
    #[verifier::type_invariant]
    spec fn inv(&self) -> bool {
        &&& self.order@.len() == self.sizes@.len()
        &&& forall|i: int| 0 <= i < self.order@.len() ==> #[trigger] self.order@[i] < self.sizes@.len()
        &&& self.pos <= self.order@.len()
    }

    /// A walk over `files` against `cap`, nothing tried yet, all of the
    /// cache's bytes counted.
    pub fn new(files: &[CachedFile], cap: u64) -> (r: Self)
        requires
            total_size(files@) <= u64::MAX,
        ensures
            is_eviction_order(files@, r@.0),
            r@.1 == sizes_of(files@),
            r@.2 == total_size(files@),
            r@.3 == cap,
            r@.4 == 0,
    {
        let order = eviction_order(files);
        let mut sizes: Vec<u64> = Vec::new();
        let mut i: usize = 0;
        while i < files.len()
            invariant
                i <= files.len(),
                sizes@ == sizes_of(files@.subrange(0, i as int)),
            decreases files.len() - i,
        {
            sizes.push(files[i].size);
            assert(sizes_of(files@.subrange(0, i + 1)) =~= sizes_of(files@.subrange(0, i as int)).push(
                files@[i as int].size,
            ));
            i = i + 1;
        }
        assert(files@.subrange(0, i as int) == files@);
        let total = cache_size_total(files);
        PrunePlan { order, sizes, running: total, cap, pos: 0 }
    }

    /// The index of the file to remove next, if any (see [`next_removal`]).
    pub fn next_victim(&self) -> (r: Option<usize>)
        ensures
            r == next_removal(self@),
            r matches Some(i) ==> i < self@.1.len(),
    {
        proof {
            use_type_invariant(self);
        }
        if self.running <= self.cap || self.pos >= self.order.len() {
            None
        } else {
            Some(self.order[self.pos])
        }
    }

    /// Records whether removing the offered file succeeded (see
    /// [`after_removal`]); nothing changes when no file was offered.
    pub fn record(&mut self, removed: bool)
        ensures
            next_removal(old(self)@) is Some ==> final(self)@ == after_removal(old(self)@, removed),
            next_removal(old(self)@) is None ==> final(self)@ == old(self)@,
    {
        proof {
            use_type_invariant(&*self);
        }
        if self.running <= self.cap || self.pos >= self.order.len() {
            return;
        }
        if removed {
            let size = self.sizes[self.order[self.pos]];
            self.running = self.running.saturating_sub(size);
        }
        self.pos = self.pos + 1;
    }
}

// ---------------------------------------------------------------------
// A walk in which every removal succeeds
// ---------------------------------------------------------------------

/// The walk run to its end with every removal succeeding.
pub open spec fn walk_all_removed(v: PruneView) -> PruneView
    decreases v.0.len() - v.4,
{
    if next_removal(v) is None {
        v
    } else {
        walk_all_removed(after_removal(v, true))
    }
}

/// The sum of `sizes`.
pub open spec fn seq_sum(sizes: Seq<u64>) -> nat
    decreases sizes.len(),
{
    if sizes.len() == 0 {
        0
    } else {
        seq_sum(sizes.drop_last()) + sizes.last() as nat
    }
}

/// The sum of the sizes that `order` lists, in its order.
pub open spec fn order_sum(sizes: Seq<u64>, order: Seq<usize>) -> nat
    decreases order.len(),
{
    if order.len() == 0 {
        0
    } else {
        order_sum(sizes, order.drop_last()) + sizes[order.last() as int] as nat
    }
}

proof fn lemma_total_is_sum(files: Seq<CachedFile>)
    ensures
        total_size(files) == seq_sum(sizes_of(files)),
    decreases files.len(),
{
    if files.len() > 0 {
        lemma_total_is_sum(files.drop_last());
        assert(sizes_of(files).drop_last() =~= sizes_of(files.drop_last()));
    }
}

/// An injective list of `n` indices below `n` lists each of them.
proof fn lemma_order_covers(order: Seq<usize>, n: nat, m: int)
    requires
        order.len() == n,
        forall|i: int| 0 <= i < n ==> #[trigger] order[i] < n,
        forall|i: int, j: int| 0 <= i < j < n ==> #[trigger] order[i] != #[trigger] order[j],
        0 <= m < n,
    ensures
        exists|q: int| 0 <= q < n && order[q] as int == m,
{
    broadcast use vstd::seq_lib::seq_to_set_is_finite;

    let oi = order.map_values(|x: usize| x as int);
    assert(oi.no_duplicates()) by {
        assert forall|i: int, j: int| 0 <= i < oi.len() && 0 <= j < oi.len() && i != j implies oi[i]
            != oi[j] by {
            if i < j {
                assert(order[i] != order[j]);
            } else {
                assert(order[j] != order[i]);
            }
        }
    }
    oi.unique_seq_to_set();
    if !(exists|q: int| 0 <= q < n && order[q] as int == m) {
        let r = vstd::set_lib::set_int_range(0, n as int).remove(m);
        vstd::set_lib::lemma_int_range(0, n as int);
        assert forall|x: int| oi.to_set().contains(x) implies r.contains(x) by {
            let q = choose|q: int| 0 <= q < oi.len() && oi[q] == x;
            assert(order[q] < n);
            assert(order[q] as int != m);
        }
        vstd::set_lib::lemma_len_subset(oi.to_set(), r);
    }
}

proof fn lemma_order_sum_remove(sizes: Seq<u64>, order: Seq<usize>, q: int)
    requires
        0 <= q < order.len(),
    ensures
        order_sum(sizes, order) == order_sum(sizes, order.remove(q)) + sizes[order[q] as int],
    decreases order.len(),
{
    if q == order.len() - 1 {
        assert(order.remove(q) =~= order.drop_last());
    } else {
        lemma_order_sum_remove(sizes, order.drop_last(), q);
        assert(order.remove(q).drop_last() =~= order.drop_last().remove(q));
        assert(order.remove(q).last() == order.last());
    }
}

proof fn lemma_order_sum_drop_size(sizes: Seq<u64>, order: Seq<usize>)
    requires
        sizes.len() > 0,
        forall|i: int| 0 <= i < order.len() ==> #[trigger] order[i] < sizes.len() - 1,
    ensures
        order_sum(sizes.drop_last(), order) == order_sum(sizes, order),
    decreases order.len(),
{
    if order.len() > 0 {
        lemma_order_sum_drop_size(sizes, order.drop_last());
        assert(order.last() == order[order.len() - 1]);
    }
}

/// Listing every size once, in any order, sums to the total.
proof fn lemma_permuted_sum(sizes: Seq<u64>, order: Seq<usize>)
    requires
        order.len() == sizes.len(),
        forall|i: int| 0 <= i < order.len() ==> #[trigger] order[i] < sizes.len(),
        forall|i: int, j: int| 0 <= i < j < order.len() ==> #[trigger] order[i] != #[trigger] order[j],
    ensures
        order_sum(sizes, order) == seq_sum(sizes),
    decreases sizes.len(),
{
    if sizes.len() > 0 {
        let n = sizes.len();
        let m = n - 1;
        lemma_order_covers(order, n, m);
        let q = choose|q: int| 0 <= q < n && order[q] as int == m;
        let rest = order.remove(q);
        assert forall|i: int| 0 <= i < rest.len() implies #[trigger] rest[i] < n - 1 by {
            if i < q {
                assert(rest[i] == order[i]);
                assert(order[i] != order[q]);
            } else {
                assert(rest[i] == order[i + 1]);
                assert(order[q] != order[i + 1]);
            }
        }
        assert forall|i: int, j: int| 0 <= i < j < rest.len() implies #[trigger] rest[i]
            != #[trigger] rest[j] by {
            let a = if i < q {
                i
            } else {
                i + 1
            };
            let b = if j < q {
                j
            } else {
                j + 1
            };
            assert(rest[i] == order[a] && rest[j] == order[b] && a < b);
        }
        lemma_order_sum_remove(sizes, order, q);
        lemma_order_sum_drop_size(sizes, rest);
        lemma_permuted_sum(sizes.drop_last(), rest);
    }
}

proof fn lemma_prefix_sum_bounded(sizes: Seq<u64>, order: Seq<usize>, k: int)
    requires
        0 <= k <= order.len(),
    ensures
        order_sum(sizes, order.take(k)) <= order_sum(sizes, order),
    decreases order.len(),
{
    if k < order.len() {
        lemma_prefix_sum_bounded(sizes, order.drop_last(), k);
        assert(order.drop_last().take(k) =~= order.take(k));
    } else {
        assert(order.take(k) =~= order);
    }
}

proof fn lemma_walk_reaches_cap(v: PruneView)
    requires
        v.0.len() == v.1.len(),
        forall|i: int| 0 <= i < v.0.len() ==> #[trigger] v.0[i] < v.1.len(),
        forall|i: int, j: int| 0 <= i < j < v.0.len() ==> #[trigger] v.0[i] != #[trigger] v.0[j],
        v.4 <= v.0.len(),
        v.2 == seq_sum(v.1) - order_sum(v.1, v.0.take(v.4 as int)),
    ensures
        walk_all_removed(v).2 <= v.3,
    decreases v.0.len() - v.4,
{
    lemma_permuted_sum(v.1, v.0);
    if next_removal(v) is None {
        if v.2 > v.3 {
            assert(v.0.take(v.4 as int) =~= v.0);
        }
    } else {
        let p = v.4 as int;
        lemma_prefix_sum_bounded(v.1, v.0, p + 1);
        assert(v.0.take(p + 1).drop_last() =~= v.0.take(p));
        assert(v.0.take(p + 1).last() == v.0[p]);
        lemma_walk_reaches_cap(after_removal(v, true));
    }
}

/// When every removal succeeds, the walk ends with the cache at or under
/// its cap.
pub proof fn law_prune_reaches_cap(files: Seq<CachedFile>, order: Seq<usize>, cap: u64)
    requires
        total_size(files) <= u64::MAX,
        is_eviction_order(files, order),
    ensures
        walk_all_removed((order, sizes_of(files), total_size(files) as u64, cap, 0)).2 <= cap,
{
    lemma_total_is_sum(files);
    let v = (order, sizes_of(files), total_size(files) as u64, cap, 0nat);
    assert forall|i: int, j: int| 0 <= i < j < order.len() implies #[trigger] order[i]
        != #[trigger] order[j] by {
        assert(evicts_before(files, order[i] as int, order[j] as int));
    }
    assert(order.take(0) =~= Seq::<usize>::empty());
    lemma_walk_reaches_cap(v);
}

/// A cache already at or under its cap loses nothing.
pub proof fn law_prune_noop_under_cap(files: Seq<CachedFile>, order: Seq<usize>, cap: u64)
    requires
        total_size(files) <= cap,
    ensures
        next_removal((order, sizes_of(files), total_size(files) as u64, cap, 0)) is None,
{
}

} // verus!

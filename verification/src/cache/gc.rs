//! LRU garbage collection of the cache.
//!
//! The file system walk and the removals are done by the caller; this module
//! decides, in least-recently-used order, which files to remove until the
//! cache is under its size limit, and keeps the accounting.

use vstd::prelude::*;
use super::Cache;

verus! {

/// A cached file with the metadata used for LRU eviction.
#[derive(Debug, Clone)]
pub struct CacheEntry {
    pub path: String,
    pub size: u64,
    /// Last modification time, in nanoseconds relative to the Unix epoch.
    pub accessed: i128,
}

/// Result of a garbage collection operation
#[derive(Debug, Clone)]
pub struct GcResult {
    /// Total bytes freed
    pub freed_bytes: u64,
    /// Number of files removed
    pub files_removed: usize,
    /// Files that would be removed (dry-run mode)
    pub would_remove: Vec<String>,
    /// Current cache size before GC (bytes)
    pub size_before: u64,
    /// Current cache size after GC (bytes)
    pub size_after: u64,
}

/// Total size of `s`, in bytes.
pub open spec fn total(s: Seq<CacheEntry>) -> nat
    decreases s.len(),
{
    if s.len() == 0 {
        0
    } else {
        total(s.drop_last()) + s.last().size as nat
    }
}

impl Cache {
    /// Calculate total cache size in bytes, given the entries found in it.
    pub fn total_size(&self, entries: &[CacheEntry]) -> (r: u64)
        requires
            total(entries@) <= u64::MAX,
        ensures
            r == total(entries@),
    {
        total_size(entries)
    }
}

/// The summed size of `entries`.
pub fn total_size(entries: &[CacheEntry]) -> (r: u64)
    requires
        total(entries@) <= u64::MAX,
    ensures
        r == total(entries@),
{
    let mut sum: u64 = 0;
    let mut i: usize = 0;
    assert(entries@.take(0) =~= Seq::<CacheEntry>::empty());
    while i < entries.len()
        invariant
            0 <= i <= entries.len(),
            total(entries@) <= u64::MAX,
            sum == total(entries@.take(i as int)),
        decreases entries.len() - i,
    {
        assert(entries@.take(i + 1).drop_last() =~= entries@.take(i as int));
        proof {
            lemma_total_take_le(entries@, i + 1);
        }
        sum = sum + entries[i].size;
        i = i + 1;
    }
    assert(entries@.take(i as int) =~= entries@);
    sum
}

pub proof fn lemma_total_take_le(s: Seq<CacheEntry>, k: int)
    requires
        0 <= k <= s.len(),
    ensures
        total(s.take(k)) <= total(s),
    decreases s.len() - k,
{
    if k < s.len() {
        lemma_total_take_le(s, k + 1);
        assert(s.take(k + 1).drop_last() =~= s.take(k));
    } else {
        assert(s.take(k) =~= s);
    }
}

pub proof fn lemma_total_add(a: Seq<CacheEntry>, b: Seq<CacheEntry>)
    ensures
        total(a + b) == total(a) + total(b),
    decreases b.len(),
{
    if b.len() > 0 {
        lemma_total_add(a, b.drop_last());
        assert((a + b).drop_last() =~= a + b.drop_last());
    } else {
        assert(a + b =~= a);
    }
}

proof fn lemma_total_insert(r: Seq<CacheEntry>, pos: int, x: CacheEntry)
    requires
        0 <= pos <= r.len(),
    ensures
        total(r.insert(pos, x)) == total(r) + x.size,
{
    let a = r.take(pos);
    let b = r.skip(pos);
    assert(r =~= a + b);
    assert(r.insert(pos, x) =~= a.push(x) + b);
    lemma_total_add(a, b);
    lemma_total_add(a.push(x), b);
    assert(a.push(x).drop_last() =~= a);
}

// ---------------------------------------------------------------------------
// LRU order
// ---------------------------------------------------------------------------

/// Entries are in non-decreasing access order.
pub open spec fn sorted_by_access(s: Seq<CacheEntry>) -> bool {
    forall|i: int, j: int| 0 <= i < j < s.len() ==> s[i].accessed <= s[j].accessed
}

pub open spec fn accessed_at(t: i128) -> spec_fn(CacheEntry) -> bool {
    |c: CacheEntry| c.accessed == t
}

/// `sorted` is `entries` stably sorted by access time (oldest first): it is
/// sorted, and the entries of each access time keep their relative order.
pub open spec fn is_lru_order(sorted: Seq<CacheEntry>, entries: Seq<CacheEntry>) -> bool {
    &&& sorted_by_access(sorted)
    &&& forall|t: i128| #[trigger] sorted.filter(accessed_at(t)) == entries.filter(accessed_at(t))
}

proof fn lemma_insert_keeps_filters(r: Seq<CacheEntry>, pos: int, x: CacheEntry, t: i128)
    requires
        0 <= pos <= r.len(),
        forall|j: int| pos <= j < r.len() ==> r[j].accessed > x.accessed,
    ensures
        r.insert(pos, x).filter(accessed_at(t)) == if x.accessed == t {
            r.filter(accessed_at(t)).push(x)
        } else {
            r.filter(accessed_at(t))
        },
{
    let p = accessed_at(t);
    let a = r.take(pos);
    let b = r.skip(pos);
    assert(r =~= a + b);
    assert(r.insert(pos, x) =~= a + seq![x] + b);
    Seq::filter_distributes_over_add(a, b, p);
    Seq::filter_distributes_over_add(a + seq![x], b, p);
    Seq::filter_distributes_over_add(a, seq![x], p);
    reveal_with_fuel(Seq::filter, 2);
    if x.accessed == t {
        assert forall|j: int| 0 <= j < b.len() implies !p(b[j]) by {
            assert(b[j] == r[pos + j]);
        }
        b.lemma_all_neg_filter_empty(p);
        assert(seq![x].filter(p) =~= seq![x]);
        assert(r.filter(p) =~= a.filter(p));
        assert(r.insert(pos, x).filter(p) =~= a.filter(p).push(x));
    } else {
        assert(seq![x].filter(p) =~= Seq::<CacheEntry>::empty());
        assert(r.insert(pos, x).filter(p) =~= r.filter(p));
    }
}

/// Stably sorts `entries` by access time, oldest first (an insertion sort:
/// each entry goes after every entry not newer than it).
pub fn lru_sort(entries: Vec<CacheEntry>) -> (r: Vec<CacheEntry>)
    ensures
        is_lru_order(r@, entries@),
        total(r@) == total(entries@),
{
    let ghost all = entries@;
    let mut rest = entries;
    let mut r: Vec<CacheEntry> = Vec::new();
    let ghost mut done: Seq<CacheEntry> = Seq::empty();
    assert(all =~= done + rest@);
    while rest.len() > 0
        invariant
            all == done + rest@,
            is_lru_order(r@, done),
            total(r@) == total(done),
        decreases rest.len(),
    {
        let x = rest.remove(0);
        let mut pos: usize = 0;
        while pos < r.len() && r[pos].accessed <= x.accessed
            invariant
                0 <= pos <= r.len(),
                forall|j: int| 0 <= j < pos ==> r@[j].accessed <= x.accessed,
            decreases r.len() - pos,
        {
            pos = pos + 1;
        }
        assert forall|j: int| pos <= j < r@.len() implies r@[j].accessed > x.accessed by {
            assert(r@[pos as int].accessed > x.accessed);
            assert(sorted_by_access(r@));
        }
        let ghost old_r = r@;
        r.insert(pos, x);
        proof {
            assert forall|t: i128| #[trigger] r@.filter(accessed_at(t)) == done.push(x).filter(
                accessed_at(t),
            ) by {
                lemma_insert_keeps_filters(old_r, pos as int, x, t);
                reveal_with_fuel(Seq::filter, 1);
                assert(done.push(x).drop_last() =~= done);
            }
            assert forall|i: int, j: int| 0 <= i < j < r@.len() implies r@[i].accessed
                <= r@[j].accessed by {
                if j < pos {
                    assert(r@[i] == old_r[i] && r@[j] == old_r[j]);
                } else if j == pos {
                    assert(r@[i] == old_r[i]);
                } else if i < pos {
                    assert(r@[i] == old_r[i] && r@[j] == old_r[j - 1]);
                } else if i == pos {
                    assert(r@[j] == old_r[j - 1]);
                } else {
                    assert(r@[i] == old_r[i - 1] && r@[j] == old_r[j - 1]);
                }
            }
            lemma_total_insert(old_r, pos as int, x);
            assert(done.push(x).drop_last() =~= done);
            done = done.push(x);
            assert(all =~= done + rest@);
        }
    }
    assert(done =~= all);
    r
}


// ---------------------------------------------------------------------------
// Eviction
// ---------------------------------------------------------------------------

/// Bytes freed by the removals of the first `outcomes.len()` entries of
/// `order`, where `outcomes[j]` says whether entry `j` was removed.
pub open spec fn freed_by(order: Seq<CacheEntry>, outcomes: Seq<bool>) -> nat
    decreases outcomes.len(),
{
    if outcomes.len() == 0 {
        0
    } else {
        freed_by(order, outcomes.drop_last()) + if outcomes.last() {
            order[outcomes.len() - 1].size as nat
        } else {
            0nat
        }
    }
}

/// Number of successful removals among `outcomes`.
pub open spec fn removed_count(outcomes: Seq<bool>) -> nat
    decreases outcomes.len(),
{
    if outcomes.len() == 0 {
        0
    } else {
        removed_count(outcomes.drop_last()) + if outcomes.last() {
            1nat
        } else {
            0nat
        }
    }
}

/// The paths of the first `k` entries of `order`.
pub open spec fn paths_of(order: Seq<CacheEntry>, k: int) -> Seq<Seq<char>> {
    order.take(k).map_values(|c: CacheEntry| c.path@)
}

/// Each of the first `outcomes.len()` entries was only attempted while the
/// cache, with the removals before it, was still over `max` bytes.
pub open spec fn attempted_over_limit(
    order: Seq<CacheEntry>,
    outcomes: Seq<bool>,
    size_before: nat,
    max: nat,
) -> bool {
    forall|j: int|
        0 <= j < outcomes.len() ==> size_before - freed_by(order, #[trigger] outcomes.take(j))
            > max
}

pub proof fn lemma_freed_by_bounded(order: Seq<CacheEntry>, outcomes: Seq<bool>)
    requires
        outcomes.len() <= order.len(),
    ensures
        freed_by(order, outcomes) <= total(order.take(outcomes.len() as int)),
    decreases outcomes.len(),
{
    if outcomes.len() > 0 {
        let k = outcomes.len() as int;
        lemma_freed_by_bounded(order, outcomes.drop_last());
        assert(order.take(k).drop_last() =~= order.take(k - 1));
    }
}

pub proof fn lemma_removed_count_bounded(outcomes: Seq<bool>)
    ensures
        removed_count(outcomes) <= outcomes.len(),
    decreases outcomes.len(),
{
    if outcomes.len() > 0 {
        lemma_removed_count_bounded(outcomes.drop_last());
    }
}

/// What the caller must do next during a collection.
pub enum GcAction {
    /// Remove the file at this path, then report the outcome with
    /// [`GcRun::record_removal`].
    Remove(String),
    /// Nothing is left to remove: the cache is within its limit, or every
    /// file was tried.
    Finished,
}

/// A garbage collection in progress.
///
/// Files are considered oldest first; while the cache is over its limit the
/// next one is handed out for removal (or, in a dry run, recorded as one
/// that would be removed). A failed removal is skipped: it frees nothing.
pub struct GcRun {
    order: Vec<CacheEntry>,
    next: usize,
    max_bytes: u64,
    dry_run: bool,
    size_before: u64,
    current_size: u64,
    freed_bytes: u64,
    files_removed: usize,
    would_remove: Vec<String>,
    awaiting: bool,
    finished: bool,
    outcomes: Ghost<Seq<bool>>,
}

impl GcRun {
    /// The cache entries, oldest first.
    pub closed spec fn order(&self) -> Seq<CacheEntry> {
        self.order@
    }

    /// For each entry considered so far, whether it was removed.
    pub closed spec fn outcomes(&self) -> Seq<bool> {
        self.outcomes@
    }

    pub closed spec fn limit(&self) -> nat {
        self.max_bytes as nat
    }

    pub closed spec fn is_dry_run(&self) -> bool {
        self.dry_run
    }

    pub closed spec fn size_before(&self) -> nat {
        self.size_before as nat
    }

    /// Bytes freed so far.
    pub closed spec fn freed(&self) -> nat {
        self.freed_bytes as nat
    }

    /// The size of the cache with the removals recorded so far.
    pub open spec fn current_size(&self) -> int {
        self.size_before() - self.freed()
    }

    /// A removal has been handed out and its outcome is not yet recorded.
    pub closed spec fn is_awaiting(&self) -> bool {
        self.awaiting
    }

    pub closed spec fn is_finished(&self) -> bool {
        self.finished
    }

    /// The state of a collection is consistent.
    pub closed spec fn wf(&self) -> bool {
        let order = self.order@;
        let outcomes = self.outcomes@;
        &&& outcomes.len() == self.next
        &&& self.next <= order.len()
        &&& self.size_before == total(order)
        &&& self.freed_bytes == freed_by(order, outcomes)
        &&& self.freed_bytes <= self.size_before
        &&& self.current_size == self.size_before - self.freed_bytes
        &&& attempted_over_limit(order, outcomes, self.size_before as nat, self.max_bytes as nat)
        &&& self.awaiting ==> !self.dry_run && !self.finished && self.next < order.len()
            && self.current_size > self.max_bytes
        &&& self.finished ==> !self.awaiting && (self.current_size <= self.max_bytes || self.next
            == order.len())
        &&& self.dry_run ==> {
            &&& forall|j: int| 0 <= j < outcomes.len() ==> outcomes[j]
            &&& self.files_removed == 0
            &&& self.would_remove@.map_values(|p: String| p@) == paths_of(order, self.next as int)
        }
        &&& !self.dry_run ==> {
            &&& self.files_removed == removed_count(outcomes)
            &&& self.would_remove@.len() == 0
        }
    }

    /// Starts a collection of `entries`: LRU eviction down to `max_bytes`
    /// (no limit when `None`); a dry run removes nothing.
    pub fn start(entries: Vec<CacheEntry>, max_bytes: Option<u64>, dry_run: bool) -> (r: GcRun)
        requires
            total(entries@) <= u64::MAX,
        ensures
            r.wf(),
            is_lru_order(r.order(), entries@),
            r.outcomes().len() == 0,
            r.limit() == match max_bytes {
                Some(m) => m as nat,
                None => u64::MAX as nat,
            },
            r.is_dry_run() == dry_run,
            r.size_before() == total(entries@),
            r.size_before() == total(r.order()),
            r.freed() == 0,
            !r.is_awaiting(),
            !r.is_finished(),
    {
        let order = lru_sort(entries);
        let size_before = total_size(order.as_slice());
        let max_bytes = match max_bytes {
            Some(m) => m,
            None => u64::MAX,
        };
        let r = GcRun {
            order,
            next: 0,
            max_bytes,
            dry_run,
            size_before,
            current_size: size_before,
            freed_bytes: 0,
            files_removed: 0,
            would_remove: Vec::new(),
            awaiting: false,
            finished: false,
            outcomes: Ghost(Seq::empty()),
        };
        assert(r.would_remove@.map_values(|p: String| p@) =~= paths_of(r.order@, 0));
        r
    }

    /// The next step of the collection. In a dry run every remaining
    /// eviction is recorded at once and the run finishes; otherwise the
    /// oldest file not yet considered is handed out for removal while the
    /// cache is over its limit.
    pub fn next_action(&mut self) -> (a: GcAction)
        requires
            old(self).wf(),
            !old(self).is_awaiting(),
            !old(self).is_finished(),
        ensures
            final(self).wf(),
            final(self).order() == old(self).order(),
            final(self).limit() == old(self).limit(),
            final(self).is_dry_run() == old(self).is_dry_run(),
            final(self).size_before() == old(self).size_before(),
            old(self).outcomes().is_prefix_of(final(self).outcomes()),
            match a {
                GcAction::Remove(path) => {
                    &&& !old(self).is_dry_run()
                    &&& old(self).outcomes().len() < old(self).order().len()
                    &&& old(self).current_size() > old(self).limit()
                    &&& final(self).is_awaiting()
                    &&& final(self).outcomes() == old(self).outcomes()
                    &&& path@ == old(self).order()[old(self).outcomes().len() as int].path@
                },
                GcAction::Finished => {
                    &&& (old(self).is_dry_run() || old(self).outcomes().len() == old(
                        self,
                    ).order().len() || old(self).current_size() <= old(self).limit())
                    &&& final(self).is_finished()
                    &&& !old(self).is_dry_run() ==> final(self).outcomes() == old(self).outcomes()
                },
            },
    {
        if self.dry_run {
            while self.next < self.order.len() && self.current_size > self.max_bytes
                invariant
                    self.wf(),
                    self.dry_run,
                    !self.awaiting,
                    !self.finished,
                    self.order@ == old(self).order@,
                    self.max_bytes == old(self).max_bytes,
                    self.size_before == old(self).size_before,
                    old(self).outcomes@.is_prefix_of(self.outcomes@),
                decreases self.order.len() - self.next,
            {
                let ghost outs = self.outcomes@;
                let size = self.order[self.next].size;
                proof {
                    lemma_freed_by_bounded(self.order@, outs.push(true));
                    lemma_total_take_le(self.order@, self.next + 1);
                    assert(outs.push(true).drop_last() =~= outs);
                    assert(outs.push(true).take(outs.len() as int) =~= outs);
                }
                let path = self.order[self.next].path.clone();
                self.would_remove.push(path);
                self.freed_bytes = self.freed_bytes + size;
                self.current_size = self.size_before - self.freed_bytes;
                self.outcomes = Ghost(outs.push(true));
                self.next = self.next + 1;
                proof {
                    assert forall|j: int| 0 <= j < self.outcomes@.len() implies self.size_before
                        - freed_by(self.order@, #[trigger] self.outcomes@.take(j))
                        > self.max_bytes by {
                        if j < outs.len() {
                            assert(self.outcomes@.take(j) =~= outs.take(j));
                        }
                    }
                    assert(self.order@.take(self.next as int).map_values(|c: CacheEntry| c.path@)
                        =~= paths_of(self.order@, self.next - 1).push(path@));
                    assert(self.would_remove@.map_values(|p: String| p@) =~= paths_of(
                        self.order@,
                        self.next as int,
                    ));
                    assert(old(self).outcomes@.is_prefix_of(self.outcomes@));
                }
            }
            self.finished = true;
            GcAction::Finished
        } else if self.next == self.order.len() || self.current_size <= self.max_bytes {
            self.finished = true;
            GcAction::Finished
        } else {
            self.awaiting = true;
            GcAction::Remove(self.order[self.next].path.clone())
        }
    }

    /// Records whether the file handed out by the last
    /// [`GcRun::next_action`] was removed.
    pub fn record_removal(&mut self, removed: bool)
        requires
            old(self).wf(),
            old(self).is_awaiting(),
        ensures
            final(self).wf(),
            final(self).order() == old(self).order(),
            final(self).limit() == old(self).limit(),
            final(self).is_dry_run() == old(self).is_dry_run(),
            final(self).size_before() == old(self).size_before(),
            final(self).outcomes() == old(self).outcomes().push(removed),
            !final(self).is_awaiting(),
            !final(self).is_finished(),
    {
        let ghost outs = self.outcomes@;
        assert(self.next < self.order.len());
        proof {
            lemma_removed_count_bounded(outs);
            lemma_freed_by_bounded(self.order@, outs.push(removed));
            lemma_total_take_le(self.order@, self.next + 1);
            assert(outs.push(removed).drop_last() =~= outs);
            assert(outs.push(removed).take(outs.len() as int) =~= outs);
        }
        if removed {
            let size = self.order[self.next].size;
            self.freed_bytes = self.freed_bytes + size;
            self.current_size = self.size_before - self.freed_bytes;
            self.files_removed = self.files_removed + 1;
        }
        self.outcomes = Ghost(outs.push(removed));
        self.next = self.next + 1;
        self.awaiting = false;
        proof {
            assert forall|j: int| 0 <= j < self.outcomes@.len() implies self.size_before
                - freed_by(self.order@, #[trigger] self.outcomes@.take(j)) > self.max_bytes by {
                if j < outs.len() {
                    assert(self.outcomes@.take(j) =~= outs.take(j));
                }
            }
        }
    }

    /// The result of a finished collection.
    pub fn finish(self) -> (r: GcResult)
        requires
            self.wf(),
            self.is_finished(),
        ensures
            r.size_before == self.size_before(),
            r.freed_bytes == self.freed(),
            r.freed_bytes == freed_by(self.order(), self.outcomes()),
            r.size_after == self.size_before() - self.freed(),
            self.is_dry_run() ==> r.files_removed == 0 && r.would_remove@.map_values(
                |p: String| p@,
            ) == paths_of(self.order(), self.outcomes().len() as int),
            !self.is_dry_run() ==> r.files_removed == removed_count(self.outcomes())
                && r.would_remove@.len() == 0,
            r.size_after <= self.limit() || self.outcomes().len() == self.order().len(),
            self.is_dry_run() ==> r.freed_bytes == total(self.order().take(self.outcomes().len() as int)),
            self.is_dry_run() ==> r.size_after <= self.limit() || r.size_after == 0,
            attempted_over_limit(
                self.order(),
                self.outcomes(),
                self.size_before(),
                self.limit(),
            ),
    {
        proof {
            if self.dry_run {
                lemma_freed_all_removed(self.order@, self.outcomes@);
                if self.next == self.order.len() {
                    assert(self.order@.take(self.order@.len() as int) =~= self.order@);
                }
            }
        }
        GcResult {
            freed_bytes: self.freed_bytes,
            files_removed: self.files_removed,
            would_remove: self.would_remove,
            size_before: self.size_before,
            size_after: self.current_size,
        }
    }
}


// ---------------------------------------------------------------------------
// Laws
// ---------------------------------------------------------------------------

proof fn lemma_freed_all_removed(order: Seq<CacheEntry>, outcomes: Seq<bool>)
    requires
        outcomes.len() <= order.len(),
        forall|j: int| 0 <= j < outcomes.len() ==> outcomes[j],
    ensures
        freed_by(order, outcomes) == total(order.take(outcomes.len() as int)),
    decreases outcomes.len(),
{
    if outcomes.len() > 0 {
        let k = outcomes.len() as int;
        lemma_freed_all_removed(order, outcomes.drop_last());
        assert(order.take(k).drop_last() =~= order.take(k - 1));
    }
}

/// A finished dry run marks exactly the shortest run of oldest files whose
/// removal brings the cache within its limit (all files when no such run
/// exists): removing fewer of them would leave the cache over the limit.
pub proof fn lemma_dry_run_removes_shortest_lru_prefix(run: GcRun)
    requires
        run.wf(),
        run.is_finished(),
        run.is_dry_run(),
    ensures
        ({
            let k = run.outcomes().len() as int;
            &&& 0 <= k <= run.order().len()
            &&& run.size_before() - total(run.order().take(k)) <= run.limit() || k
                == run.order().len()
            &&& forall|j: int|
                0 <= j < k ==> run.size_before() - total(#[trigger] run.order().take(j))
                    > run.limit()
        }),
{
    let order = run.order();
    let outs = run.outcomes();
    let k = outs.len() as int;
    lemma_freed_all_removed(order, outs);
    assert forall|j: int| 0 <= j < k implies run.size_before() - total(
        #[trigger] order.take(j),
    ) > run.limit() by {
        let t = outs.take(j);
        assert(run.size_before() - freed_by(order, outs.take(j)) > run.limit());
        lemma_freed_all_removed(order, t);
    }
}

/// Whatever the removal outcomes, the bytes reported freed plus the size
/// left equal the size before the collection, and the files considered are
/// the oldest ones.
pub proof fn lemma_gc_accounting(run: GcRun)
    requires
        run.wf(),
    ensures
        run.freed() == freed_by(run.order(), run.outcomes()),
        run.freed() <= run.size_before(),
        run.freed() <= total(run.order().take(run.outcomes().len() as int)),
        run.outcomes().len() <= run.order().len(),
        sorted_by_access(run.order()) ==> forall|i: int, j: int|
            0 <= i < run.outcomes().len() <= j < run.order().len() ==> run.order()[i].accessed
                <= run.order()[j].accessed,
{
    lemma_freed_by_bounded(run.order(), run.outcomes());
}


/// The entries of `order` that are still in the cache after the removals
/// recorded in `outcomes`: those whose removal failed, then those never
/// considered.
pub open spec fn kept_entries(order: Seq<CacheEntry>, outcomes: Seq<bool>) -> Seq<CacheEntry> {
    kept_considered(order, outcomes) + order.skip(outcomes.len() as int)
}

/// The considered entries of `order` whose removal failed.
pub open spec fn kept_considered(order: Seq<CacheEntry>, outcomes: Seq<bool>) -> Seq<
    CacheEntry,
>
    decreases outcomes.len(),
{
    if outcomes.len() == 0 {
        Seq::empty()
    } else {
        let before = kept_considered(order, outcomes.drop_last());
        if outcomes.last() {
            before
        } else {
            before.push(order[outcomes.len() - 1])
        }
    }
}

proof fn lemma_kept_considered_total(order: Seq<CacheEntry>, outcomes: Seq<bool>)
    requires
        outcomes.len() <= order.len(),
    ensures
        total(order.take(outcomes.len() as int)) == freed_by(order, outcomes) + total(
            kept_considered(order, outcomes),
        ),
    decreases outcomes.len(),
{
    if outcomes.len() > 0 {
        let k = outcomes.len() as int;
        lemma_kept_considered_total(order, outcomes.drop_last());
        assert(order.take(k).drop_last() =~= order.take(k - 1));
        let before = kept_considered(order, outcomes.drop_last());
        if !outcomes.last() {
            assert(before.push(order[k - 1]).drop_last() =~= before);
        }
    }
}

/// The size of the cache after the removals recorded so far is the total
/// size of the files still in it: those whose removal failed and those never
/// considered.
pub proof fn lemma_current_size_is_kept_total(run: GcRun)
    requires
        run.wf(),
    ensures
        run.current_size() == total(kept_entries(run.order(), run.outcomes())),
        run.size_before() == total(run.order()),
{
    let order = run.order();
    let outs = run.outcomes();
    let k = outs.len() as int;
    lemma_kept_considered_total(order, outs);
    lemma_total_add(kept_considered(order, outs), order.skip(k));
    lemma_total_add(order.take(k), order.skip(k));
    assert(order.take(k) + order.skip(k) =~= order);
}

/// A finished collection in which every removal succeeded (as in every dry
/// run) leaves the cache within its limit.
pub proof fn lemma_all_removed_within_limit(run: GcRun)
    requires
        run.wf(),
        run.is_finished(),
        forall|j: int| 0 <= j < run.outcomes().len() ==> #[trigger] run.outcomes()[j],
    ensures
        run.current_size() <= run.limit(),
{
    let order = run.order();
    let outs = run.outcomes();
    if outs.len() == order.len() {
        lemma_freed_all_removed(order, outs);
        assert(order.take(outs.len() as int) =~= order);
    }
}

} // verus!

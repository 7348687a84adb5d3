//! The collector that batches the running totals of directories while a
//! precise scan measures them, so that a watcher sees totals that moved
//! enough, in batches, no more often than the throttle allows.
use vstd::prelude::*;

use crate::rules::ScanConfig;
use crate::scan::{PreciseDirectoryProgressUpdate, PreciseScanProgress, PreciseScanUpdate};
use crate::text::str_equal;

verus! {

/// `a + b`, held at `u64::MAX`.
pub open spec fn sat_add(a: u64, b: u64) -> u64 {
    if a + b > u64::MAX {
        u64::MAX
    } else {
        (a + b) as u64
    }
}

/// `a - b`, held at zero.
pub open spec fn sat_sub(a: u64, b: u64) -> u64 {
    if a >= b {
        (a - b) as u64
    } else {
        0
    }
}

/// The totals of one entry.
pub open spec fn totals(u: PreciseDirectoryProgressUpdate) -> (u64, u64) {
    (u.allocated_bytes, u.logical_bytes)
}

/// The totals a list of entries holds, by path (a later entry for a path
/// wins).
pub open spec fn totals_of(s: Seq<PreciseDirectoryProgressUpdate>) -> Map<Seq<char>, (u64, u64)>
    decreases s.len(),
{
    if s.len() == 0 {
        Map::empty()
    } else {
        totals_of(s.drop_last()).insert(s.last().path@, totals(s.last()))
    }
}

/// No path occurs twice.
pub open spec fn paths_unique(s: Seq<PreciseDirectoryProgressUpdate>) -> bool {
    forall|i: int, j: int| #![trigger s[i], s[j]] 0 <= i < j < s.len() ==> s[i].path@ != s[j].path@
}

/// The entry for `p`, if any.
pub open spec fn entry(m: Map<Seq<char>, (u64, u64)>, p: Seq<char>) -> Option<(u64, u64)> {
    if m.contains_key(p) {
        Some(m[p])
    } else {
        None
    }
}

/// Whether new totals `t` for a directory are worth reporting, given the
/// totals last reported for it: always where no least change is set; where
/// nothing was reported yet, once either total reaches the least change;
/// otherwise once either total moved up by at least the least change.
pub open spec fn should_queue_spec(min_delta: u64, last: Option<(u64, u64)>, t: (u64, u64)) -> bool {
    if min_delta == 0 {
        true
    } else {
        match last {
            None => t.0 >= min_delta || t.1 >= min_delta,
            Some(l) => sat_sub(t.0, l.0) >= min_delta || sat_sub(t.1, l.1) >= min_delta,
        }
    }
}

/// A directory's totals after `allocated` and `logical` bytes more were
/// measured in it (each held at `u64::MAX`).
pub open spec fn added_totals(current: Map<Seq<char>, (u64, u64)>, p: Seq<char>, allocated: u64, logical: u64) -> (u64, u64) {
    let c = match entry(current, p) {
        Some(t) => t,
        None => (0u64, 0u64),
    };
    (sat_add(c.0, allocated), sat_add(c.1, logical))
}

/// The totals of `current` that differ from what was last reported.
pub open spec fn changed_totals(current: Map<Seq<char>, (u64, u64)>, last: Map<Seq<char>, (u64, u64)>) -> Map<Seq<char>, (u64, u64)> {
    Map::new(
        |p: Seq<char>| current.contains_key(p) && (!last.contains_key(p) || last[p] != current[p]),
        |p: Seq<char>| current[p],
    )
}

/// Each total of `a` is at most the matching total of `b`.
pub open spec fn le_totals(a: (u64, u64), b: (u64, u64)) -> bool {
    a.0 <= b.0 && a.1 <= b.1
}

/// Totals only grow: what was reported, and what waits to be reported, is
/// at most the running total, and what waits is at least what was reported.
pub open spec fn totals_ordered(
    current: Map<Seq<char>, (u64, u64)>,
    last: Map<Seq<char>, (u64, u64)>,
    pending: Map<Seq<char>, (u64, u64)>,
) -> bool {
    &&& forall|p: Seq<char>|
        #[trigger] last.contains_key(p) ==> current.contains_key(p) && le_totals(last[p], current[p])
    &&& forall|p: Seq<char>|
        #[trigger] pending.contains_key(p) ==> current.contains_key(p) && le_totals(pending[p], current[p]) && (
        last.contains_key(p) ==> le_totals(last[p], pending[p]))
}

/// What a flush of `pending` gives: nothing where nothing is pending, and
/// then nothing changes; otherwise one update with the scan's progress and
/// every pending total exactly once, after which the pending totals count as
/// reported, nothing is pending, and the flush time is `now_ms`.
pub open spec fn flushed(
    pending: Map<Seq<char>, (u64, u64)>,
    last: Map<Seq<char>, (u64, u64)>,
    flushed_at: u64,
    stats: PreciseScanProgress,
    now_ms: u64,
    r: Option<PreciseScanUpdate>,
    new_pending: Map<Seq<char>, (u64, u64)>,
    new_last: Map<Seq<char>, (u64, u64)>,
    new_flushed_at: u64,
) -> bool {
    if pending.dom() == Set::<Seq<char>>::empty() {
        &&& r is None
        &&& new_pending == pending
        &&& new_last == last
        &&& new_flushed_at == flushed_at
    } else {
        &&& r matches Some(u) && u.progress == stats && paths_unique(u.directory_updates@) && totals_of(
            u.directory_updates@,
        ) == pending
        &&& new_pending == Map::<Seq<char>, (u64, u64)>::empty()
        &&& new_last == last.union_prefer_right(pending)
        &&& new_flushed_at == now_ms
    }
}

proof fn lemma_totals_keys(s: Seq<PreciseDirectoryProgressUpdate>)
    ensures
        forall|i: int| 0 <= i < s.len() ==> totals_of(s).contains_key(#[trigger] s[i].path@),
        forall|p: Seq<char>|
            totals_of(s).contains_key(p) ==> exists|i: int| 0 <= i < s.len() && #[trigger] s[i].path@ == p,
    decreases s.len(),
{
    if s.len() > 0 {
        let t = s.drop_last();
        lemma_totals_keys(t);
        assert forall|i: int| 0 <= i < s.len() implies totals_of(s).contains_key(#[trigger] s[i].path@) by {
            if i < s.len() - 1 {
                assert(s[i] == t[i]);
            }
        }
        assert forall|p: Seq<char>| totals_of(s).contains_key(p) implies exists|i: int|
            0 <= i < s.len() && #[trigger] s[i].path@ == p by {
            if p == s.last().path@ {
                assert(s[s.len() - 1].path@ == p);
            } else {
                assert(totals_of(t).contains_key(p));
                let i = choose|i: int| 0 <= i < t.len() && #[trigger] t[i].path@ == p;
                assert(s[i] == t[i]);
            }
        }
    }
}

proof fn lemma_totals_value(s: Seq<PreciseDirectoryProgressUpdate>, i: int)
    requires
        paths_unique(s),
        0 <= i < s.len(),
    ensures
        totals_of(s).contains_key(s[i].path@),
        totals_of(s)[s[i].path@] == totals(s[i]),
    decreases s.len(),
{
    if i < s.len() - 1 {
        let t = s.drop_last();
        assert(t[i] == s[i]);
        assert(paths_unique(t)) by {
            assert forall|a: int, b: int| 0 <= a < b < t.len() implies #[trigger] t[a].path@ != #[trigger] t[b].path@ by {
                assert(t[a] == s[a] && t[b] == s[b]);
            }
        }
        lemma_totals_value(t, i);
        assert(s[i].path@ != s[s.len() - 1].path@);
    }
}

proof fn lemma_unique_prefix(s: Seq<PreciseDirectoryProgressUpdate>, k: int)
    requires
        paths_unique(s),
        0 <= k <= s.len(),
    ensures
        paths_unique(s.take(k)),
{
    let t = s.take(k);
    assert forall|a: int, b: int| 0 <= a < b < t.len() implies #[trigger] t[a].path@ != #[trigger] t[b].path@ by {
        assert(t[a] == s[a] && t[b] == s[b]);
    }
}

proof fn lemma_totals_len(s: Seq<PreciseDirectoryProgressUpdate>)
    requires
        paths_unique(s),
    ensures
        totals_of(s).dom().finite(),
        totals_of(s).dom().len() == s.len(),
    decreases s.len(),
{
    if s.len() > 0 {
        let t = s.drop_last();
        lemma_unique_prefix(s, s.len() - 1);
        assert(t =~= s.take(s.len() - 1));
        lemma_totals_len(t);
        lemma_totals_keys(t);
        if totals_of(t).contains_key(s.last().path@) {
            let i = choose|i: int| 0 <= i < t.len() && #[trigger] t[i].path@ == s.last().path@;
            assert(s[i] == t[i]);
            assert(s[i].path@ != s[s.len() - 1].path@);
        }
    }
}

proof fn lemma_totals_update(s: Seq<PreciseDirectoryProgressUpdate>, i: int, e: PreciseDirectoryProgressUpdate)
    requires
        paths_unique(s),
        0 <= i < s.len(),
        e.path@ == s[i].path@,
    ensures
        paths_unique(s.update(i, e)),
        totals_of(s.update(i, e)) == totals_of(s).insert(e.path@, totals(e)),
    decreases s.len(),
{
    let u = s.update(i, e);
    assert forall|a: int, b: int| 0 <= a < b < u.len() implies #[trigger] u[a].path@ != #[trigger] u[b].path@ by {
        assert(u[a].path@ == s[a].path@ && u[b].path@ == s[b].path@);
    }
    let t = s.drop_last();
    if i == s.len() - 1 {
        assert(u.drop_last() =~= t);
        assert(totals_of(u) =~= totals_of(s).insert(e.path@, totals(e)));
    } else {
        lemma_unique_prefix(s, s.len() - 1);
        assert(t =~= s.take(s.len() - 1));
        lemma_totals_update(t, i, e);
        assert(u.drop_last() =~= t.update(i, e));
        assert(s[i].path@ != s[s.len() - 1].path@);
        assert(totals_of(u) =~= totals_of(s).insert(e.path@, totals(e)));
    }
}

proof fn lemma_totals_absent(s: Seq<PreciseDirectoryProgressUpdate>, p: Seq<char>)
    requires
        forall|i: int| 0 <= i < s.len() ==> (#[trigger] s[i]).path@ != p,
    ensures
        !totals_of(s).contains_key(p),
{
    lemma_totals_keys(s);
    if totals_of(s).contains_key(p) {
        let i = choose|i: int| 0 <= i < s.len() && #[trigger] s[i].path@ == p;
        assert(s[i].path@ != p);
    }
}

/// The position of `path` among the entries, if it is there.
fn find_path(v: &Vec<PreciseDirectoryProgressUpdate>, path: &str) -> (r: Option<usize>)
    ensures
        match r {
            Some(i) => i < v.len() && v@[i as int].path@ == path@,
            None => forall|i: int| 0 <= i < v.len() ==> (#[trigger] v@[i]).path@ != path@,
        },
{
    let mut i: usize = 0;
    while i < v.len()
        invariant
            i <= v.len(),
            forall|k: int| 0 <= k < i ==> (#[trigger] v@[k]).path@ != path@,
        decreases v.len() - i,
    {
        if str_equal(v[i].path.as_str(), path) {
            return Some(i);
        }
        i = i + 1;
    }
    None
}

/// The totals held for `path`.
fn lookup_totals(v: &Vec<PreciseDirectoryProgressUpdate>, path: &str) -> (r: Option<(u64, u64)>)
    requires
        paths_unique(v@),
    ensures
        r == entry(totals_of(v@), path@),
{
    match find_path(v, path) {
        Some(i) => {
            proof {
                lemma_totals_value(v@, i as int);
            }
            Some((v[i].allocated_bytes, v[i].logical_bytes))
        },
        None => {
            proof {
                lemma_totals_absent(v@, path@);
            }
            None
        },
    }
}

/// Sets the totals held for `path`.
fn set_totals(v: &mut Vec<PreciseDirectoryProgressUpdate>, path: &str, allocated: u64, logical: u64)
    requires
        paths_unique(old(v)@),
    ensures
        paths_unique(final(v)@),
        totals_of(final(v)@) == totals_of(old(v)@).insert(path@, (allocated, logical)),
{
    let e = PreciseDirectoryProgressUpdate { path: path.to_string(), allocated_bytes: allocated, logical_bytes: logical };
    match find_path(v, path) {
        Some(i) => {
            proof {
                lemma_totals_update(v@, i as int, e);
            }
            v.set(i, e);
        },
        None => {
            let ghost before = v@;
            v.push(e);
            proof {
                assert(v@.drop_last() =~= before);
                assert forall|a: int, b: int| 0 <= a < b < v@.len() implies #[trigger] v@[a].path@
                    != #[trigger] v@[b].path@ by {
                    if b == v@.len() - 1 {
                        assert(v@[a] == before[a]);
                    } else {
                        assert(v@[a] == before[a] && v@[b] == before[b]);
                    }
                }
            }
        },
    }
}

impl PreciseScanProgress {
    /// Counts `count` more entries seen (held at `u64::MAX`) and returns the
    /// progress so far.
    pub fn add_entries(&mut self, count: u64) -> (r: PreciseScanProgress)
        ensures
            final(self).entries_visited == sat_add(old(self).entries_visited, count),
            final(self).files_visited == old(self).files_visited,
            final(self).directories_visited == old(self).directories_visited,
            final(self).bytes_measured == old(self).bytes_measured,
            r == *final(self),
    {
        self.entries_visited = self.entries_visited.saturating_add(count);
        *self
    }

    /// Counts one more directory visited (held at `u64::MAX`) and returns the
    /// progress so far.
    pub fn add_directory(&mut self) -> (r: PreciseScanProgress)
        ensures
            final(self).entries_visited == old(self).entries_visited,
            final(self).files_visited == old(self).files_visited,
            final(self).directories_visited == sat_add(old(self).directories_visited, 1),
            final(self).bytes_measured == old(self).bytes_measured,
            r == *final(self),
    {
        self.directories_visited = self.directories_visited.saturating_add(1);
        *self
    }

    /// Counts one more file and the bytes it occupies (each held at
    /// `u64::MAX`) and returns the progress so far.
    pub fn add_file(&mut self, allocated_bytes: u64) -> (r: PreciseScanProgress)
        ensures
            final(self).entries_visited == old(self).entries_visited,
            final(self).files_visited == sat_add(old(self).files_visited, 1),
            final(self).directories_visited == old(self).directories_visited,
            final(self).bytes_measured == sat_add(old(self).bytes_measured, allocated_bytes),
            r == *final(self),
    {
        self.files_visited = self.files_visited.saturating_add(1);
        self.bytes_measured = self.bytes_measured.saturating_add(allocated_bytes);
        *self
    }
}

/// The least time between two progress reports of a precise scan, in
/// milliseconds.
pub const PROGRESS_INTERVAL_MS: u64 = 250;

/// Whether a precise scan reports its progress now: only where someone
/// listens, and only once the interval has passed since the last report.
pub fn progress_publish_due(has_listener: bool, last_report_ms: u64, now_ms: u64) -> (r: bool)
    ensures
        r == (has_listener && sat_sub(now_ms, last_report_ms) >= PROGRESS_INTERVAL_MS),
{
    has_listener && now_ms.saturating_sub(last_report_ms) >= PROGRESS_INTERVAL_MS
}

/// Batches running directory totals during a precise scan. Times are
/// milliseconds on a clock of the caller's choosing that does not run
/// backwards.
pub struct LiveUpdateCollector {
    enabled: bool,
    throttle_ms: u64,
    min_bytes_delta: u64,
    max_batch_size: usize,
    current: Vec<PreciseDirectoryProgressUpdate>,
    last_emitted: Vec<PreciseDirectoryProgressUpdate>,
    pending: Vec<PreciseDirectoryProgressUpdate>,
    last_flush_ms: u64,
}

impl LiveUpdateCollector {
    /// Whether totals are reported at all.
    pub closed spec fn enabled(&self) -> bool {
        self.enabled
    }

    /// The least time between two flushes that the throttle asks for.
    pub closed spec fn throttle_ms(&self) -> u64 {
        self.throttle_ms
    }

    /// The least change of a total worth reporting.
    pub closed spec fn min_bytes_delta(&self) -> u64 {
        self.min_bytes_delta
    }

    /// The number of pending totals at which a batch is flushed.
    pub closed spec fn max_batch_size(&self) -> usize {
        self.max_batch_size
    }

    /// The running totals of every directory measured so far.
    pub closed spec fn current_totals(&self) -> Map<Seq<char>, (u64, u64)> {
        totals_of(self.current@)
    }

    /// The totals last reported, by directory.
    pub closed spec fn emitted_totals(&self) -> Map<Seq<char>, (u64, u64)> {
        totals_of(self.last_emitted@)
    }

    /// The totals waiting to be reported, by directory.
    pub closed spec fn pending_totals(&self) -> Map<Seq<char>, (u64, u64)> {
        totals_of(self.pending@)
    }

    /// When the last batch was flushed (or the collector made).
    pub closed spec fn flushed_at(&self) -> u64 {
        self.last_flush_ms
    }

    /// The collector's invariant: every directory has one entry in each
    /// table, and a batch holds at least one total.
    pub closed spec fn wf(&self) -> bool {
        &&& paths_unique(self.current@)
        &&& paths_unique(self.last_emitted@)
        &&& paths_unique(self.pending@)
        &&& self.max_batch_size >= 1
        &&& totals_ordered(totals_of(self.current@), totals_of(self.last_emitted@), totals_of(self.pending@))
    }

    /// The collector's settings are those of `other`.
    pub open spec fn same_settings(&self, other: &Self) -> bool {
        &&& self.enabled() == other.enabled()
        &&& self.throttle_ms() == other.throttle_ms()
        &&& self.min_bytes_delta() == other.min_bytes_delta()
        &&& self.max_batch_size() == other.max_batch_size()
    }

    /// A collector for a scan under `config`, started at `now_ms`, with
    /// nothing measured, reported or pending. A batch size of zero counts as
    /// one.
    pub fn new(config: &ScanConfig, now_ms: u64) -> (r: Self)
        ensures
            r.wf(),
            r.enabled() == config.live_updates.enabled,
            r.throttle_ms() == config.live_updates.throttle_ms,
            r.min_bytes_delta() == config.live_updates.min_bytes_delta,
            r.max_batch_size() == (if config.live_updates.max_batch_size == 0 {
                1
            } else {
                config.live_updates.max_batch_size
            }),
            r.current_totals() == Map::<Seq<char>, (u64, u64)>::empty(),
            r.emitted_totals() == Map::<Seq<char>, (u64, u64)>::empty(),
            r.pending_totals() == Map::<Seq<char>, (u64, u64)>::empty(),
            r.flushed_at() == now_ms,
    {
        let batch = if config.live_updates.max_batch_size == 0 {
            1
        } else {
            config.live_updates.max_batch_size
        };
        LiveUpdateCollector {
            enabled: config.live_updates.enabled,
            throttle_ms: config.live_updates.throttle_ms,
            min_bytes_delta: config.live_updates.min_bytes_delta,
            max_batch_size: batch,
            current: Vec::new(),
            last_emitted: Vec::new(),
            pending: Vec::new(),
            last_flush_ms: now_ms,
        }
    }

    /// Whether totals `(allocated, logical)` for `path` are worth reporting
    /// (`should_queue_spec` against what was last reported for it).
    pub fn should_queue(&self, path: &str, allocated: u64, logical: u64) -> (r: bool)
        requires
            self.wf(),
        ensures
            r == should_queue_spec(
                self.min_bytes_delta(),
                entry(self.emitted_totals(), path@),
                (allocated, logical),
            ),
    {
        if self.min_bytes_delta == 0 {
            return true;
        }
        match lookup_totals(&self.last_emitted, path) {
            None => allocated >= self.min_bytes_delta || logical >= self.min_bytes_delta,
            Some((last_allocated, last_logical)) => {
                allocated.saturating_sub(last_allocated) >= self.min_bytes_delta
                    || logical.saturating_sub(last_logical) >= self.min_bytes_delta
            },
        }
    }

    /// Reports the pending totals, if any, as one update with the scan's
    /// progress (`flushed`).
    pub fn flush(&mut self, stats: PreciseScanProgress, now_ms: u64) -> (r: Option<PreciseScanUpdate>)
        requires
            old(self).wf(),
        ensures
            final(self).wf(),
            final(self).same_settings(old(self)),
            final(self).current_totals() == old(self).current_totals(),
            flushed(
                old(self).pending_totals(),
                old(self).emitted_totals(),
                old(self).flushed_at(),
                stats,
                now_ms,
                r,
                final(self).pending_totals(),
                final(self).emitted_totals(),
                final(self).flushed_at(),
            ),
    {
        proof {
            lemma_totals_len(self.pending@);
        }
        if self.pending.len() == 0 {
            assert(self.pending@ =~= Seq::<PreciseDirectoryProgressUpdate>::empty());
            assert(totals_of(self.pending@).dom() =~= Set::<Seq<char>>::empty());
            return None;
        }
        assert(totals_of(self.pending@).dom() != Set::<Seq<char>>::empty()) by {
            lemma_totals_keys(self.pending@);
            assert(totals_of(self.pending@).dom().contains(self.pending@[0].path@));
        }
        let mut updates: Vec<PreciseDirectoryProgressUpdate> = Vec::new();
        std::mem::swap(&mut updates, &mut self.pending);
        let ghost start_last = totals_of(self.last_emitted@);
        let mut k: usize = 0;
        while k < updates.len()
            invariant
                k <= updates.len(),
                paths_unique(updates@),
                self.pending@.len() == 0,
                self.current@ == old(self).current@,
                self.enabled == old(self).enabled,
                self.throttle_ms == old(self).throttle_ms,
                self.min_bytes_delta == old(self).min_bytes_delta,
                self.max_batch_size == old(self).max_batch_size,
                self.last_flush_ms == old(self).last_flush_ms,
                paths_unique(self.current@),
                self.max_batch_size >= 1,
                paths_unique(self.last_emitted@),
                totals_of(self.last_emitted@) == start_last.union_prefer_right(
                    totals_of(updates@.take(k as int)),
                ),
            decreases updates.len() - k,
        {
            let ghost before = totals_of(self.last_emitted@);
            set_totals(&mut self.last_emitted, updates[k].path.as_str(), updates[k].allocated_bytes, updates[k].logical_bytes);
            proof {
                assert(updates@.take(k + 1).drop_last() =~= updates@.take(k as int));
                assert(totals_of(updates@.take(k + 1)) == totals_of(updates@.take(k as int)).insert(
                    updates@[k as int].path@,
                    totals(updates@[k as int]),
                ));
                assert(totals_of(self.last_emitted@) =~= start_last.union_prefer_right(
                    totals_of(updates@.take(k + 1)),
                ));
            }
            k = k + 1;
        }
        assert(updates@.take(updates.len() as int) =~= updates@);
        assert(totals_of(Seq::<PreciseDirectoryProgressUpdate>::empty()) =~= Map::<Seq<char>, (u64, u64)>::empty());
        assert(self.pending@ =~= Seq::<PreciseDirectoryProgressUpdate>::empty());
        self.last_flush_ms = now_ms;
        Some(PreciseScanUpdate { progress: stats, directory_updates: updates })
    }

    /// Adds bytes measured in a directory to its running total. Where totals
    /// are reported and a directory is given: the directory's totals grow
    /// (`added_totals`), are queued where worth reporting
    /// (`should_queue_spec`), and the pending batch is flushed (`flushed`)
    /// once it holds the batch size or the throttle time has passed since the
    /// last flush. Otherwise nothing changes.
    pub fn add_bytes(
        &mut self,
        path: Option<&str>,
        allocated_bytes: u64,
        logical_bytes: u64,
        stats: PreciseScanProgress,
        now_ms: u64,
    ) -> (r: Option<PreciseScanUpdate>)
        requires
            old(self).wf(),
        ensures
            final(self).wf(),
            final(self).same_settings(old(self)),
            !old(self).enabled() || path is None ==> r is None && *final(self) == *old(self),
            old(self).enabled() && path is Some ==> {
                let p = path->0@;
                let t = added_totals(old(self).current_totals(), p, allocated_bytes, logical_bytes);
                let queued = if should_queue_spec(
                    old(self).min_bytes_delta(),
                    entry(old(self).emitted_totals(), p),
                    t,
                ) {
                    old(self).pending_totals().insert(p, t)
                } else {
                    old(self).pending_totals()
                };
                let due = queued.dom().len() >= old(self).max_batch_size() || sat_sub(
                    now_ms,
                    old(self).flushed_at(),
                ) >= old(self).throttle_ms();
                &&& final(self).current_totals() == old(self).current_totals().insert(p, t)
                &&& due ==> flushed(
                    queued,
                    old(self).emitted_totals(),
                    old(self).flushed_at(),
                    stats,
                    now_ms,
                    r,
                    final(self).pending_totals(),
                    final(self).emitted_totals(),
                    final(self).flushed_at(),
                )
                &&& !due ==> r is None && final(self).pending_totals() == queued
                    && final(self).emitted_totals() == old(self).emitted_totals()
                    && final(self).flushed_at() == old(self).flushed_at()
            },
    {
        if !self.enabled {
            return None;
        }
        let p = match path {
            None => return None,
            Some(p) => p,
        };
        let (current_allocated, current_logical) = match lookup_totals(&self.current, p) {
            Some(t) => t,
            None => (0, 0),
        };
        let allocated = current_allocated.saturating_add(allocated_bytes);
        let logical = current_logical.saturating_add(logical_bytes);
        set_totals(&mut self.current, p, allocated, logical);
        if self.should_queue(p, allocated, logical) {
            set_totals(&mut self.pending, p, allocated, logical);
        }
        proof {
            lemma_totals_len(self.pending@);
        }
        let elapsed = now_ms.saturating_sub(self.last_flush_ms);
        if self.pending.len() >= self.max_batch_size || elapsed >= self.throttle_ms {
            return self.flush(stats, now_ms);
        }
        None
    }

    /// Queues every running total that differs from what was last reported,
    /// then flushes (`flushed`); nothing happens where totals are not
    /// reported.
    pub fn flush_all(&mut self, stats: PreciseScanProgress, now_ms: u64) -> (r: Option<PreciseScanUpdate>)
        requires
            old(self).wf(),
        ensures
            final(self).wf(),
            final(self).same_settings(old(self)),
            final(self).current_totals() == old(self).current_totals(),
            !old(self).enabled() ==> r is None && *final(self) == *old(self),
            old(self).enabled() ==> forall|p: Seq<char>|
                #[trigger] old(self).current_totals().contains_key(p) ==> final(self).emitted_totals().contains_key(p)
                    && final(self).emitted_totals()[p] == old(self).current_totals()[p],
            old(self).enabled() ==> flushed(
                old(self).pending_totals().union_prefer_right(
                    changed_totals(old(self).current_totals(), old(self).emitted_totals()),
                ),
                old(self).emitted_totals(),
                old(self).flushed_at(),
                stats,
                now_ms,
                r,
                final(self).pending_totals(),
                final(self).emitted_totals(),
                final(self).flushed_at(),
            ),
    {
        if !self.enabled {
            return None;
        }
        let ghost start_pending = totals_of(self.pending@);
        let ghost last = totals_of(self.last_emitted@);
        let mut k: usize = 0;
        while k < self.current.len()
            invariant
                k <= self.current.len(),
                self.wf(),
                self.current@ == old(self).current@,
                self.enabled == old(self).enabled,
                self.throttle_ms == old(self).throttle_ms,
                self.min_bytes_delta == old(self).min_bytes_delta,
                self.max_batch_size == old(self).max_batch_size,
                self.last_flush_ms == old(self).last_flush_ms,
                totals_of(self.last_emitted@) == last,
                totals_of(self.pending@) == start_pending.union_prefer_right(
                    changed_totals(totals_of(self.current@.take(k as int)), last),
                ),
            decreases self.current.len() - k,
        {
            let ghost before = totals_of(self.current@.take(k as int));
            let path = self.current[k].path.clone();
            let allocated = self.current[k].allocated_bytes;
            let logical = self.current[k].logical_bytes;
            let reported = lookup_totals(&self.last_emitted, path.as_str());
            let differs = match reported {
                None => true,
                Some((a, l)) => a != allocated || l != logical,
            };
            proof {
                lemma_totals_value(self.current@, k as int);
                assert(self.current@.take(k + 1).drop_last() =~= self.current@.take(k as int));
                lemma_unique_prefix(self.current@, k as int);
                lemma_totals_keys(self.current@.take(k as int));
                if before.contains_key(path@) {
                    let i = choose|i: int|
                        0 <= i < k && #[trigger] self.current@.take(k as int)[i].path@ == path@;
                    assert(self.current@[i].path@ == self.current@[k as int].path@);
                }
            }
            if differs {
                set_totals(&mut self.pending, path.as_str(), allocated, logical);
                proof {
                    assert(totals_of(self.pending@) =~= start_pending.union_prefer_right(
                        changed_totals(totals_of(self.current@.take(k + 1)), last),
                    ));
                }
            } else {
                proof {
                    assert(totals_of(self.pending@) =~= start_pending.union_prefer_right(
                        changed_totals(totals_of(self.current@.take(k + 1)), last),
                    ));
                }
            }
            k = k + 1;
        }
        assert(self.current@.take(self.current.len() as int) =~= self.current@);
        let r = self.flush(stats, now_ms);
        proof {
            flush_all_reports_every_total(
                totals_of(old(self).current@),
                totals_of(old(self).last_emitted@),
                totals_of(old(self).pending@),
                old(self).last_flush_ms,
                stats,
                now_ms,
                r,
                totals_of(self.pending@),
                totals_of(self.last_emitted@),
                self.last_flush_ms,
            );
        }
        r
    }
}

/// A flush leaves nothing pending, so a flush right after it reports nothing
/// and changes nothing.
pub proof fn flush_after_flush_reports_nothing(
    pending: Map<Seq<char>, (u64, u64)>,
    last: Map<Seq<char>, (u64, u64)>,
    flushed_at: u64,
    stats: PreciseScanProgress,
    now_ms: u64,
    r: Option<PreciseScanUpdate>,
    pending1: Map<Seq<char>, (u64, u64)>,
    last1: Map<Seq<char>, (u64, u64)>,
    flushed_at1: u64,
    stats2: PreciseScanProgress,
    now2_ms: u64,
    r2: Option<PreciseScanUpdate>,
    pending2: Map<Seq<char>, (u64, u64)>,
    last2: Map<Seq<char>, (u64, u64)>,
    flushed_at2: u64,
)
    requires
        flushed(pending, last, flushed_at, stats, now_ms, r, pending1, last1, flushed_at1),
        flushed(pending1, last1, flushed_at1, stats2, now2_ms, r2, pending2, last2, flushed_at2),
    ensures
        r2 is None,
        pending2 == pending1,
        last2 == last1,
        flushed_at2 == flushed_at1,
{
    if pending.dom() != Set::<Seq<char>>::empty() {
        assert(pending1.dom() =~= Set::<Seq<char>>::empty());
    }
}

/// Flushing everything leaves every running total reported: after a flush
/// of the pending totals and of every total that differs from what was
/// reported (as `flush_all` does), what was last reported for each measured
/// directory is its running total.
pub proof fn flush_all_reports_every_total(
    current: Map<Seq<char>, (u64, u64)>,
    last: Map<Seq<char>, (u64, u64)>,
    pending: Map<Seq<char>, (u64, u64)>,
    flushed_at: u64,
    stats: PreciseScanProgress,
    now_ms: u64,
    r: Option<PreciseScanUpdate>,
    new_pending: Map<Seq<char>, (u64, u64)>,
    new_last: Map<Seq<char>, (u64, u64)>,
    new_flushed_at: u64,
)
    requires
        totals_ordered(current, last, pending),
        flushed(
            pending.union_prefer_right(changed_totals(current, last)),
            last,
            flushed_at,
            stats,
            now_ms,
            r,
            new_pending,
            new_last,
            new_flushed_at,
        ),
    ensures
        forall|p: Seq<char>| #[trigger] current.contains_key(p) ==> new_last.contains_key(p) && new_last[p] == current[p],
{
    let queued = pending.union_prefer_right(changed_totals(current, last));
    assert forall|p: Seq<char>| #[trigger] current.contains_key(p) implies new_last.contains_key(p) && new_last[p]
        == current[p] by {
        let changed = changed_totals(current, last);
        if changed.contains_key(p) {
            assert(queued.contains_key(p));
            if queued.dom() != Set::<Seq<char>>::empty() {
                assert(new_last == last.union_prefer_right(queued));
            } else {
                assert(queued.dom().contains(p));
            }
        } else {
            assert(last.contains_key(p) && last[p] == current[p]);
            if pending.contains_key(p) {
                assert(le_totals(last[p], pending[p]) && le_totals(pending[p], current[p]));
                assert(pending[p] == current[p]);
                assert(queued.contains_key(p));
            }
        }
    }
}

} // verus!



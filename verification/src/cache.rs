//! The per-path cache of directory listings and of directory totals.
use vstd::prelude::*;

use crate::driver::{DirectoryListing, DirectorySizeSummary, NodeState, PreciseDirectoryScan};
use crate::keys::{path_key, path_key_spec};
use vstd::hash_map::StringHashMap;
use crate::lexical::{
    components, comps_lt, comps_view, lemma_comps_lt_total, lemma_comps_lt_transitive,
    path_components, path_eq, path_eq_spec, path_starts_with, path_starts_with_spec,
};
use crate::text::str_equal;

verus! {

/// A point in wall-clock time (std `SystemTime`).
#[verifier::external_type_specification]
#[verifier::external_body]
pub struct ExSystemTime(std::time::SystemTime);

/// The current wall-clock time (std `SystemTime::now`). Nothing is stated of it.
#[verifier::external_body]
pub(crate) fn system_time_now() -> std::time::SystemTime {
    std::time::SystemTime::now()
}

/// How current a cached listing is.
#[derive(Debug, Clone, Copy, PartialEq, Eq, Structural)]
pub enum CacheFreshness {
    Fresh,
    Partial,
    Stale,
    Invalidating,
    Missing,
}

/// One cached listing.
#[derive(Debug)]
pub struct DirectoryCacheEntry {
    pub path: String,
    pub config_fingerprint: String,
    pub listing: DirectoryListing,
    pub freshness: CacheFreshness,
    pub active_jobs: Vec<String>,
    pub generation: u64,
    pub updated_at: std::time::SystemTime,
}

/// The same texts in the same order.
pub open spec fn texts_same(a: Seq<String>, b: Seq<String>) -> bool {
    a.len() == b.len() && forall|i: int| 0 <= i < a.len() ==> #[trigger] a[i]@ == b[i]@
}

fn copy_texts(v: &Vec<String>) -> (r: Vec<String>)
    ensures
        texts_same(r@, v@),
{
    let mut r: Vec<String> = Vec::new();
    let mut i: usize = 0;
    while i < v.len()
        invariant
            i <= v.len(),
            r@.len() == i,
            forall|j: int| 0 <= j < i ==> #[trigger] r@[j]@ == v@[j]@,
        decreases v.len() - i,
    {
        r.push(v[i].clone());
        i = i + 1;
    }
    r
}

impl DirectoryCacheEntry {
    /// The same entry.
    pub open spec fn same(self, other: DirectoryCacheEntry) -> bool {
        &&& self.path@ == other.path@
        &&& self.config_fingerprint@ == other.config_fingerprint@
        &&& self.listing.same(other.listing)
        &&& self.freshness == other.freshness
        &&& texts_same(self.active_jobs@, other.active_jobs@)
        &&& self.generation == other.generation
        &&& self.updated_at == other.updated_at
    }

    /// A copy of this entry.
    pub fn copy(&self) -> (r: Self)
        ensures
            r.same(*self),
    {
        DirectoryCacheEntry {
            path: self.path.clone(),
            config_fingerprint: self.config_fingerprint.clone(),
            listing: self.listing.copy(),
            freshness: self.freshness,
            active_jobs: copy_texts(&self.active_jobs),
            generation: self.generation,
            updated_at: self.updated_at,
        }
    }
}

/// The entry is cached under `path` (as a path) and `fingerprint`.
pub open spec fn entry_has_key(e: DirectoryCacheEntry, path: Seq<char>, fingerprint: Seq<char>) -> bool {
    path_eq_spec(e.path@, path) && e.config_fingerprint@ == fingerprint
}

/// Where an upsert of `listing` put the entry `r`: in place of the entry of
/// the listing's path and fingerprint when there was one, else at the end;
/// every other entry is as it was.
pub open spec fn upsert_effect(
    before: Seq<DirectoryCacheEntry>,
    after: Seq<DirectoryCacheEntry>,
    listing: DirectoryListing,
    r: DirectoryCacheEntry,
) -> bool {
    match find_entry(before, listing.path@, listing.config_fingerprint@) {
        Some(i) => {
            &&& after.len() == before.len()
            &&& r.same(after[i])
            &&& forall|j: int| 0 <= j < before.len() && j != i ==> #[trigger] after[j] == before[j]
        },
        None => {
            &&& after.len() == before.len() + 1
            &&& r.same(after.last())
            &&& forall|j: int| 0 <= j < before.len() ==> #[trigger] after[j] == before[j]
        },
    }
}

/// Invalidating `path` reaches an entry: the entry's path is `path`, or lies
/// under it when descendants are included.
pub open spec fn stale_reaches(e: DirectoryCacheEntry, path: Seq<char>, descendants: bool) -> bool {
    if descendants {
        path_starts_with_spec(e.path@, path)
    } else {
        path_eq_spec(e.path@, path)
    }
}

/// The cache of listings and directory totals, one per path and configuration.
pub struct DirectoryCache {
    entries: Vec<DirectoryCacheEntry>,
    summaries: StringHashMap<DirectorySizeSummary>,
    next_generation: u64,
}

/// The index of the entry cached under a key.
pub open spec fn find_entry(entries: Seq<DirectoryCacheEntry>, path: Seq<char>, fingerprint: Seq<char>) -> Option<int> {
    if exists|i: int| 0 <= i < entries.len() && entry_has_key(entries[i], path, fingerprint) {
        Some(choose|i: int| 0 <= i < entries.len() && entry_has_key(entries[i], path, fingerprint))
    } else {
        None
    }
}

/// The summaries after storing `batch` in order into `m`: each under its path
/// key, a later one replacing an earlier one with the same key.
pub open spec fn stored_summaries(
    m: Map<Seq<char>, DirectorySizeSummary>,
    batch: Seq<DirectorySizeSummary>,
) -> Map<Seq<char>, DirectorySizeSummary>
    decreases batch.len(),
{
    if batch.len() == 0 {
        m
    } else {
        let last = batch.last();
        stored_summaries(m, batch.drop_last()).insert(
            path_key_spec(last.path@, last.config_fingerprint@),
            last,
        )
    }
}

impl Default for DirectoryCache {
    fn default() -> (r: Self)
        ensures
            r.wf(),
            r.entries_view().len() == 0,
            r.summaries_view() == Map::<Seq<char>, DirectorySizeSummary>::empty(),
            r.generation() == 0,
    {
        DirectoryCache::new()
    }
}

impl DirectoryCache {
    /// The cached entries.
    pub closed spec fn entries_view(&self) -> Seq<DirectoryCacheEntry> {
        self.entries@
    }

    /// The recorded directory totals.
    pub closed spec fn summaries_view(&self) -> Map<Seq<char>, DirectorySizeSummary> {
        self.summaries@
    }

    /// The directory total recorded for `path` (as a path) under `fingerprint`.
    pub open spec fn summary_for(&self, path: Seq<char>, fingerprint: Seq<char>) -> Option<
        DirectorySizeSummary,
    > {
        if self.summaries_view().contains_key(path_key_spec(path, fingerprint)) {
            Some(self.summaries_view()[path_key_spec(path, fingerprint)])
        } else {
            None
        }
    }

    /// The generation given to the latest stored listing.
    pub closed spec fn generation(&self) -> u64 {
        self.next_generation
    }

    /// No two entries, and no two summaries, share a key, and no entry's
    /// listing is of a later generation than the latest one given.
    pub closed spec fn wf(&self) -> bool {
        &&& forall|i: int|
            0 <= i < self.entries@.len() ==> (#[trigger] self.entries@[i]).listing.generation
                <= self.next_generation
        &&& forall|i: int, j: int|
            0 <= i < j < self.entries@.len() ==> !entry_has_key(
                #[trigger] self.entries@[j],
                (#[trigger] self.entries@[i]).path@,
                self.entries@[i].config_fingerprint@,
            )
        &&& forall|k: Seq<char>|
            #[trigger] self.summaries@.contains_key(k) ==> k == path_key_spec(
                self.summaries@[k].path@,
                self.summaries@[k].config_fingerprint@,
            )
    }

    /// An empty cache.
    pub fn new() -> (r: Self)
        ensures
            r.wf(),
            r.entries_view().len() == 0,
            r.summaries_view() == Map::<Seq<char>, DirectorySizeSummary>::empty(),
            r.generation() == 0,
    {
        DirectoryCache { entries: Vec::new(), summaries: StringHashMap::new(), next_generation: 0 }
    }

    fn find(&self, path: &str, config_fingerprint: &str) -> (r: Option<usize>)
        ensures
            match r {
                Some(i) => i < self.entries@.len() && entry_has_key(
                    self.entries@[i as int],
                    path@,
                    config_fingerprint@,
                ),
                None => find_entry(self.entries@, path@, config_fingerprint@) is None,
            },
    {
        let mut i: usize = 0;
        while i < self.entries.len()
            invariant
                i <= self.entries.len(),
                forall|j: int|
                    0 <= j < i ==> !entry_has_key(self.entries@[j], path@, config_fingerprint@),
            decreases self.entries.len() - i,
        {
            if path_eq(&self.entries[i].path, path) && str_equal(
                &self.entries[i].config_fingerprint,
                config_fingerprint,
            ) {
                return Some(i);
            }
            i = i + 1;
        }
        None
    }

    proof fn lemma_find_unique(&self, i: int, path: Seq<char>, fingerprint: Seq<char>)
        requires
            self.wf(),
            0 <= i < self.entries@.len(),
            entry_has_key(self.entries@[i], path, fingerprint),
        ensures
            find_entry(self.entries@, path, fingerprint) == Some(i),
    {
        let k = choose|k: int|
            0 <= k < self.entries@.len() && entry_has_key(self.entries@[k], path, fingerprint);
        if k != i {
            let (a, b) = if k < i {
                (k, i)
            } else {
                (i, k)
            };
            assert(entry_has_key(self.entries@[b], self.entries@[a].path@, self.entries@[a].config_fingerprint@));
        }
    }

    /// The entry cached for `path` under `config_fingerprint`.
    pub fn get(&self, path: &str, config_fingerprint: &str) -> (r: Option<DirectoryCacheEntry>)
        requires
            self.wf(),
        ensures
            match find_entry(self.entries_view(), path@, config_fingerprint@) {
                Some(i) => r matches Some(e) && e.same(self.entries_view()[i]),
                None => r is None,
            },
    {
        match self.find(path, config_fingerprint) {
            Some(i) => {
                proof {
                    self.lemma_find_unique(i as int, path@, config_fingerprint@);
                }
                Some(self.entries[i].copy())
            },
            None => None,
        }
    }

    /// Stores a listing under its own path and fingerprint, replacing what was
    /// there. The listing gets the next generation (saturating), becomes
    /// `freshness`, has no active jobs, and is returned as stored.
    pub fn upsert(&mut self, listing: DirectoryListing, freshness: CacheFreshness) -> (r: DirectoryCacheEntry)
        requires
            old(self).wf(),
        ensures
            final(self).wf(),
            final(self).generation() == old(self).generation().saturating_add(1),
            final(self).summaries_view() == old(self).summaries_view(),
            r.generation == final(self).generation(),
            r.path@ == listing.path@,
            r.config_fingerprint@ == listing.config_fingerprint@,
            r.listing.same(DirectoryListing { generation: final(self).generation(), ..listing }),
            r.freshness == freshness,
            r.active_jobs@.len() == 0,
            find_entry(final(self).entries_view(), listing.path@, listing.config_fingerprint@) matches Some(
                k,
            ) && r.same(final(self).entries_view()[k]),
            upsert_effect(old(self).entries_view(), final(self).entries_view(), listing, r),
    {
        self.next_generation = self.next_generation.saturating_add(1);
        let mut listing = listing;
        listing.generation = self.next_generation;
        let entry = DirectoryCacheEntry {
            path: listing.path.clone(),
            config_fingerprint: listing.config_fingerprint.clone(),
            listing,
            freshness,
            active_jobs: Vec::new(),
            generation: self.next_generation,
            updated_at: system_time_now(),
        };
        let result = entry.copy();
        let ghost old_entries = self.entries@;
        assert(old(self).entries_view() == old_entries);
        match self.find(&entry.path, &entry.config_fingerprint) {
            Some(i) => {
                proof {
                    self.lemma_find_unique(i as int, entry.path@, entry.config_fingerprint@);
                }
                self.entries.set(i, entry);
                assert forall|a: int, b: int|
                    0 <= a < b < self.entries@.len() implies !entry_has_key(
                    self.entries@[b],
                    self.entries@[a].path@,
                    self.entries@[a].config_fingerprint@,
                ) by {
                    if a == i {
                        assert(!entry_has_key(old_entries[b], old_entries[a].path@, old_entries[a].config_fingerprint@));
                    } else if b == i {
                        assert(!entry_has_key(old_entries[b], old_entries[a].path@, old_entries[a].config_fingerprint@));
                    }
                }
                proof {
                    self.lemma_find_unique(i as int, result.path@, result.config_fingerprint@);
                }
            },
            None => {
                self.entries.push(entry);
                assert forall|a: int, b: int|
                    0 <= a < b < self.entries@.len() implies !entry_has_key(
                    self.entries@[b],
                    self.entries@[a].path@,
                    self.entries@[a].config_fingerprint@,
                ) by {
                    if b == old_entries.len() {
                        assert(!entry_has_key(old_entries[a], self.entries@[b].path@, self.entries@[b].config_fingerprint@));
                    }
                }
                proof {
                    self.lemma_find_unique(
                        old_entries.len() as int,
                        result.path@,
                        result.config_fingerprint@,
                    );
                }
            },
        }
        assert(self.entries_view() == self.entries@);
        result
    }

    /// The directory total recorded for `path` under `config_fingerprint`.
    pub fn get_summary(&self, path: &str, config_fingerprint: &str) -> (r: Option<DirectorySizeSummary>)
        requires
            self.wf(),
        ensures
            match self.summary_for(path@, config_fingerprint@) {
                Some(s) => r matches Some(x) && x.same(s),
                None => r is None,
            },
    {
        let key = path_key(path, config_fingerprint);
        match self.summaries.get(key.as_str()) {
            Some(summary) => Some(summary.copy()),
            None => None,
        }
    }

    /// Records a directory total under its own path and fingerprint, replacing
    /// what was there.
    fn store_summary(&mut self, summary: DirectorySizeSummary)
        requires
            old(self).wf(),
        ensures
            final(self).wf(),
            final(self).entries@ == old(self).entries@,
            final(self).next_generation == old(self).next_generation,
            final(self).summaries@ == old(self).summaries@.insert(
                path_key_spec(summary.path@, summary.config_fingerprint@),
                summary,
            ),
    {
        let key = path_key(&summary.path, &summary.config_fingerprint);
        self.summaries.insert(key, summary);
    }

    /// Stores the outcome of a precise scan: every directory total of the scan,
    /// in order, then the listing as `upsert` stores it.
    pub fn upsert_precise(&mut self, precise: PreciseDirectoryScan, freshness: CacheFreshness) -> (r:
        DirectoryCacheEntry)
        requires
            old(self).wf(),
        ensures
            final(self).wf(),
            final(self).generation() == old(self).generation().saturating_add(1),
            final(self).summaries_view() == stored_summaries(
                old(self).summaries_view(),
                precise.summaries@,
            ),
            r.generation == final(self).generation(),
            r.path@ == precise.listing.path@,
            r.config_fingerprint@ == precise.listing.config_fingerprint@,
            r.listing.same(DirectoryListing { generation: final(self).generation(), ..precise.listing }),
            r.freshness == freshness,
            r.active_jobs@.len() == 0,
            find_entry(
                final(self).entries_view(),
                precise.listing.path@,
                precise.listing.config_fingerprint@,
            ) matches Some(k) && r.same(final(self).entries_view()[k]),
            match find_entry(
                old(self).entries_view(),
                precise.listing.path@,
                precise.listing.config_fingerprint@,
            ) {
                Some(i) => {
                    &&& final(self).entries_view().len() == old(self).entries_view().len()
                    &&& r.same(final(self).entries_view()[i])
                    &&& forall|j: int|
                        0 <= j < old(self).entries_view().len() && j != i
                            ==> #[trigger] final(self).entries_view()[j] == old(self).entries_view()[j]
                },
                None => {
                    &&& final(self).entries_view().len() == old(self).entries_view().len() + 1
                    &&& r.same(final(self).entries_view().last())
                    &&& forall|j: int|
                        0 <= j < old(self).entries_view().len()
                            ==> #[trigger] final(self).entries_view()[j] == old(self).entries_view()[j]
                },
            },
    {
        let PreciseDirectoryScan { listing, summaries, profile: _ } = precise;
        let ghost batch = summaries@;
        let ghost start = self.summaries@;
        for summary in it: summaries.into_iter()
            invariant
                self.wf(),
                self.entries@ == old(self).entries@,
                self.next_generation == old(self).next_generation,
                start == old(self).summaries@,
                batch == it.seq(),
                self.summaries@ == stored_summaries(start, it.seq().take(it.index() as int)),
        {
            proof {
                assert(it.seq().take(it.index() + 1).drop_last() =~= it.seq().take(it.index() as int));
                assert(it.seq().take(it.index() + 1).last() == summary);
            }
            self.store_summary(summary);
        }
        proof {
            assert(batch.take(batch.len() as int) =~= batch);
        }
        assert(self.summaries_view() == stored_summaries(old(self).summaries_view(), batch));
        assert(self.entries_view() == old(self).entries_view());
        self.upsert(listing, freshness)
    }

    /// Marks stale every entry that invalidating `path` reaches (the path
    /// itself, and what lies under it when `descendants`): its freshness and its
    /// listing's state become `Stale`. Every other entry is left as it was.
    /// Returns the invalidated paths in path order, each path once.
    pub fn mark_stale(&mut self, path: &str, descendants: bool) -> (r: Vec<String>)
        requires
            old(self).wf(),
        ensures
            final(self).wf(),
            final(self).generation() == old(self).generation(),
            final(self).summaries_view() == old(self).summaries_view(),
            final(self).entries_view().len() == old(self).entries_view().len(),
            forall|i: int|
                0 <= i < old(self).entries_view().len() ==> #[trigger] final(self).entries_view()[i]
                    == staled(old(self).entries_view()[i], path@, descendants),
            paths_sorted(r@),
            forall|k: int|
                0 <= k < r@.len() ==> is_invalidated_path(
                    old(self).entries_view(),
                    path@,
                    descendants,
                    #[trigger] r@[k]@,
                ),
            forall|i: int|
                0 <= i < old(self).entries_view().len() && stale_reaches(
                    #[trigger] old(self).entries_view()[i],
                    path@,
                    descendants,
                ) ==> lists_path(r@, old(self).entries_view()[i].path@),
    {
        let ghost start = self.entries@;
        let mut out: Vec<String> = Vec::new();
        let ghost mut src: Seq<int> = Seq::empty();
        let ghost mut dst: Seq<int> = Seq::empty();
        let mut i: usize = 0;
        while i < self.entries.len()
            invariant
                i <= self.entries.len(),
                self.entries@.len() == start.len(),
                self.summaries@ == old(self).summaries@,
                self.next_generation == old(self).next_generation,
                start == old(self).entries@,
                forall|k: int| i <= k < start.len() ==> #[trigger] self.entries@[k] == start[k],
                forall|k: int| 0 <= k < i ==> #[trigger] self.entries@[k] == staled(start[k], path@, descendants),
                paths_sorted(out@),
                src.len() == out@.len(),
                dst.len() == i,
                forall|k: int|
                    0 <= k < out@.len() ==> 0 <= #[trigger] src[k] < i && stale_reaches(
                        start[src[k]],
                        path@,
                        descendants,
                    ) && out@[k]@ == start[src[k]].path@,
                forall|j: int|
                    0 <= j < i && stale_reaches(#[trigger] start[j], path@, descendants) ==> 0 <= dst[j]
                        < out@.len() && path_eq_spec(out@[dst[j]]@, start[j].path@),
            decreases self.entries.len() - i,
        {
            let affected = if descendants {
                path_starts_with(&self.entries[i].path, path)
            } else {
                path_eq(&self.entries[i].path, path)
            };
            if affected {
                let entry_path = self.entries[i].path.clone();
                let ghost before = out@;
                let (k, inserted) = insert_sorted_unique(&mut out, entry_path);
                proof {
                    if inserted {
                        assert(out@ == before.insert(k as int, out@[k as int]));
                        before.insert_ensures(k as int, out@[k as int]);
                        src.insert_ensures(k as int, i as int);
                        src = src.insert(k as int, i as int);
                        dst = Seq::new(
                            (i + 1) as nat,
                            |j: int|
                                if j == i {
                                    k as int
                                } else if dst[j] >= k {
                                    dst[j] + 1
                                } else {
                                    dst[j]
                                },
                        );
                        assert forall|m: int| 0 <= m < out@.len() implies 0 <= #[trigger] src[m] < i + 1
                            && stale_reaches(start[src[m]], path@, descendants) && out@[m]@
                            == start[src[m]].path@ by {
                            if m > k {
                                assert(out@[m] == before[m - 1]);
                            } else if m < k {
                                assert(out@[m] == before[m]);
                            }
                        }
                        assert forall|j: int|
                            0 <= j < i + 1 && stale_reaches(#[trigger] start[j], path@, descendants) implies 0
                                <= dst[j] < out@.len() && path_eq_spec(out@[dst[j]]@, start[j].path@) by {
                            if j < i {
                                let d = if dst[j] >= k { dst[j] - 1 } else { dst[j] };
                                assert(out@[dst[j]] == before[d]);
                            }
                        }
                    } else {
                        dst = dst.push(k as int);
                        assert forall|j: int|
                            0 <= j < i + 1 && stale_reaches(#[trigger] start[j], path@, descendants) implies 0
                                <= dst[j] < out@.len() && path_eq_spec(out@[dst[j]]@, start[j].path@) by {
                            if j == i {
                                assert(path_eq_spec(out@[k as int]@, start[j].path@));
                            }
                        }
                    }
                }
                let mut entry = self.entries.remove(i);
                entry.freshness = CacheFreshness::Stale;
                entry.listing.state = NodeState::Stale;
                self.entries.insert(i, entry);
            } else {
                proof {
                    dst = dst.push(0);
                }
            }
            i = i + 1;
        }
        assert(old(self).entries_view() == start);
        assert forall|k: int| 0 <= k < out@.len() implies is_invalidated_path(
            old(self).entries_view(),
            path@,
            descendants,
            #[trigger] out@[k]@,
        ) by {
            assert(old(self).entries_view()[src[k]] == start[src[k]]);
        }
        assert forall|j: int|
            0 <= j < old(self).entries_view().len() && stale_reaches(
                #[trigger] old(self).entries_view()[j],
                path@,
                descendants,
            ) implies lists_path(out@, old(self).entries_view()[j].path@) by {
            assert(old(self).entries_view()[j] == start[j]);
            assert(path_eq_spec(out@[dst[j]]@, start[j].path@));
        }
        assert forall|a: int, b: int|
            0 <= a < b < self.entries@.len() implies !entry_has_key(
            self.entries@[b],
            self.entries@[a].path@,
            self.entries@[a].config_fingerprint@,
        ) by {
            assert(self.entries@[a] == staled(start[a], path@, descendants));
            assert(self.entries@[b] == staled(start[b], path@, descendants));
            assert(!entry_has_key(start[b], start[a].path@, start[a].config_fingerprint@));
        }
        assert(self.entries_view() == self.entries@);
        out
    }
}

/// `p` is the path of an entry that invalidating `path` reaches.
pub open spec fn is_invalidated_path(
    entries: Seq<DirectoryCacheEntry>,
    path: Seq<char>,
    descendants: bool,
    p: Seq<char>,
) -> bool {
    exists|i: int|
        0 <= i < entries.len() && stale_reaches(#[trigger] entries[i], path, descendants) && p
            == entries[i].path@
}

/// Some path of `paths` is equal, as a path, to `p`.
pub open spec fn lists_path(paths: Seq<String>, p: Seq<char>) -> bool {
    exists|k: int| 0 <= k < paths.len() && path_eq_spec(#[trigger] paths[k]@, p)
}

/// An entry after invalidating `path`: marked stale when the invalidation
/// reaches it, unchanged otherwise.
pub open spec fn staled(e: DirectoryCacheEntry, path: Seq<char>, descendants: bool) -> DirectoryCacheEntry {
    if stale_reaches(e, path, descendants) {
        DirectoryCacheEntry {
            freshness: CacheFreshness::Stale,
            listing: DirectoryListing { state: NodeState::Stale, ..e.listing },
            ..e
        }
    } else {
        e
    }
}

/// Paths in strict path order (so no two are equal as paths).
pub open spec fn paths_sorted(s: Seq<String>) -> bool {
    forall|a: int, b: int| 0 <= a < b < s.len() ==> comps_lt(components(#[trigger] s[a]@), components(#[trigger] s[b]@))
}

/// Inserts `p` into a list of paths kept in strict path order, unless an equal
/// path is already there. Returns where `p` stands, or where the equal path
/// stands, and whether `p` was inserted.
fn insert_sorted_unique(out: &mut Vec<String>, p: String) -> (r: (usize, bool))
    requires
        paths_sorted(old(out)@),
    ensures
        paths_sorted(final(out)@),
        r.0 < final(out)@.len(),
        r.0 <= old(out)@.len(),
        if r.1 {
            final(out)@ == old(out)@.insert(r.0 as int, p)
        } else {
            final(out)@ == old(out)@ && path_eq_spec(old(out)@[r.0 as int]@, p@)
        },
{
    let pc = path_components(&p);
    let mut k: usize = 0;
    let mut stop = false;
    let mut equal = false;
    while !stop && k < out.len()
        invariant
            k <= out@.len(),
            comps_view(pc@) == components(p@),
            forall|j: int| 0 <= j < k ==> comps_lt(components(#[trigger] out@[j]@), components(p@)),
            stop ==> k < out@.len() && !comps_lt(components(out@[k as int]@), components(p@)) && equal
                == (components(out@[k as int]@) == components(p@)),
            !stop ==> !equal,
        decreases out@.len() - k + (if stop { 0int } else { 1int }),
    {
        let ck = path_components(&out[k]);
        if crate::lexical::components_less(&ck, &pc) {
            k = k + 1;
        } else {
            equal = crate::lexical::components_equal(&ck, &pc);
            stop = true;
        }
    }
    if equal {
        return (k, false);
    }
    let ghost old_out = out@;
    if k < out.len() {
        proof {
            lemma_comps_lt_total(components(old_out[k as int]@), components(p@));
        }
    }
    out.insert(k, p);
    assert(out@[k as int]@ == p@);
    assert forall|a: int, b: int| 0 <= a < b < out@.len() implies comps_lt(
        components(#[trigger] out@[a]@),
        components(#[trigger] out@[b]@),
    ) by {
        if b < k {
            assert(out@[a] == old_out[a] && out@[b] == old_out[b]);
            assert(comps_lt(components(old_out[a]@), components(old_out[b]@)));
        } else if b == k {
            assert(out@[a] == old_out[a]);
            assert(comps_lt(components(old_out[a]@), components(p@)));
        } else if a < k {
            assert(out@[a] == old_out[a] && out@[b] == old_out[b - 1]);
            assert(comps_lt(components(old_out[a]@), components(old_out[b - 1]@)));
        } else if a == k {
            assert(out@[b] == old_out[b - 1]);
            if k < b - 1 {
                assert(comps_lt(components(old_out[k as int]@), components(old_out[b - 1]@)));
                lemma_comps_lt_transitive(
                    components(p@),
                    components(old_out[k as int]@),
                    components(old_out[b - 1]@),
                );
            }
        } else {
            assert(out@[a] == old_out[a - 1] && out@[b] == old_out[b - 1]);
            assert(comps_lt(components(old_out[a - 1]@), components(old_out[b - 1]@)));
        }
    }
    (k, true)
}

/// Storing a batch of directory totals leaves the total of every other
/// directory as it was: where no summary of the batch is for `path` (as a
/// path) under `fingerprint`, the total recorded for them is unchanged.
pub proof fn storing_summaries_keeps_unrelated(
    m: Map<Seq<char>, DirectorySizeSummary>,
    batch: Seq<DirectorySizeSummary>,
    path: Seq<char>,
    fingerprint: Seq<char>,
)
    requires
        forall|i: int|
            0 <= i < batch.len() ==> !(components((#[trigger] batch[i]).path@) == components(path)
                && batch[i].config_fingerprint@ == fingerprint),
    ensures
        stored_summaries(m, batch).contains_key(path_key_spec(path, fingerprint)) == m.contains_key(
            path_key_spec(path, fingerprint),
        ),
        m.contains_key(path_key_spec(path, fingerprint)) ==> stored_summaries(m, batch)[path_key_spec(
            path,
            fingerprint,
        )] == m[path_key_spec(path, fingerprint)],
    decreases batch.len(),
{
    if batch.len() > 0 {
        let last = batch.last();
        let rest = batch.drop_last();
        assert forall|i: int|
            0 <= i < rest.len() implies !(components((#[trigger] rest[i]).path@) == components(path)
            && rest[i].config_fingerprint@ == fingerprint) by {
            assert(rest[i] == batch[i]);
        }
        storing_summaries_keeps_unrelated(m, rest, path, fingerprint);
        assert(batch[batch.len() - 1] == last);
        crate::keys::lemma_path_key_unique(last.path@, last.config_fingerprint@, path, fingerprint);
    }
}

/// The last summary stored for a directory is the one read back: after
/// storing a batch, the total recorded for the path and configuration of its
/// last summary is that summary.
pub proof fn last_stored_summary_is_read_back(
    m: Map<Seq<char>, DirectorySizeSummary>,
    batch: Seq<DirectorySizeSummary>,
)
    requires
        batch.len() > 0,
    ensures
        stored_summaries(m, batch).contains_key(
            path_key_spec(batch.last().path@, batch.last().config_fingerprint@),
        ),
        stored_summaries(m, batch)[path_key_spec(
            batch.last().path@,
            batch.last().config_fingerprint@,
        )] == batch.last(),
{
}

proof fn lemma_key_unique(c: DirectoryCache, i: int, j: int, path: Seq<char>, fingerprint: Seq<char>)
    requires
        c.wf(),
        0 <= i < c.entries_view().len(),
        0 <= j < c.entries_view().len(),
        entry_has_key(c.entries_view()[i], path, fingerprint),
        entry_has_key(c.entries_view()[j], path, fingerprint),
    ensures
        i == j,
{
    if i < j {
        assert(entry_has_key(c.entries@[j], c.entries@[i].path@, c.entries@[i].config_fingerprint@));
    } else if j < i {
        assert(entry_has_key(c.entries@[i], c.entries@[j].path@, c.entries@[j].config_fingerprint@));
    }
}

/// A stored listing is found again, and nothing else moves: after an upsert
/// of `listing` that returned `r`, looking up the listing's path (as a path)
/// and fingerprint finds `r`; looking up any other path or fingerprint finds
/// what it found before, at the same place.
pub proof fn upserted_listing_is_found_again(
    before: DirectoryCache,
    after: DirectoryCache,
    listing: DirectoryListing,
    r: DirectoryCacheEntry,
    path: Seq<char>,
    fingerprint: Seq<char>,
)
    requires
        before.wf(),
        after.wf(),
        r.path@ == listing.path@,
        r.config_fingerprint@ == listing.config_fingerprint@,
        upsert_effect(before.entries_view(), after.entries_view(), listing, r),
    ensures
        path_eq_spec(path, listing.path@) && fingerprint == listing.config_fingerprint@ ==> (find_entry(
            after.entries_view(),
            path,
            fingerprint,
        ) matches Some(k) && r.same(after.entries_view()[k])),
        !(path_eq_spec(path, listing.path@) && fingerprint == listing.config_fingerprint@) ==> match find_entry(
            before.entries_view(),
            path,
            fingerprint,
        ) {
            Some(i) => find_entry(after.entries_view(), path, fingerprint) == Some(i) && after.entries_view()[i]
                == before.entries_view()[i],
            None => find_entry(after.entries_view(), path, fingerprint) is None,
        },
{
    let b = before.entries_view();
    let a = after.entries_view();
    let k = match find_entry(b, listing.path@, listing.config_fingerprint@) {
        Some(i) => i,
        None => b.len() as int,
    };
    assert(r.same(a[k]));
    assert(entry_has_key(a[k], listing.path@, listing.config_fingerprint@));
    if path_eq_spec(path, listing.path@) && fingerprint == listing.config_fingerprint@ {
        assert(entry_has_key(a[k], path, fingerprint));
        after.lemma_find_unique(k, path, fingerprint);
    } else {
        assert(!entry_has_key(a[k], path, fingerprint));
        match find_entry(b, path, fingerprint) {
            Some(i) => {
                assert(entry_has_key(b[i], path, fingerprint));
                if i == k {
                    assert(entry_has_key(b[k], listing.path@, listing.config_fingerprint@));
                }
                assert(a[i] == b[i]);
                after.lemma_find_unique(i, path, fingerprint);
            },
            None => {
                if exists|j: int| 0 <= j < a.len() && entry_has_key(a[j], path, fingerprint) {
                    let j = choose|j: int| 0 <= j < a.len() && entry_has_key(a[j], path, fingerprint);
                    assert(j != k);
                    assert(a[j] == b[j]);
                    assert(entry_has_key(b[j], path, fingerprint));
                }
            },
        }
    }
}

/// Invalidation leads to rediscovery and leaves the rest alone: after
/// invalidating `path` (with or without its descendants), the entry of any
/// path and fingerprint that the invalidation reached is stale, so a request
/// for it is answered by reading the directory again; an entry it did not
/// reach is found at the same place, unchanged (freshness, listing and
/// generation).
pub proof fn invalidated_entries_are_rediscovered(
    before: DirectoryCache,
    after: DirectoryCache,
    path: Seq<char>,
    descendants: bool,
    q: Seq<char>,
    fingerprint: Seq<char>,
)
    requires
        before.wf(),
        after.entries_view().len() == before.entries_view().len(),
        forall|i: int|
            0 <= i < before.entries_view().len() ==> #[trigger] after.entries_view()[i] == staled(
                before.entries_view()[i],
                path,
                descendants,
            ),
    ensures
        match find_entry(before.entries_view(), q, fingerprint) {
            Some(i) => find_entry(after.entries_view(), q, fingerprint) == Some(i) && if stale_reaches(
                before.entries_view()[i],
                path,
                descendants,
            ) {
                after.entries_view()[i].freshness == CacheFreshness::Stale
            } else {
                after.entries_view()[i] == before.entries_view()[i]
            },
            None => find_entry(after.entries_view(), q, fingerprint) is None,
        },
{
    let b = before.entries_view();
    let a = after.entries_view();
    assert forall|j: int| 0 <= j < a.len() implies (entry_has_key(#[trigger] a[j], q, fingerprint)
        <==> entry_has_key(b[j], q, fingerprint)) by {
        assert(a[j] == staled(b[j], path, descendants));
    }
    match find_entry(b, q, fingerprint) {
        Some(i) => {
            assert(entry_has_key(b[i], q, fingerprint));
            assert(entry_has_key(a[i], q, fingerprint));
            let k = choose|j: int| 0 <= j < a.len() && entry_has_key(a[j], q, fingerprint);
            assert(entry_has_key(b[k], q, fingerprint));
            lemma_key_unique(before, i, k, q, fingerprint);
        },
        None => {
            if exists|j: int| 0 <= j < a.len() && entry_has_key(a[j], q, fingerprint) {
                let j = choose|j: int| 0 <= j < a.len() && entry_has_key(a[j], q, fingerprint);
                assert(entry_has_key(b[j], q, fingerprint));
            }
        },
    }
}

/// No cached listing is of a later generation than the latest one given.
pub proof fn lemma_generation_bounded(cache: DirectoryCache, i: int)
    requires
        cache.wf(),
        0 <= i < cache.entries_view().len(),
    ensures
        cache.entries_view()[i].listing.generation <= cache.generation(),
{
}

} // verus!



//! The tally of a drive scan: what the walkers report, file by file and
//! directory by directory, summed into the counts, the size of every
//! directory and the usage by kind of file.
use vstd::prelude::*;

use crate::browser::{
    size_or_zero, DirectorySizes, ReadError, ScanProgress, ScanResult, ScanUpdate,
};
use crate::categories::{collect_categories, kind_rank, rank_of, usages_sorted, FileKind};
use crate::lexical::{
    comps_prefix, comps_view, components, components_equal, components_prefix, copy_component,
    path_components, Comp, PathComponent,
};
use crate::live::sat_add;

verus! {

/// The directories that an entry's size is added to: each one that std's
/// `Path::parent` reaches from `path`, stopping after `root` where `root`
/// lies above the entry; nothing for the root itself.
pub open spec fn bubble_target(q: Seq<Comp>, path: Seq<Comp>, root: Seq<Comp>) -> bool {
    &&& path != root
    &&& q.len() < path.len()
    &&& path.take(q.len() as int) == q
    &&& (q.len() == 0 ==> path[0] != Comp::RootDir)
    &&& (comps_prefix(root, path) ==> q.len() >= root.len())
}

/// The kinds in their order.
pub open spec fn kind_at(i: int) -> FileKind {
    if i == 0 {
        FileKind::Video
    } else if i == 1 {
        FileKind::Audio
    } else if i == 2 {
        FileKind::Images
    } else if i == 3 {
        FileKind::Archives
    } else if i == 4 {
        FileKind::Apps
    } else if i == 5 {
        FileKind::Documents
    } else if i == 6 {
        FileKind::Code
    } else {
        FileKind::Other
    }
}

proof fn lemma_kind_at_rank(k: FileKind)
    ensures
        kind_at(kind_rank(k) as int) == k,
        kind_rank(k) < 8,
{
    match k {
        FileKind::Video => {},
        FileKind::Audio => {},
        FileKind::Images => {},
        FileKind::Archives => {},
        FileKind::Apps => {},
        FileKind::Documents => {},
        FileKind::Code => {},
        FileKind::Other => {},
    }
}

/// A usage list with one entry per kind, in kind order.
pub open spec fn per_kind(s: Seq<(FileKind, u64)>) -> bool {
    &&& s.len() == 8
    &&& forall|i: int| 0 <= i < 8 ==> (#[trigger] s[i]).0 == kind_at(i)
}

/// The running tally of a drive scan of `root`.
pub struct ScanAggregator {
    pub root: String,
    pub bytes_scanned: u64,
    pub files_scanned: u64,
    pub directories_scanned: u64,
    pub directory_sizes: DirectorySizes,
    pub categories: Vec<(FileKind, u64)>,
}

/// The size of `q` after an entry of `size` bytes at `path` is tallied.
pub open spec fn bubbled(sizes: Map<Seq<Comp>, u64>, path: Seq<Comp>, root: Seq<Comp>, size: u64) -> Map<Seq<Comp>, u64> {
    Map::new(
        |q: Seq<Comp>| sizes.contains_key(q) || (size > 0 && bubble_target(q, path, root)),
        |q: Seq<Comp>|
            if size > 0 && bubble_target(q, path, root) {
                (size_or_zero(sizes, q) + size) as u64
            } else {
                sizes[q]
            },
    )
}

impl ScanAggregator {
    /// The tally is well formed: sizes by path, one usage entry per kind.
    pub open spec fn wf(&self) -> bool {
        &&& self.directory_sizes.wf()
        &&& per_kind(self.categories@)
    }

    /// An entry of `size` bytes at `path` fits: no count, usage or
    /// directory size it adds to passes `u64::MAX`.
    pub open spec fn fits(&self, path: Seq<char>, size: u64, kind: Option<FileKind>) -> bool {
        &&& match kind {
            Some(k) => self.files_scanned < u64::MAX && self.categories@[kind_rank(k) as int].1 + size <= u64::MAX,
            None => self.directories_scanned < u64::MAX,
        }
        &&& forall|q: Seq<Comp>|
            #![trigger bubble_target(q, components(path), components(self.root@))]
            size > 0 && bubble_target(q, components(path), components(self.root@)) ==> size_or_zero(
                self.directory_sizes@,
                q,
            ) + size <= u64::MAX
    }

    /// A tally of a scan of `root` with nothing counted.
    pub fn new(root: String) -> (r: Self)
        ensures
            r.wf(),
            r.root@ == root@,
            r.bytes_scanned == 0,
            r.files_scanned == 0,
            r.directories_scanned == 0,
            r.directory_sizes@ == Map::<Seq<Comp>, u64>::empty(),
            forall|i: int| 0 <= i < 8 ==> (#[trigger] r.categories@[i]).1 == 0,
    {
        let categories = vec![
            (FileKind::Video, 0u64),
            (FileKind::Audio, 0u64),
            (FileKind::Images, 0u64),
            (FileKind::Archives, 0u64),
            (FileKind::Apps, 0u64),
            (FileKind::Documents, 0u64),
            (FileKind::Code, 0u64),
            (FileKind::Other, 0u64),
        ];
        ScanAggregator {
            root,
            bytes_scanned: 0,
            files_scanned: 0,
            directories_scanned: 0,
            directory_sizes: DirectorySizes::new(),
            categories,
        }
    }

    /// Whether an entry fits (`fits`).
    pub fn can_record(&self, path: &str, size: u64, kind: Option<FileKind>) -> (r: bool)
        requires
            self.wf(),
        ensures
            r == self.fits(path@, size, kind),
    {
        let counts_fit = match kind {
            Some(k) => {
                let i = rank_of(k) as usize;
                self.files_scanned < u64::MAX && self.categories[i].1 <= u64::MAX - size
            },
            None => self.directories_scanned < u64::MAX,
        };
        if !counts_fit {
            return false;
        }
        if size == 0 {
            return true;
        }
        let p = path_components(path);
        let rt = path_components(self.root.as_str());
        let ghost pv = comps_view(p@);
        let ghost rv = comps_view(rt@);
        if components_equal(&p, &rt) {
            return true;
        }
        let low = Self::bubble_low(&p, &rt);
        let n = p.len();
        let mut k: usize = low;
        while k < n
            invariant
                low <= k <= n,
                n == p@.len(),
                pv == comps_view(p@),
                rv == comps_view(rt@),
                pv != rv,
                self.wf(),
                size > 0,
                pv == components(path@),
                rv == components(self.root@),
                forall|j: int| low <= j < n ==> #[trigger] bubble_target(pv.take(j), pv, rv),
                forall|q: Seq<Comp>| #![trigger bubble_target(q, pv, rv)]
                    bubble_target(q, pv, rv) && q.len() < k ==> size_or_zero(self.directory_sizes@, q) + size
                        <= u64::MAX,
                forall|q: Seq<Comp>| #![trigger bubble_target(q, pv, rv)]
                    bubble_target(q, pv, rv) ==> low <= q.len(),
            decreases n - k,
        {
            let above = Self::prefix(&p, k);
            assert(bubble_target(pv.take(k as int), pv, rv));
            if self.directory_sizes.size_at(&above) > u64::MAX - size {
                return false;
            }
            proof {
                assert forall|q: Seq<Comp>| #![trigger bubble_target(q, pv, rv)]
                    bubble_target(q, pv, rv) && q.len() < k + 1 implies size_or_zero(self.directory_sizes@, q) + size
                        <= u64::MAX by {
                    if q.len() == k {
                        assert(q =~= comps_view(above@));
                    }
                }
            }
            k = k + 1;
        }
        true
    }

    /// The first component count of the directories an entry's size is
    /// added to.
    fn bubble_low(p: &Vec<PathComponent>, rt: &Vec<PathComponent>) -> (low: usize)
        requires
            comps_view(p@) != comps_view(rt@),
        ensures
            low <= p@.len(),
            forall|q: Seq<Comp>| #![trigger bubble_target(q, comps_view(p@), comps_view(rt@))]
                bubble_target(q, comps_view(p@), comps_view(rt@)) ==> low <= q.len(),
            forall|k: int|
                low <= k < p@.len() ==> #[trigger] bubble_target(
                    comps_view(p@).take(k),
                    comps_view(p@),
                    comps_view(rt@),
                ),
    {
        let n = p.len();
        let from_root: usize = if n > 0 && matches!(p[0], PathComponent::RootDir) {
            1
        } else {
            0
        };
        let ghost pv = comps_view(p@);
        let ghost rv = comps_view(rt@);
        assert(n > 0 ==> pv[0] == p@[0]@);
        assert forall|k: int| 0 <= k < n implies #[trigger] pv.take(k).take(k) == pv.take(k) by {
            assert(pv.take(k).take(k) =~= pv.take(k));
        }
        if components_prefix(rt, p) {
            proof {
                if rt@.len() == p@.len() {
                    assert(comps_view(p@).take(rt@.len() as int) =~= comps_view(p@));
                }
                assert forall|k: int| from_root <= k < n && rv.len() <= k implies pv.take(k).take(rv.len() as int)
                    == rv by {
                    assert(pv.take(k).take(rv.len() as int) =~= pv.take(rv.len() as int));
                }
            }
            if rt.len() > from_root {
                rt.len()
            } else {
                from_root
            }
        } else {
            from_root
        }
    }

    /// The first `k` components of `p`.
    fn prefix(p: &Vec<PathComponent>, k: usize) -> (r: Vec<PathComponent>)
        requires
            k <= p@.len(),
        ensures
            comps_view(r@) == comps_view(p@).take(k as int),
    {
        let mut out: Vec<PathComponent> = Vec::new();
        let mut i: usize = 0;
        while i < k
            invariant
                i <= k <= p@.len(),
                out@.len() == i,
                forall|j: int| 0 <= j < i ==> (#[trigger] out@[j])@ == p@[j]@,
            decreases k - i,
        {
            out.push(copy_component(&p[i]));
            i = i + 1;
        }
        assert(comps_view(out@) =~= comps_view(p@).take(k as int));
        out
    }

    /// Tallies one entry the walkers reported: a file of `size` bytes of
    /// `kind`, or a directory (`kind` none), which is listed with size zero
    /// where it has none yet. The file counts and the usage of its kind
    /// grow, the scanned bytes grow (held at `u64::MAX`), and `size` is added
    /// to every directory above the entry up to the root (`bubbled`).
    pub fn record(&mut self, path: &str, size: u64, kind: Option<FileKind>)
        requires
            old(self).wf(),
            old(self).fits(path@, size, kind),
        ensures
            final(self).wf(),
            final(self).root == old(self).root,
            match kind {
                Some(k) => {
                    &&& final(self).files_scanned == old(self).files_scanned + 1
                    &&& final(self).directories_scanned == old(self).directories_scanned
                    &&& final(self).bytes_scanned == sat_add(old(self).bytes_scanned, size)
                    &&& final(self).categories@ == old(self).categories@.update(
                        kind_rank(k) as int,
                        (k, (old(self).categories@[kind_rank(k) as int].1 + size) as u64),
                    )
                    &&& final(self).directory_sizes@ == bubbled(
                        old(self).directory_sizes@,
                        components(path@),
                        components(old(self).root@),
                        size,
                    )
                },
                None => {
                    let touched = if old(self).directory_sizes@.contains_key(components(path@)) {
                        old(self).directory_sizes@
                    } else {
                        old(self).directory_sizes@.insert(components(path@), 0)
                    };
                    &&& final(self).files_scanned == old(self).files_scanned
                    &&& final(self).directories_scanned == old(self).directories_scanned + 1
                    &&& final(self).bytes_scanned == old(self).bytes_scanned
                    &&& final(self).categories@ == old(self).categories@
                    &&& final(self).directory_sizes@ == bubbled(
                        touched,
                        components(path@),
                        components(old(self).root@),
                        size,
                    )
                },
            },
    {
        match kind {
            Some(k) => {
                self.files_scanned = self.files_scanned + 1;
                self.bytes_scanned = self.bytes_scanned.saturating_add(size);
                let i = rank_of(k) as usize;
                proof {
                    lemma_kind_at_rank(k);
                }
                let (kk, used) = self.categories[i];
                assert(kk == k);
                self.categories.set(i, (k, used + size));
            },
            None => {
                self.directories_scanned = self.directories_scanned + 1;
                self.directory_sizes.touch(path);
            },
        }
        let ghost start = self.directory_sizes@;
        let ghost cats = self.categories@;
        let ghost counts = (self.bytes_scanned, self.files_scanned, self.directories_scanned);
        proof {
            assert forall|q: Seq<Comp>| #![trigger bubble_target(q, components(path@), components(self.root@))]
                size > 0 && bubble_target(q, components(path@), components(self.root@)) implies size_or_zero(
                start,
                q,
            ) + size <= u64::MAX by {
                assert(size_or_zero(old(self).directory_sizes@, q) + size <= u64::MAX);
                if !old(self).directory_sizes@.contains_key(q) {
                    assert(size_or_zero(start, q) == 0);
                }
            }
        }
        if size == 0 {
            assert(self.directory_sizes@ =~= bubbled(start, components(path@), components(self.root@), size));
            return;
        }
        let p = path_components(path);
        let rt = path_components(self.root.as_str());
        let ghost pv = comps_view(p@);
        let ghost rv = comps_view(rt@);
        if components_equal(&p, &rt) {
            assert(self.directory_sizes@ =~= bubbled(start, pv, rv, size));
            return;
        }
        let low = Self::bubble_low(&p, &rt);
        let n = p.len();
        let mut k: usize = low;
        while k < n
            invariant
                low <= k <= n,
                n == p@.len(),
                pv == comps_view(p@),
                rv == comps_view(rt@),
                pv != rv,
                size > 0,
                self.directory_sizes.wf(),
                self.root == old(self).root,
                self.categories@ == cats,
                (self.bytes_scanned, self.files_scanned, self.directories_scanned) == counts,
                forall|j: int| low <= j < n ==> #[trigger] bubble_target(pv.take(j), pv, rv),
                forall|q: Seq<Comp>| #![trigger bubble_target(q, pv, rv)]
                    bubble_target(q, pv, rv) ==> size_or_zero(start, q) + size <= u64::MAX,
                forall|q: Seq<Comp>| #![trigger bubble_target(q, pv, rv)]
                    bubble_target(q, pv, rv) ==> low <= q.len(),
                self.directory_sizes@ == Map::new(
                    |q: Seq<Comp>| start.contains_key(q) || (bubble_target(q, pv, rv) && q.len() < k),
                    |q: Seq<Comp>|
                        if bubble_target(q, pv, rv) && q.len() < k {
                            (size_or_zero(start, q) + size) as u64
                        } else {
                            start[q]
                        },
                ),
            decreases n - k,
        {
            let above = Self::prefix(&p, k);
            let ghost q = comps_view(above@);
            assert(bubble_target(pv.take(k as int), pv, rv));
            assert(size_or_zero(self.directory_sizes@, q) == size_or_zero(start, q));
            self.directory_sizes.add_at(&above, size);
            proof {
                assert(self.directory_sizes@ =~= Map::new(
                    |x: Seq<Comp>| start.contains_key(x) || (bubble_target(x, pv, rv) && x.len() < k + 1),
                    |x: Seq<Comp>|
                        if bubble_target(x, pv, rv) && x.len() < k + 1 {
                            (size_or_zero(start, x) + size) as u64
                        } else {
                            start[x]
                        },
                ));
            }
            k = k + 1;
        }
        assert(self.directory_sizes@ =~= bubbled(start, pv, rv, size));
    }

    /// What the tally has counted so far.
    pub fn progress(&self) -> (r: ScanProgress)
        ensures
            r.bytes_scanned == self.bytes_scanned,
            r.files_scanned == self.files_scanned,
            r.directories_scanned == self.directories_scanned,
    {
        ScanProgress {
            bytes_scanned: self.bytes_scanned,
            files_scanned: self.files_scanned,
            directories_scanned: self.directories_scanned,
        }
    }

    /// A snapshot of the tally for the browser.
    pub fn snapshot(&self) -> (r: ScanUpdate)
        requires
            self.wf(),
        ensures
            r matches ScanUpdate::Snapshot { progress, directory_sizes, categories } && progress.bytes_scanned
                == self.bytes_scanned && progress.files_scanned == self.files_scanned
                && progress.directories_scanned == self.directories_scanned && directory_sizes.wf()
                && directory_sizes@ == self.directory_sizes@ && categories@ == self.categories@,
    {
        let mut categories: Vec<(FileKind, u64)> = Vec::new();
        let mut i: usize = 0;
        while i < self.categories.len()
            invariant
                i <= self.categories.len(),
                categories@ == self.categories@.take(i as int),
            decreases self.categories.len() - i,
        {
            categories.push(self.categories[i]);
            i = i + 1;
            assert(categories@ =~= self.categories@.take(i as int));
        }
        assert(self.categories@.take(self.categories@.len() as int) =~= self.categories@);
        ScanUpdate::Snapshot { progress: self.progress(), directory_sizes: self.directory_sizes.copy(), categories }
    }

    /// The result of the finished scan: the usage by kind sorted
    /// (`collect_categories`), and the root listed with the scanned bytes
    /// where the walkers never reported it.
    pub fn finish(self, read_errors: Vec<ReadError>) -> (r: ScanResult)
        requires
            self.wf(),
        ensures
            r.root == self.root,
            r.bytes_scanned == self.bytes_scanned,
            r.files_scanned == self.files_scanned,
            r.directories_scanned == self.directories_scanned,
            r.directory_sizes.wf(),
            r.directory_sizes@ == if self.directory_sizes@.contains_key(components(self.root@)) {
                self.directory_sizes@
            } else {
                self.directory_sizes@.insert(components(self.root@), self.bytes_scanned)
            },
            usages_sorted(r.categories@),
            Seq::new(r.categories@.len(), |i: int| (r.categories@[i].kind, r.categories@[i].size)).to_multiset()
                == self.categories@.to_multiset(),
            r.read_errors == read_errors,
    {
        let ScanAggregator { root, bytes_scanned, files_scanned, directories_scanned, mut directory_sizes, categories } = self;
        let rt = path_components(root.as_str());
        if !directory_sizes.contains_components(&rt) {
            directory_sizes.insert(root.as_str(), bytes_scanned);
        }
        ScanResult {
            root,
            bytes_scanned,
            files_scanned,
            directories_scanned,
            directory_sizes,
            categories: collect_categories(categories),
            read_errors,
        }
    }
}

/// The least time between two snapshots of a drive scan, in milliseconds.
pub const SNAPSHOT_INTERVAL_MS: u64 = 250;

/// Whether a drive scan sends a snapshot now: never for a rescan, and once
/// the interval has passed since the last snapshot.
pub fn snapshot_due(is_partial: bool, last_snapshot_ms: u64, now_ms: u64) -> (r: bool)
    ensures
        r == (!is_partial && crate::live::sat_sub(now_ms, last_snapshot_ms) >= SNAPSHOT_INTERVAL_MS),
{
    !is_partial && now_ms.saturating_sub(last_snapshot_ms) >= SNAPSHOT_INTERVAL_MS
}

/// Every byte tallied under the root reaches the root: after an entry of
/// `size` bytes below `root` is tallied, the root's size has grown by `size`.
pub proof fn tallied_size_reaches_root(sizes: Map<Seq<Comp>, u64>, path: Seq<Comp>, root: Seq<Comp>, size: u64)
    requires
        comps_prefix(root, path),
        root.len() < path.len(),
        root.len() == 0 ==> path[0] != Comp::RootDir,
        size > 0,
        size_or_zero(sizes, root) + size <= u64::MAX,
    ensures
        bubbled(sizes, path, root, size).contains_key(root),
        bubbled(sizes, path, root, size)[root] == size_or_zero(sizes, root) + size,
{
    assert(path != root);
    assert(bubble_target(root, path, root));
}

} // verus!


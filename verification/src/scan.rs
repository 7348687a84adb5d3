//! The scanner's data: what a scan reports while it runs, and the listing rules
//! that turn what was read from a directory into a listing.
use vstd::prelude::*;

use crate::driver::{
    issues_same, same_opt_text, DirectoryListing, EntryKind, NodeState, PathDeleteSafety, PathNode,
    ScanIssue,
};
use crate::driver::{copy_issues, ReadIssueKind};
use crate::rules::ScanConfig;
use crate::size::SizeMeasurement;
use crate::lexical::{
    chars_less, chars_lt, lemma_chars_lt_irreflexive, lemma_chars_lt_total,
    lemma_chars_lt_transitive,
};
use crate::text::chars_of;

verus! {

/// How far a precise scan has come.
#[derive(Debug, Clone, Copy, Default, PartialEq, Eq)]
pub struct PreciseScanProgress {
    pub entries_visited: u64,
    pub files_visited: u64,
    pub directories_visited: u64,
    pub bytes_measured: u64,
}

/// The running total of one directory during a precise scan.
#[derive(Debug, Clone, PartialEq, Eq)]
pub struct PreciseDirectoryProgressUpdate {
    pub path: String,
    pub allocated_bytes: u64,
    pub logical_bytes: u64,
}

/// What a precise scan reports: its progress and the directory totals that
/// changed.
#[derive(Debug, Clone)]
pub struct PreciseScanUpdate {
    pub progress: PreciseScanProgress,
    pub directory_updates: Vec<PreciseDirectoryProgressUpdate>,
}

/// How far opening a directory has come.
#[derive(Debug, Clone, Copy, Default, PartialEq, Eq)]
pub struct DirectoryOpenProgress {
    pub entries_processed: u64,
}

/// Row `a` is listed before row `b`: it is larger, or as large with a name
/// that sorts first.
pub open spec fn node_precedes(a: PathNode, b: PathNode) -> bool {
    a.size > b.size || (a.size == b.size && chars_lt(a.name@, b.name@))
}

/// Two rows with the same size and name.
pub open spec fn same_key(a: PathNode, b: PathNode) -> bool {
    a.size == b.size && a.name@ == b.name@
}

/// `out` is `input` sorted by size, largest first, then by name, with rows of
/// the same size and name kept in their order: `idx` says where each row came
/// from.
pub open spec fn stable_sorted(input: Seq<PathNode>, out: Seq<PathNode>, idx: Seq<int>) -> bool {
    &&& out.len() == input.len()
    &&& idx.len() == out.len()
    &&& forall|k: int| 0 <= k < out.len() ==> 0 <= #[trigger] idx[k] < input.len() && out[k] == input[idx[k]]
    &&& forall|a: int, b: int| 0 <= a < b < idx.len() ==> #[trigger] idx[a] != #[trigger] idx[b]
    &&& forall|a: int, b: int| 0 <= a < b < out.len() ==> !node_precedes(#[trigger] out[b], #[trigger] out[a])
    &&& forall|a: int, b: int|
        0 <= a < b < out.len() && same_key(#[trigger] out[a], #[trigger] out[b]) ==> idx[a] < idx[b]
}

proof fn lemma_precedes_transitive(a: PathNode, b: PathNode, c: PathNode)
    requires
        node_precedes(a, b),
        node_precedes(b, c),
    ensures
        node_precedes(a, c),
{
    if a.size == b.size && b.size == c.size {
        lemma_chars_lt_transitive(a.name@, b.name@, c.name@);
    }
}

/// Rows not listed before one another have the same key, or are ordered.
proof fn lemma_precedes_total(a: PathNode, b: PathNode)
    ensures
        node_precedes(a, b) || node_precedes(b, a) || same_key(a, b),
{
    if a.size == b.size && a.name@ != b.name@ {
        lemma_chars_lt_total(a.name@, b.name@);
    }
}

proof fn lemma_precedes_irreflexive(a: PathNode, b: PathNode)
    requires
        same_key(a, b),
    ensures
        !node_precedes(a, b),
{
    lemma_chars_lt_irreflexive(a.name@);
}

/// Whether row `a` is listed before row `b`.
pub fn precedes(a: &PathNode, b: &PathNode) -> (r: bool)
    ensures
        r == node_precedes(*a, *b),
{
    if a.size != b.size {
        return a.size > b.size;
    }
    let x = chars_of(&a.name);
    let y = chars_of(&b.name);
    chars_less(&x, &y)
}

/// Sorts rows by size, largest first, then by name; rows of the same size and
/// name keep their order.
pub fn sort_nodes(input: Vec<PathNode>) -> (r: Vec<PathNode>)
    ensures
        exists|idx: Seq<int>| stable_sorted(input@, r@, idx),
{
    let ghost inp = input@;
    let mut out: Vec<PathNode> = Vec::new();
    let ghost mut idx: Seq<int> = Seq::empty();
    for x in it: input.into_iter()
        invariant
            it.seq() == inp,
            out@.len() == it.index(),
            idx.len() == out@.len(),
            forall|k: int| 0 <= k < out@.len() ==> 0 <= #[trigger] idx[k] < it.index() && out@[k] == inp[idx[k]],
            forall|a: int, b: int| 0 <= a < b < idx.len() ==> #[trigger] idx[a] != #[trigger] idx[b],
            forall|a: int, b: int|
                0 <= a < b < out@.len() ==> !node_precedes(#[trigger] out@[b], #[trigger] out@[a]),
            forall|a: int, b: int|
                0 <= a < b < out@.len() && same_key(#[trigger] out@[a], #[trigger] out@[b]) ==> idx[a]
                    < idx[b],
    {
        let ghost i = it.index() as int;
        assert(inp[i] == x);
        let mut p: usize = 0;
        while p < out.len() && !precedes(&x, &out[p])
            invariant
                p <= out@.len(),
                forall|k: int| 0 <= k < p ==> !node_precedes(x, #[trigger] out@[k]),
            decreases out.len() - p,
        {
            p = p + 1;
        }
        let ghost before = out@;
        let ghost old_idx = idx;
        out.insert(p, x);
        proof {
            before.insert_ensures(p as int, x);
            old_idx.insert_ensures(p as int, i);
            idx = old_idx.insert(p as int, i);
            assert forall|k: int| 0 <= k < out@.len() implies 0 <= #[trigger] idx[k] < i + 1 && out@[k]
                == inp[idx[k]] by {
                if k > p {
                    assert(idx[k] == old_idx[k - 1]);
                }
            }
            assert forall|a: int, b: int| 0 <= a < b < idx.len() implies #[trigger] idx[a]
                != #[trigger] idx[b] by {
                if a < p && b > p {
                    assert(idx[b] == old_idx[b - 1]);
                } else if a > p {
                    assert(idx[a] == old_idx[a - 1] && idx[b] == old_idx[b - 1]);
                } else if b > p {
                    assert(idx[b] == old_idx[b - 1]);
                }
            }
            assert forall|a: int, b: int|
                0 <= a < b < out@.len() implies !node_precedes(#[trigger] out@[b], #[trigger] out@[a]) by {
                if b < p {
                } else if b == p {
                    assert(!node_precedes(x, before[a]));
                } else if a < p {
                    assert(out@[b] == before[b - 1]);
                    assert(!node_precedes(before[b - 1], before[a]));
                } else if a == p {
                    assert(out@[b] == before[b - 1]);
                    assert(node_precedes(x, before[p as int]));
                    if b - 1 > p {
                        assert(!node_precedes(before[b - 1], before[p as int]));
                        lemma_precedes_total(before[p as int], before[b - 1]);
                        if node_precedes(before[p as int], before[b - 1]) {
                            lemma_precedes_transitive(x, before[p as int], before[b - 1]);
                        }
                        if node_precedes(before[b - 1], x) {
                            lemma_precedes_transitive(before[b - 1], x, before[p as int]);
                        }
                    }
                    if node_precedes(before[b - 1], x) {
                        lemma_precedes_transitive(x, before[b - 1], x);
                        lemma_precedes_irreflexive(x, x);
                    }
                } else {
                    assert(out@[a] == before[a - 1] && out@[b] == before[b - 1]);
                    assert(!node_precedes(before[b - 1], before[a - 1]));
                }
            }
            assert forall|a: int, b: int|
                0 <= a < b < out@.len() && same_key(#[trigger] out@[a], #[trigger] out@[b]) implies idx[a]
                < idx[b] by {
                if b < p {
                } else if b == p {
                } else if a < p {
                    assert(idx[b] == old_idx[b - 1]);
                    assert(out@[b] == before[b - 1]);
                } else if a == p {
                    assert(out@[b] == before[b - 1]);
                    assert(node_precedes(x, before[p as int]));
                    if b - 1 > p {
                        assert(!node_precedes(before[b - 1], before[p as int]));
                        lemma_precedes_total(before[p as int], before[b - 1]);
                        if node_precedes(before[p as int], before[b - 1]) {
                            lemma_precedes_transitive(x, before[p as int], before[b - 1]);
                        }
                    }
                    lemma_precedes_irreflexive(x, out@[b]);
                } else {
                    assert(idx[a] == old_idx[a - 1] && idx[b] == old_idx[b - 1]);
                    assert(out@[a] == before[a - 1] && out@[b] == before[b - 1]);
                }
            }
        }
    }
    assert(stable_sorted(inp, out@, idx));
    out
}

/// An entry directly under a precisely scanned directory, with its totals.
#[derive(Debug)]
pub struct DirectChild {
    pub path: String,
    pub name: String,
    pub kind: EntryKind,
    pub allocated_bytes: u64,
    pub logical_bytes: u64,
    pub has_visible_children: bool,
    pub issues: Vec<ScanIssue>,
}

/// The totals of a directory during a precise scan.
#[derive(Debug, Default)]
pub struct DirectoryAccumulator {
    pub allocated_bytes: u64,
    pub logical_bytes: u64,
    pub has_visible_children: bool,
    pub issues: Vec<ScanIssue>,
}

/// A direct child is listed: a directory only when the folder is shown.
pub open spec fn child_listed(child: DirectChild, config: ScanConfig) -> bool {
    !(child.kind == EntryKind::Directory && !config.should_show_folder_spec(child.allocated_bytes))
}

/// The positions of the listed children, in order.
pub open spec fn listed_children(children: Seq<DirectChild>, config: ScanConfig) -> Seq<int>
    decreases children.len(),
{
    if children.len() == 0 {
        seq![]
    } else {
        let prev = listed_children(children.drop_last(), config);
        if child_listed(children.last(), config) {
            prev.push(children.len() - 1)
        } else {
            prev
        }
    }
}

/// The row of a direct child of `parent`: complete, shown, one level down, with
/// its totals and issues, and children known unless it is a directory with
/// something shown inside.
pub open spec fn precise_row(child: DirectChild, safety: PathDeleteSafety, parent: Seq<char>, row: PathNode) -> bool {
    &&& row.path@ == child.path@
    &&& row.name@ == child.name@
    &&& row.kind == child.kind
    &&& row.parent_path matches Some(p) && p@ == parent
    &&& row.depth_from_request == 1
    &&& row.size == child.allocated_bytes
    &&& row.logical_size == child.logical_bytes
    &&& row.state == NodeState::Complete
    &&& row.visible
    &&& row.children_known == (child.kind != EntryKind::Directory || !child.has_visible_children)
    &&& row.active_job_id is None
    &&& row.delete_safety.same(safety)
    &&& row.issues == child.issues
}

/// The shown size of the first `n` children: the saturating sum of the
/// listed ones' totals.
pub open spec fn listed_size(children: Seq<DirectChild>, config: ScanConfig, n: nat) -> u64
    decreases n,
{
    if n == 0 {
        0
    } else {
        let prev = listed_size(children, config, (n - 1) as nat);
        if child_listed(children[n - 1], config) {
            prev.saturating_add(children[n - 1].allocated_bytes)
        } else {
            prev
        }
    }
}

/// The listing of a precisely scanned directory: the listed children as rows,
/// sorted; the shown total is theirs, the measured and logical totals and the
/// issues are the directory's own; there is more depth exactly when a listed
/// directory has something shown inside.
pub open spec fn precise_listing_of(
    path: Seq<char>,
    config: ScanConfig,
    fingerprint: Seq<char>,
    root: DirectoryAccumulator,
    children: Seq<DirectChild>,
    safety: Seq<PathDeleteSafety>,
    listing: DirectoryListing,
) -> bool {
    let listed = listed_children(children, config);
    &&& listing.path@ == path
    &&& listing.config_fingerprint@ == fingerprint
    &&& exists|rows: Seq<PathNode>, idx: Seq<int>|
        #![trigger stable_sorted(rows, listing.children@, idx)]
        rows.len() == listed.len() && (forall|j: int|
            0 <= j < listed.len() ==> precise_row(
                children[listed[j]],
                safety[listed[j]],
                path,
                #[trigger] rows[j],
            )) && stable_sorted(rows, listing.children@, idx) && listing.has_more_depth == exists|
            j: int,
        | 0 <= j < rows.len() && !(#[trigger] rows[j]).children_known
    &&& listing.total_visible_size == listed_size(children, config, children.len())
    &&& listing.total_measured_size == root.allocated_bytes
    &&& listing.total_logical_size == root.logical_bytes
    &&& listing.state == NodeState::Complete
    &&& listing.loaded_depth == (if config.requested_depth < 1 { config.requested_depth } else { 1 })
    &&& listing.issues == root.issues
    &&& listing.generation == 0
}

/// Builds the listing of a precisely scanned directory from its own totals and
/// its direct children; `safety[i]` is the deletion verdict of child `i`.
pub fn precise_listing(
    path: &str,
    config: &ScanConfig,
    config_fingerprint: String,
    root: DirectoryAccumulator,
    direct_children: Vec<DirectChild>,
    safety: Vec<PathDeleteSafety>,
) -> (r: DirectoryListing)
    requires
        safety@.len() == direct_children@.len(),
    ensures
        precise_listing_of(path@, *config, config_fingerprint@, root, direct_children@, safety@, r),
        children_size(direct_children@) <= root.allocated_bytes ==> r.total_visible_size
            <= r.total_measured_size,
{
    proof {
        lemma_listed_within(direct_children@, *config, direct_children@.len());
        assert(direct_children@.take(direct_children@.len() as int) =~= direct_children@);
    }
    let ghost children = direct_children@;
    let child_count = direct_children.len();
    let mut rows: Vec<PathNode> = Vec::new();
    let mut total_visible_size: u64 = 0;
    let mut has_more_depth = false;
    let mut i: usize = 0;
    for child in it: direct_children.into_iter()
        invariant
            it.seq() == children,
            i == it.index(),
            children.len() == child_count,
            safety@.len() == children.len(),
            rows@.len() == listed_children(children.take(i as int), *config).len(),
            forall|j: int|
                0 <= j < rows@.len() ==> #[trigger] listed_children(children.take(i as int), *config)[j] < i,
            forall|j: int|
                0 <= j < rows@.len() ==> precise_row(
                    children[listed_children(children.take(i as int), *config)[j]],
                    safety@[listed_children(children.take(i as int), *config)[j]],
                    path@,
                    #[trigger] rows@[j],
                ),
            total_visible_size == listed_size(children, *config, i as nat),
            has_more_depth == exists|j: int| 0 <= j < rows@.len() && !(#[trigger] rows@[j]).children_known,
    {
        let ghost n = i as int;
        let ghost prev = listed_children(children.take(n), *config);
        proof {
            assert(children[n] == child);
            assert(children.take(n + 1).drop_last() =~= children.take(n));
            assert(children.take(n + 1).last() == children[n]);
        }
        let DirectChild {
            path: child_path,
            name,
            kind,
            allocated_bytes,
            logical_bytes,
            has_visible_children,
            issues,
        } = child;
        let is_directory = match kind {
            EntryKind::Directory => true,
            _ => false,
        };
        let listed = !is_directory || config.should_show_folder(allocated_bytes);
        if listed {
            total_visible_size = total_visible_size.saturating_add(allocated_bytes);
            let children_known = !is_directory || !has_visible_children;
            let ghost before = rows@;
            let ghost had_more = has_more_depth;
            has_more_depth = has_more_depth || !children_known;
            rows.push(
                PathNode {
                    path: child_path,
                    name,
                    kind,
                    parent_path: Some(path.to_string()),
                    depth_from_request: 1,
                    size: allocated_bytes,
                    logical_size: logical_bytes,
                    state: NodeState::Complete,
                    visible: true,
                    children_known,
                    active_job_id: None,
                    delete_safety: safety[i].copy(),
                    issues,
                },
            );
            proof {
                let now = listed_children(children.take(n + 1), *config);
                assert(now == prev.push(n));
                assert(forall|j: int| 0 <= j < before.len() ==> rows@[j] == before[j]);
                if had_more {
                    let w = choose|j: int| 0 <= j < before.len() && !(#[trigger] before[j]).children_known;
                    assert(rows@[w] == before[w]);
                }
                assert(!children_known ==> !rows@[before.len() as int].children_known);
            }
        } else {
            proof {
                assert(listed_children(children.take(n + 1), *config) == prev);
            }
        }
        i = i + 1;
    }
    proof {
        assert(children.take(i as int) =~= children);
    }
    let ghost unsorted = rows@;
    let listing = DirectoryListing {
        path: path.to_string(),
        config_fingerprint,
        children: sort_nodes(rows),
        total_visible_size,
        total_measured_size: root.allocated_bytes,
        total_logical_size: root.logical_bytes,
        state: NodeState::Complete,
        loaded_depth: if config.requested_depth < 1 { config.requested_depth } else { 1 },
        has_more_depth,
        issues: root.issues,
        generation: 0,
    };
    proof {
        let idx = choose|idx: Seq<int>| stable_sorted(unsorted, listing.children@, idx);
        assert(stable_sorted(unsorted, listing.children@, idx));
    }
    listing
}

/// The saturating sum of the allocated bytes of `children`.
pub open spec fn children_size(children: Seq<DirectChild>) -> u64
    decreases children.len(),
{
    if children.len() == 0 {
        0
    } else {
        children_size(children.drop_last()).saturating_add(children.last().allocated_bytes)
    }
}

/// The shown size of the first `n` children is no more than their whole size.
pub proof fn lemma_listed_within(children: Seq<DirectChild>, config: ScanConfig, n: nat)
    requires
        n <= children.len(),
    ensures
        listed_size(children, config, n) <= children_size(children.take(n as int)),
    decreases n,
{
    if n > 0 {
        lemma_listed_within(children, config, (n - 1) as nat);
        assert(children.take(n as int).drop_last() =~= children.take(n - 1));
        assert(children.take(n as int).last() == children[n - 1]);
    }
}

/// What measuring one entry of a directory gave: its totals, whether its name
/// is shown, its issues, the directory totals measured under it, and the
/// direct child it makes when it is shown and direct children are collected.
pub struct MeasuredEntry {
    allocated_bytes: u64,
    logical_bytes: u64,
    visible: bool,
    issues: Vec<ScanIssue>,
    summaries: Vec<crate::driver::DirectorySizeSummary>,
    direct_child: Option<DirectChild>,
}

impl MeasuredEntry {
    /// The entry's allocated bytes.
    pub closed spec fn allocated(&self) -> u64 {
        self.allocated_bytes
    }

    /// The entry's logical bytes.
    pub closed spec fn logical(&self) -> u64 {
        self.logical_bytes
    }

    /// Whether the entry's name is shown.
    pub closed spec fn is_visible(&self) -> bool {
        self.visible
    }

    /// The direct child the entry makes, if any.
    pub closed spec fn child(&self) -> Option<DirectChild> {
        self.direct_child
    }

    /// The entry as measured under `config`: a direct child is made only for
    /// a shown name, with the entry's own totals.
    pub closed spec fn wf(&self, config: ScanConfig) -> bool {
        match self.direct_child {
            Some(c) => c.allocated_bytes == self.allocated_bytes && self.visible && !config.is_hidden_name_spec(
                c.name@,
            ),
            None => true,
        }
    }

    /// An entry called `name` at `path` of kind `kind`, measured with the
    /// given totals, issues and directory totals. It is shown when its name is
    /// not hidden under `config`; it makes a direct child, with its totals and
    /// a copy of its issues, when it is shown and `collect_direct_child`.
    pub fn new(
        config: &ScanConfig,
        path: String,
        name: String,
        kind: EntryKind,
        allocated_bytes: u64,
        logical_bytes: u64,
        has_visible_children: bool,
        issues: Vec<ScanIssue>,
        summaries: Vec<crate::driver::DirectorySizeSummary>,
        collect_direct_child: bool,
    ) -> (r: Self)
        ensures
            r.wf(*config),
            entry_measured(r, *config, name@, allocated_bytes, logical_bytes),
            match r.child() {
                Some(c) => r.is_visible() && collect_direct_child && c.path@ == path@ && c.name@ == name@
                    && c.kind == kind && c.allocated_bytes == allocated_bytes && c.logical_bytes
                    == logical_bytes && c.has_visible_children == has_visible_children,
                None => !(r.is_visible() && collect_direct_child),
            },
    {
        let visible = !config.is_hidden_name(name.as_str());
        let direct_child = if visible && collect_direct_child {
            Some(
                DirectChild {
                    path,
                    name,
                    kind,
                    allocated_bytes,
                    logical_bytes,
                    has_visible_children,
                    issues: copy_issues(&issues),
                },
            )
        } else {
            None
        };
        MeasuredEntry { allocated_bytes, logical_bytes, visible, issues, summaries, direct_child }
    }
}

/// `entry` was measured under `config` as the entry called `name` with the
/// given totals: it keeps them whatever the configuration, and it is shown
/// exactly when its name is not hidden.
pub open spec fn entry_measured(
    entry: MeasuredEntry,
    config: ScanConfig,
    name: Seq<char>,
    allocated: u64,
    logical: u64,
) -> bool {
    &&& entry.allocated() == allocated
    &&& entry.logical() == logical
    &&& entry.is_visible() == !config.is_hidden_name_spec(name)
}

/// A directory measured so far during a precise scan: its totals, its direct
/// children and the directory totals measured under it.
pub struct MeasuredDirectory {
    accumulator: DirectoryAccumulator,
    direct_children: Vec<DirectChild>,
    summaries: Vec<crate::driver::DirectorySizeSummary>,
}

/// `after` is `before` with `entry` counted: its bytes add to the totals
/// whether it is shown or not, a shown entry makes the directory have shown
/// children, and its direct child, if any, is collected.
pub open spec fn entry_added(before: MeasuredDirectory, after: MeasuredDirectory, entry: MeasuredEntry) -> bool {
    &&& after.totals().allocated_bytes == before.totals().allocated_bytes.saturating_add(entry.allocated())
    &&& after.totals().logical_bytes == before.totals().logical_bytes.saturating_add(entry.logical())
    &&& after.totals().has_visible_children == (before.totals().has_visible_children || entry.is_visible())
    &&& match entry.child() {
        Some(c) => after.children() == before.children().push(c),
        None => after.children() == before.children(),
    }
}

impl MeasuredDirectory {
    /// The directory's own totals.
    pub closed spec fn totals(&self) -> DirectoryAccumulator {
        self.accumulator
    }

    /// The direct children collected.
    pub closed spec fn children(&self) -> Seq<DirectChild> {
        self.direct_children@
    }

    /// The direct children's bytes are counted in the directory's total, and
    /// every direct child has a shown name under `config`.
    pub closed spec fn wf(&self, config: ScanConfig) -> bool {
        &&& children_size(self.direct_children@) <= self.accumulator.allocated_bytes
        &&& forall|k: int|
            0 <= k < self.direct_children@.len() ==> !config.is_hidden_name_spec(
                (#[trigger] self.direct_children@[k]).name@,
            )
    }

    /// Nothing measured yet.
    pub fn new(config: &ScanConfig) -> (r: Self)
        ensures
            r.wf(*config),
            r.totals().allocated_bytes == 0,
            r.totals().logical_bytes == 0,
            !r.totals().has_visible_children,
            r.totals().issues@.len() == 0,
            r.children().len() == 0,
    {
        MeasuredDirectory {
            accumulator: DirectoryAccumulator {
                allocated_bytes: 0,
                logical_bytes: 0,
                has_visible_children: false,
                issues: Vec::new(),
            },
            direct_children: Vec::new(),
            summaries: Vec::new(),
        }
    }

    /// The paths of the direct children collected, in order.
    pub fn child_paths(&self) -> (r: Vec<String>)
        ensures
            r@.len() == self.children().len(),
            forall|k: int| 0 <= k < r@.len() ==> (#[trigger] r@[k])@ == self.children()[k].path@,
    {
        let mut paths: Vec<String> = Vec::new();
        for i in 0..self.direct_children.len()
            invariant
                paths@.len() == i,
                i <= self.direct_children@.len(),
                forall|k: int| 0 <= k < i ==> (#[trigger] paths@[k])@ == self.direct_children@[k].path@,
        {
            paths.push(self.direct_children[i].path.clone());
        }
        paths
    }

    /// Counts an issue of the directory itself.
    pub fn add_issue(&mut self, config: &ScanConfig, issue: ScanIssue)
        requires
            old(self).wf(*config),
        ensures
            final(self).wf(*config),
            final(self).totals().issues@ == old(self).totals().issues@.push(issue),
            final(self).totals().allocated_bytes == old(self).totals().allocated_bytes,
            final(self).totals().logical_bytes == old(self).totals().logical_bytes,
            final(self).totals().has_visible_children == old(self).totals().has_visible_children,
            final(self).children() == old(self).children(),
    {
        self.accumulator.issues.push(issue);
    }

    /// Takes in one measured entry: its totals are added (each held at
    /// `u64::MAX`), a shown entry makes the directory have something shown, its
    /// issues and directory totals are kept, and its direct child, if any, is
    /// added.
    pub fn add_entry(&mut self, config: &ScanConfig, entry: MeasuredEntry)
        requires
            old(self).wf(*config),
            entry.wf(*config),
        ensures
            final(self).wf(*config),
            entry_added(*old(self), *final(self), entry),
    {
        let MeasuredEntry { allocated_bytes, logical_bytes, visible, issues, summaries, direct_child } = entry;
        self.accumulator.allocated_bytes = self.accumulator.allocated_bytes.saturating_add(allocated_bytes);
        self.accumulator.logical_bytes = self.accumulator.logical_bytes.saturating_add(logical_bytes);
        self.accumulator.has_visible_children = self.accumulator.has_visible_children || visible;
        let ghost a0 = self.accumulator.allocated_bytes;
        let ghost l0 = self.accumulator.logical_bytes;
        let ghost h0 = self.accumulator.has_visible_children;
        let ghost d0 = self.direct_children@;
        for issue in issues.into_iter()
            invariant
                self.accumulator.allocated_bytes == a0,
                self.accumulator.logical_bytes == l0,
                self.accumulator.has_visible_children == h0,
                self.direct_children@ == d0,
        {
            self.accumulator.issues.push(issue);
        }
        for summary in summaries.into_iter()
            invariant
                self.accumulator.allocated_bytes == a0,
                self.accumulator.logical_bytes == l0,
                self.accumulator.has_visible_children == h0,
                self.direct_children@ == d0,
        {
            self.summaries.push(summary);
        }
        match direct_child {
            Some(c) => {
                let ghost before = self.direct_children@;
                self.direct_children.push(c);
                proof {
                    assert(self.direct_children@.drop_last() =~= before);
                }
            },
            None => {},
        }
    }

    /// The listing of the measured directory `path` (`precise_listing` of its
    /// totals and direct children; `safety[i]` is the deletion verdict of
    /// child `i`), with the directory totals measured under it. The shown
    /// total is no more than the measured total, and every row may be shown.
    pub fn into_listing(
        self,
        path: &str,
        config: &ScanConfig,
        config_fingerprint: String,
        safety: Vec<PathDeleteSafety>,
    ) -> (r: (DirectoryListing, Vec<crate::driver::DirectorySizeSummary>))
        requires
            self.wf(*config),
            safety@.len() == self.children().len(),
        ensures
            precise_listing_of(path@, *config, config_fingerprint@, self.totals(), self.children(), safety@, r.0),
            r.0.total_visible_size <= r.0.total_measured_size,
            rows_shown(r.0.children@, *config),
    {
        let MeasuredDirectory { accumulator, direct_children, summaries } = self;
        let ghost children = direct_children@;
        let listing = precise_listing(path, config, config_fingerprint, accumulator, direct_children, safety);
        proof {
            let listed = listed_children(children, *config);
            let (rows, idx) = choose|rows: Seq<PathNode>, idx: Seq<int>|
                #![trigger stable_sorted(rows, listing.children@, idx)]
                rows.len() == listed.len() && (forall|j: int|
                    0 <= j < listed.len() ==> precise_row(
                        children[listed[j]],
                        safety@[listed[j]],
                        path@,
                        #[trigger] rows[j],
                    )) && stable_sorted(rows, listing.children@, idx) && listing.has_more_depth == exists|
                    j: int,
                | 0 <= j < rows.len() && !(#[trigger] rows[j]).children_known;
            lemma_listed_children_valid(children, *config);
            assert forall|k: int| 0 <= k < listing.children@.len() implies #[trigger] row_shown(
                listing.children@[k],
                *config,
            ) by {
                let j = idx[k];
                assert(listing.children@[k] == rows[j]);
                assert(precise_row(children[listed[j]], safety@[listed[j]], path@, rows[j]));
                assert(child_listed(children[listed[j]], *config));
            }
        }
        (listing, summaries)
    }
}

/// Each listed child is a child, and listed.
proof fn lemma_listed_children_valid(children: Seq<DirectChild>, config: ScanConfig)
    ensures
        forall|j: int|
            0 <= j < listed_children(children, config).len() ==> 0 <= #[trigger] listed_children(
                children,
                config,
            )[j] < children.len() && child_listed(children[listed_children(children, config)[j]], config),
    decreases children.len(),
{
    if children.len() > 0 {
        lemma_listed_children_valid(children.drop_last(), config);
        let prev = listed_children(children.drop_last(), config);
        assert forall|j: int| 0 <= j < prev.len() implies children.drop_last()[prev[j]] == children[prev[j]] by {}
    }
}

/// What reading one entry of a directory calls for.
#[derive(Debug, Clone, Copy, PartialEq, Eq, Structural)]
pub enum EntryAction {
    /// A symbolic link that is not followed: measured as a file from its own metadata.
    MeasureLink,
    /// A directory on another filesystem while the scan stays on one.
    Boundary,
    /// A directory: measured on its own.
    Directory,
    /// A regular file: measured.
    File,
    /// Anything else: ignored.
    Skip,
}

/// What reading an entry calls for, from what it is. `other_filesystem` says
/// whether a directory lies on another filesystem than the scan's root (when
/// the scan stays on one and that could be read).
pub open spec fn entry_action_spec(
    config: ScanConfig,
    is_symlink: bool,
    is_dir: bool,
    is_file: bool,
    other_filesystem: bool,
) -> EntryAction {
    if is_symlink && !config.follow_symlinks {
        EntryAction::MeasureLink
    } else if is_dir {
        if other_filesystem {
            EntryAction::Boundary
        } else {
            EntryAction::Directory
        }
    } else if is_file {
        EntryAction::File
    } else {
        EntryAction::Skip
    }
}

/// What reading an entry calls for.
pub fn entry_action(
    config: &ScanConfig,
    is_symlink: bool,
    is_dir: bool,
    is_file: bool,
    other_filesystem: bool,
) -> (r: EntryAction)
    ensures
        r == entry_action_spec(*config, is_symlink, is_dir, is_file, other_filesystem),
{
    if is_symlink && !config.follow_symlinks {
        EntryAction::MeasureLink
    } else if is_dir {
        if other_filesystem {
            EntryAction::Boundary
        } else {
            EntryAction::Directory
        }
    } else if is_file {
        EntryAction::File
    } else {
        EntryAction::Skip
    }
}

/// The measured totals of a directory listed as a row of its parent.
#[derive(Debug)]
pub struct DirectoryNode {
    pub size: u64,
    pub logical_size: u64,
    pub children_known: bool,
    pub issues: Vec<ScanIssue>,
    pub state: NodeState,
}

/// A directory below the preload depth is not read now.
pub fn should_descend(config: &ScanConfig, depth: usize) -> (r: bool)
    ensures
        r == (depth <= config.preload_depth),
{
    depth <= config.preload_depth
}

/// A directory left for later: nothing measured, its children unknown, queued.
pub fn deferred_directory_node() -> (r: DirectoryNode)
    ensures
        r.size == 0 && r.logical_size == 0 && !r.children_known && r.issues@.len() == 0 && r.state
            == NodeState::Queued,
{
    DirectoryNode {
        size: 0,
        logical_size: 0,
        children_known: false,
        issues: Vec::new(),
        state: NodeState::Queued,
    }
}

/// A directory that could not be read: nothing measured, nothing more to
/// find, failed, with the issue.
pub fn failed_directory_node(issue: ScanIssue) -> (r: DirectoryNode)
    ensures
        r.size == 0 && r.logical_size == 0 && r.children_known && r.issues@ == seq![issue]
            && r.state == NodeState::Failed,
{
    let mut issues: Vec<ScanIssue> = Vec::new();
    issues.push(issue);
    DirectoryNode { size: 0, logical_size: 0, children_known: true, issues, state: NodeState::Failed }
}

/// A directory read at `depth`: it measures its listing's totals; its children
/// are known when nothing below was deferred and it is at the requested depth
/// or not large enough to expand; it is partial when something below was
/// deferred, else complete; its issues are the listing's.
pub fn directory_node_from_listing(listing: DirectoryListing, config: &ScanConfig, depth: usize) -> (r:
    DirectoryNode)
    ensures
        r.size == listing.total_measured_size,
        r.logical_size == listing.total_logical_size,
        r.children_known == (!listing.has_more_depth && (depth >= config.requested_depth
            || !config.should_expand_folder_spec(listing.total_measured_size, depth))),
        r.state == if listing.has_more_depth {
            NodeState::Partial
        } else {
            NodeState::Complete
        },
        r.issues == listing.issues,
{
    let measurement = crate::size::directory_measurement(
        listing.total_measured_size,
        listing.total_logical_size,
    );
    let should_expand = config.should_expand_folder(measurement.allocated_bytes, depth);
    let has_deferred_descendants = listing.has_more_depth;
    let children_known = !has_deferred_descendants && (depth >= config.requested_depth
        || !should_expand);
    let state = if has_deferred_descendants {
        NodeState::Partial
    } else {
        NodeState::Complete
    };
    DirectoryNode {
        size: measurement.allocated_bytes,
        logical_size: measurement.logical_bytes,
        children_known,
        issues: listing.issues,
        state,
    }
}

/// The row of an entry read directly under `parent` at `depth`.
pub open spec fn entry_row(
    row: PathNode,
    parent: Seq<char>,
    depth: usize,
    path: Seq<char>,
    name: Seq<char>,
    kind: EntryKind,
    size: u64,
    logical_size: u64,
    state: NodeState,
    children_known: bool,
    safety: PathDeleteSafety,
    issues: Seq<ScanIssue>,
) -> bool {
    &&& row.path@ == path
    &&& row.name@ == name
    &&& row.kind == kind
    &&& row.parent_path matches Some(p) && p@ == parent
    &&& row.depth_from_request == depth + 1
    &&& row.size == size
    &&& row.logical_size == logical_size
    &&& row.state == state
    &&& row.visible
    &&& row.children_known == children_known
    &&& row.active_job_id is None
    &&& row.delete_safety.same(safety)
    &&& issues_same(row.issues@, issues)
}

/// `row` is the row of the entry at `path` called `name`, under `parent`
/// at `depth`, read as `reading` with deletion verdict `safety`: a file's row
/// is complete with no issues; a directory's row takes the measured node's
/// totals, state, knowledge of children and issues.
pub open spec fn reading_row(
    row: PathNode,
    parent: Seq<char>,
    depth: usize,
    path: Seq<char>,
    name: Seq<char>,
    reading: EntryReading,
    safety: PathDeleteSafety,
) -> bool {
    match reading {
        EntryReading::File(m) => entry_row(
            row,
            parent,
            depth,
            path,
            name,
            EntryKind::File,
            m.allocated_bytes,
            m.logical_bytes,
            NodeState::Complete,
            true,
            safety,
            seq![],
        ),
        EntryReading::Directory(n) => entry_row(
            row,
            parent,
            depth,
            path,
            name,
            EntryKind::Directory,
            n.size,
            n.logical_size,
            n.state,
            n.children_known,
            safety,
            n.issues@,
        ),
        _ => false,
    }
}

/// A listing under construction while a directory's entries are read one by one.
#[derive(Debug)]
pub struct ListingBuilder {
    pub children: Vec<PathNode>,
    pub issues: Vec<ScanIssue>,
    pub total_visible_size: u64,
    pub total_measured_size: u64,
    pub total_logical_size: u64,
    pub has_more_depth: bool,
}

/// What reading one entry of a directory gave: a file (or a link measured as
/// one) with its measurement, a measured directory, a directory on another
/// filesystem, an entry that could not be read, or an entry that is skipped.
#[derive(Debug)]
pub enum EntryReading {
    File(SizeMeasurement),
    Directory(DirectoryNode),
    Boundary,
    Unreadable(ScanIssue),
    Skipped,
}

/// The allocated and logical bytes an entry adds to its directory.
pub open spec fn reading_bytes(reading: EntryReading) -> (u64, u64) {
    match reading {
        EntryReading::File(m) => (m.allocated_bytes, m.logical_bytes),
        EntryReading::Directory(n) => (n.size, n.logical_size),
        _ => (0, 0),
    }
}

/// An entry gets a row: its name is not hidden under `config`, and it is a
/// file, or a directory large enough to be shown.
pub open spec fn row_added(config: ScanConfig, name: Seq<char>, reading: EntryReading) -> bool {
    !config.is_hidden_name_spec(name) && match reading {
        EntryReading::File(_) => true,
        EntryReading::Directory(n) => config.should_show_folder_spec(n.size),
        _ => false,
    }
}

/// A row may be shown under `config`: its name is not hidden, and a
/// directory row is large enough to be shown.
pub open spec fn row_shown(row: PathNode, config: ScanConfig) -> bool {
    !config.is_hidden_name_spec(row.name@) && (row.kind == EntryKind::Directory
        ==> config.should_show_folder_spec(row.size))
}

/// Every row may be shown under `config`.
pub open spec fn rows_shown(rows: Seq<PathNode>, config: ScanConfig) -> bool {
    forall|k: int| 0 <= k < rows.len() ==> #[trigger] row_shown(rows[k], config)
}

impl ListingBuilder {
    /// Nothing read yet.
    pub fn new() -> (r: Self)
        ensures
            r.children@.len() == 0,
            r.issues@.len() == 0,
            r.total_visible_size == 0,
            r.total_measured_size == 0,
            r.total_logical_size == 0,
            !r.has_more_depth,
    {
        ListingBuilder {
            children: Vec::new(),
            issues: Vec::new(),
            total_visible_size: 0,
            total_measured_size: 0,
            total_logical_size: 0,
            has_more_depth: false,
        }
    }

    /// The shown total is no more than the measured total.
    pub open spec fn totals_ordered(&self) -> bool {
        self.total_visible_size <= self.total_measured_size
    }

    /// Takes in one entry of the directory `parent`, read as `reading`: an
    /// entry is visible when its name is not hidden under `config`. Its bytes
    /// count toward the measured and logical totals whether visible or not; it
    /// gets a row under `parent` (`reading_row`), and its bytes count toward the shown total, exactly when
    /// `row_added`; a directory's issues are kept, a visible boundary is
    /// reported, an unreadable entry's issue is kept, a skipped entry changes
    /// nothing. The shown total stays no more than the measured total, and
    /// every row stays one that may be shown.
    pub fn add_entry(
        &mut self,
        config: &ScanConfig,
        parent: &str,
        depth: usize,
        path: String,
        name: String,
        reading: EntryReading,
        safety: PathDeleteSafety,
    )
        requires
            depth < usize::MAX,
        ensures
            old(self).totals_ordered() ==> final(self).totals_ordered(),
            rows_shown(old(self).children@, *config) ==> rows_shown(final(self).children@, *config),
            final(self).total_measured_size == old(self).total_measured_size.saturating_add(
                reading_bytes(reading).0,
            ),
            final(self).total_logical_size == old(self).total_logical_size.saturating_add(
                reading_bytes(reading).1,
            ),
            row_added(*config, name@, reading) ==> {
                &&& final(self).total_visible_size == old(self).total_visible_size.saturating_add(
                    reading_bytes(reading).0,
                )
                &&& final(self).children@.len() == old(self).children@.len() + 1
                &&& final(self).children@.drop_last() == old(self).children@
                &&& reading_row(final(self).children@.last(), parent@, depth, path@, name@, reading, safety)
            },
            !row_added(*config, name@, reading) ==> final(self).total_visible_size == old(self).total_visible_size && final(self).children == old(self).children,
            match reading {
                EntryReading::File(_) => final(self).issues == old(self).issues && final(self).has_more_depth
                    == old(self).has_more_depth,
                EntryReading::Directory(n) => issues_same(final(self).issues@, old(self).issues@ + n.issues@)
                    && final(self).has_more_depth == (old(self).has_more_depth || (row_added(
                    *config,
                    name@,
                    reading,
                ) && !n.children_known)),
                EntryReading::Boundary => (!config.is_hidden_name_spec(name@) ==> final(self).issues@.len()
                    == old(self).issues@.len() + 1 && final(self).issues@.drop_last() == old(self).issues@
                    && final(self).issues@.last().path@ == path@ && final(self).issues@.last().kind
                    == ReadIssueKind::FilesystemBoundary) && (config.is_hidden_name_spec(name@) ==> final(self).issues == old(self).issues) && final(self).has_more_depth == old(self).has_more_depth,
                EntryReading::Unreadable(issue) => final(self).issues@ == old(self).issues@.push(issue)
                    && final(self).has_more_depth == old(self).has_more_depth,
                EntryReading::Skipped => final(self).issues == old(self).issues && final(self).has_more_depth
                    == old(self).has_more_depth,
            },
    {
        let visible = !config.is_hidden_name(name.as_str());
        let ghost old_rows = self.children@;
        let ghost r = reading;
        match reading {
            EntryReading::File(m) => {
                self.add_file(parent, depth, path, name, visible, &m, safety);
            },
            EntryReading::Directory(node) => {
                self.add_directory(config, parent, depth, path, name, visible, node, safety);
            },
            EntryReading::Boundary => {
                self.add_boundary(path, visible);
            },
            EntryReading::Unreadable(issue) => {
                self.add_issue(issue);
            },
            EntryReading::Skipped => {},
        }
        proof {
            if rows_shown(old_rows, *config) {
                assert forall|k: int| 0 <= k < self.children@.len() implies #[trigger] row_shown(
                    self.children@[k],
                    *config,
                ) by {
                    if k < old_rows.len() {
                        assert(self.children@[k] == old_rows[k]);
                    }
                }
            }
        }
    }

    /// An entry that could not be read: its issue is recorded.
    pub fn add_issue(&mut self, issue: ScanIssue)
        ensures
            final(self).issues@ == old(self).issues@.push(issue),
            final(self).children == old(self).children,
            final(self).total_visible_size == old(self).total_visible_size,
            final(self).total_measured_size == old(self).total_measured_size,
            final(self).total_logical_size == old(self).total_logical_size,
            final(self).has_more_depth == old(self).has_more_depth,
    {
        self.issues.push(issue);
    }

    /// A measured file, or a link measured as one: its sizes count toward the
    /// measured and logical totals; a visible one counts toward the shown total
    /// and gets a complete row.
    pub fn add_file(
        &mut self,
        parent: &str,
        depth: usize,
        path: String,
        name: String,
        visible: bool,
        measurement: &SizeMeasurement,
        safety: PathDeleteSafety,
    )
        requires
            depth < usize::MAX,
        ensures
            old(self).totals_ordered() ==> final(self).totals_ordered(),
            final(self).issues == old(self).issues,
            final(self).has_more_depth == old(self).has_more_depth,
            final(self).total_measured_size == old(self).total_measured_size.saturating_add(
                measurement.allocated_bytes,
            ),
            final(self).total_logical_size == old(self).total_logical_size.saturating_add(
                measurement.logical_bytes,
            ),
            visible ==> final(self).total_visible_size == old(self).total_visible_size.saturating_add(
                measurement.allocated_bytes,
            ),
            !visible ==> final(self).total_visible_size == old(self).total_visible_size,
            !visible ==> final(self).children == old(self).children,
            visible ==> final(self).children@.len() == old(self).children@.len() + 1 && final(self).children@.drop_last() == old(self).children@ && entry_row(
                final(self).children@.last(),
                parent@,
                depth,
                path@,
                name@,
                EntryKind::File,
                measurement.allocated_bytes,
                measurement.logical_bytes,
                NodeState::Complete,
                true,
                safety,
                seq![],
            ),
    {
        self.total_measured_size = self.total_measured_size.saturating_add(measurement.allocated_bytes);
        self.total_logical_size = self.total_logical_size.saturating_add(measurement.logical_bytes);
        if visible {
            self.total_visible_size = self.total_visible_size.saturating_add(
                measurement.allocated_bytes,
            );
            let ghost before = self.children@;
            self.children.push(
                PathNode {
                    path,
                    name,
                    kind: EntryKind::File,
                    parent_path: Some(parent.to_string()),
                    depth_from_request: depth + 1,
                    size: measurement.allocated_bytes,
                    logical_size: measurement.logical_bytes,
                    state: NodeState::Complete,
                    visible: true,
                    children_known: true,
                    active_job_id: None,
                    delete_safety: safety,
                    issues: Vec::new(),
                },
            );
            proof {
                assert(self.children@.drop_last() =~= before);
                crate::local::lemma_node_same_refl(self.children@.last());
                assert(issues_same(self.children@.last().issues@, seq![]));
            }
        }
    }

    /// A directory on another filesystem: a visible one is reported, nothing
    /// else changes.
    pub fn add_boundary(&mut self, path: String, visible: bool)
        ensures
            visible ==> final(self).issues@.len() == old(self).issues@.len() + 1 && final(self).issues@.drop_last() == old(self).issues@ && final(self).issues@.last().path@ == path@
                && final(self).issues@.last().kind == ReadIssueKind::FilesystemBoundary
                && final(self).issues@.last().message@
                == "Directory is on a different filesystem."@,
            !visible ==> final(self).issues == old(self).issues,
            final(self).children == old(self).children,
            final(self).total_visible_size == old(self).total_visible_size,
            final(self).total_measured_size == old(self).total_measured_size,
            final(self).total_logical_size == old(self).total_logical_size,
            final(self).has_more_depth == old(self).has_more_depth,
    {
        if visible {
            let ghost before = self.issues@;
            self.issues.push(
                ScanIssue {
                    path,
                    kind: ReadIssueKind::FilesystemBoundary,
                    message: "Directory is on a different filesystem.".to_owned(),
                },
            );
            assert(self.issues@.drop_last() =~= before);
        }
    }

    /// A measured directory: its issues are recorded and its sizes count
    /// toward the measured and logical totals. When it is visible and large
    /// enough to be shown, its size counts toward the shown total, it gets a
    /// row, and the listing has more depth when its children are unknown.
    pub fn add_directory(
        &mut self,
        config: &ScanConfig,
        parent: &str,
        depth: usize,
        path: String,
        name: String,
        visible: bool,
        node: DirectoryNode,
        safety: PathDeleteSafety,
    )
        requires
            depth < usize::MAX,
        ensures
            old(self).totals_ordered() ==> final(self).totals_ordered(),
            issues_same(final(self).issues@, old(self).issues@ + node.issues@),
            final(self).total_measured_size == old(self).total_measured_size.saturating_add(node.size),
            final(self).total_logical_size == old(self).total_logical_size.saturating_add(
                node.logical_size,
            ),
            ({
                let shown = visible && config.should_show_folder_spec(node.size);
                &&& shown ==> final(self).total_visible_size
                    == old(self).total_visible_size.saturating_add(node.size)
                &&& shown ==> final(self).has_more_depth == (old(self).has_more_depth
                    || !node.children_known)
                &&& shown ==> final(self).children@.len() == old(self).children@.len() + 1 && final(self).children@.drop_last() == old(self).children@ && entry_row(
                    final(self).children@.last(),
                    parent@,
                    depth,
                    path@,
                    name@,
                    EntryKind::Directory,
                    node.size,
                    node.logical_size,
                    node.state,
                    node.children_known,
                    safety,
                    node.issues@,
                )
                &&& !shown ==> final(self).total_visible_size == old(self).total_visible_size
                &&& !shown ==> final(self).has_more_depth == old(self).has_more_depth
                &&& !shown ==> final(self).children == old(self).children
            }),
    {
        let ghost old_issues = self.issues@;
        let mut merged: Vec<ScanIssue> = Vec::new();
        std::mem::swap(&mut merged, &mut self.issues);
        let mut k: usize = 0;
        while k < node.issues.len()
            invariant
                k <= node.issues@.len(),
                merged@.len() == old_issues.len() + k,
                forall|j: int| 0 <= j < old_issues.len() ==> #[trigger] merged@[j] == old_issues[j],
                forall|j: int|
                    old_issues.len() <= j < old_issues.len() + k ==> #[trigger] merged@[j].same(
                        node.issues@[j - old_issues.len()],
                    ),
            decreases node.issues@.len() - k,
        {
            merged.push(node.issues[k].copy());
            k = k + 1;
        }
        proof {
            assert forall|j: int| 0 <= j < merged@.len() implies #[trigger] merged@[j].same(
                (old_issues + node.issues@)[j],
            ) by {
                if j < old_issues.len() {
                    assert(merged@[j] == old_issues[j]);
                }
            }
        }
        self.issues = merged;
        self.total_measured_size = self.total_measured_size.saturating_add(node.size);
        self.total_logical_size = self.total_logical_size.saturating_add(node.logical_size);
        if visible && config.should_show_folder(node.size) {
            self.total_visible_size = self.total_visible_size.saturating_add(node.size);
            self.has_more_depth = self.has_more_depth || !node.children_known;
            let ghost before = self.children@;
            let ghost node_issues = node.issues@;
            self.children.push(
                PathNode {
                    path,
                    name,
                    kind: EntryKind::Directory,
                    parent_path: Some(parent.to_string()),
                    depth_from_request: depth + 1,
                    size: node.size,
                    logical_size: node.logical_size,
                    state: node.state,
                    visible: true,
                    children_known: node.children_known,
                    active_job_id: None,
                    delete_safety: safety,
                    issues: node.issues,
                },
            );
            proof {
                assert(self.children@.drop_last() =~= before);
                crate::local::lemma_node_same_refl(self.children@.last());
            }
        }
    }

    /// The listing of `path`: the rows sorted by size, largest first, then by
    /// name; complete, loaded to the preload depth (at most the requested
    /// depth), generation zero.
    pub fn finish(self, path: &str, config: &ScanConfig, config_fingerprint: String) -> (r:
        DirectoryListing)
        ensures
            r.path@ == path@,
            r.config_fingerprint@ == config_fingerprint@,
            exists|idx: Seq<int>| stable_sorted(self.children@, r.children@, idx),
            r.total_visible_size == self.total_visible_size,
            r.total_measured_size == self.total_measured_size,
            r.total_logical_size == self.total_logical_size,
            r.state == NodeState::Complete,
            r.loaded_depth == if config.preload_depth < config.requested_depth {
                config.preload_depth
            } else {
                config.requested_depth
            },
            r.has_more_depth == self.has_more_depth,
            r.issues == self.issues,
            r.generation == 0,
            self.totals_ordered() ==> r.total_visible_size <= r.total_measured_size,
            rows_shown(self.children@, *config) ==> rows_shown(r.children@, *config),
    {
        let ghost rows = self.children@;
        let children = sort_nodes(self.children);
        let r = DirectoryListing {
            path: path.to_string(),
            config_fingerprint,
            children,
            total_visible_size: self.total_visible_size,
            total_measured_size: self.total_measured_size,
            total_logical_size: self.total_logical_size,
            state: NodeState::Complete,
            loaded_depth: if config.preload_depth < config.requested_depth {
                config.preload_depth
            } else {
                config.requested_depth
            },
            has_more_depth: self.has_more_depth,
            issues: self.issues,
            generation: 0,
        };
        proof {
            let idx = choose|idx: Seq<int>| stable_sorted(rows, r.children@, idx);
            assert(stable_sorted(rows, r.children@, idx));
            if rows_shown(rows, *config) {
                assert forall|k: int| 0 <= k < r.children@.len() implies #[trigger] row_shown(
                    r.children@[k],
                    *config,
                ) by {
                    assert(r.children@[k] == rows[idx[k]]);
                }
            }
        }
        r
    }
}

/// Whether an I/O error's kind is `PermissionDenied` (std `Error::kind`).
/// The error is opaque here, so nothing is stated of the answer.
#[verifier::external_body]
fn error_kind_is_permission_denied(error: &std::io::Error) -> bool {
    error.kind() == std::io::ErrorKind::PermissionDenied
}

/// The operating system's error code of an I/O error, if it has one (std
/// `Error::raw_os_error`). The error is opaque here, so nothing is stated of
/// the answer.
#[verifier::external_body]
fn raw_os_error(error: &std::io::Error) -> Option<i32> {
    error.raw_os_error()
}

/// An I/O error counts as a refused permission: its kind says so (`denied`)
/// or its operating system code is `EPERM` (1).
pub open spec fn permission_denied_spec(denied: bool, code: Option<i32>) -> bool {
    denied || code == Some(1i32)
}

/// The issue kind of a failed filesystem call whose error has kind
/// `PermissionDenied` or not (`denied`) and operating system code `code`: a
/// refused permission (`permission_denied_spec`) is `PermissionDenied`, any
/// other failure `MetadataFailed`.
pub fn issue_kind_for(denied: bool, code: Option<i32>) -> (r: ReadIssueKind)
    ensures
        r == (if permission_denied_spec(denied, code) {
            ReadIssueKind::PermissionDenied
        } else {
            ReadIssueKind::MetadataFailed
        }),
{
    let refused = denied || match code {
        Some(c) => c == 1,
        None => false,
    };
    if refused {
        ReadIssueKind::PermissionDenied
    } else {
        ReadIssueKind::MetadataFailed
    }
}

/// The issue for a filesystem call on `path` that failed with `error`: a
/// refused permission is `PermissionDenied`, any
/// other failure `MetadataFailed` (`issue_kind_for` of the error's kind and
/// code); the message is the error's text.
pub fn filesystem_issue(path: String, error: std::io::Error) -> (r: ScanIssue)
    ensures
        r.path == path,
        r.kind == ReadIssueKind::PermissionDenied || r.kind == ReadIssueKind::MetadataFailed,
{
    let kind = issue_kind_for(error_kind_is_permission_denied(&error), raw_os_error(&error));
    ScanIssue { path, kind, message: crate::driver::io_error_text(&error) }
}

/// Whether an entry lies on another filesystem than the scan's root: only
/// where both devices are known and differ.
pub fn crosses_filesystem_boundary(root_device: Option<u64>, entry_device: Option<u64>) -> (r: bool)
    ensures
        r == (root_device is Some && entry_device is Some && root_device != entry_device),
{
    match (root_device, entry_device) {
        (Some(root), Some(entry)) => root != entry,
        _ => false,
    }
}

/// Whether a directory that could not be read is kept as an issue of the
/// scan (rather than failing it): when the read was refused permission
/// (`permission_denied_spec` of the error's kind and code) or the directory
/// still exists.
pub fn read_failure_is_issue(denied: bool, code: Option<i32>, path_exists: bool) -> (r: bool)
    ensures
        r == (permission_denied_spec(denied, code) || path_exists),
{
    let refused = denied || match code {
        Some(c) => c == 1,
        None => false,
    };
    refused || path_exists
}

/// A directory `path` that could not be read with `error`: kept as the issue
/// of `filesystem_issue` where `read_failure_is_issue` holds for the error's
/// kind and code and `path_exists`; otherwise the error fails the scan. A
/// directory that still exists is always kept as an issue.
pub fn unreadable_directory(path: String, error: std::io::Error, path_exists: bool) -> (r: Result<ScanIssue, std::io::Error>)
    ensures
        path_exists ==> (r matches Ok(issue) && issue.path == path),
        r matches Ok(issue) ==> issue.path == path,
{
    let denied = error_kind_is_permission_denied(&error);
    let code = raw_os_error(&error);
    if read_failure_is_issue(denied, code, path_exists) {
        Ok(filesystem_issue(path, error))
    } else {
        Err(error)
    }
}

/// Showing hidden entries changes which rows are listed, never the totals:
/// the same entry measured under two configurations (one that shows hidden
/// names and one that does not, say) adds the same bytes to directories
/// with the same totals; only whether it is shown may differ.
pub proof fn shown_hidden_entries_keep_totals(
    first: ScanConfig,
    second: ScanConfig,
    name: Seq<char>,
    allocated: u64,
    logical: u64,
    entry1: MeasuredEntry,
    entry2: MeasuredEntry,
    before1: MeasuredDirectory,
    after1: MeasuredDirectory,
    before2: MeasuredDirectory,
    after2: MeasuredDirectory,
)
    requires
        entry_measured(entry1, first, name, allocated, logical),
        entry_measured(entry2, second, name, allocated, logical),
        entry_added(before1, after1, entry1),
        entry_added(before2, after2, entry2),
        before1.totals().allocated_bytes == before2.totals().allocated_bytes,
        before1.totals().logical_bytes == before2.totals().logical_bytes,
    ensures
        after1.totals().allocated_bytes == after2.totals().allocated_bytes,
        after1.totals().logical_bytes == after2.totals().logical_bytes,
        first.show_hidden && !second.show_hidden && crate::rules::is_dot_name(name) ==> entry1.is_visible()
            && !entry2.is_visible(),
{
}

/// The measured and logical totals of a precise listing are its directory's
/// own totals, whichever rows the configuration shows: listings built from
/// directories with the same totals have the same totals.
pub proof fn precise_totals_ignore_shown_rows(
    path: Seq<char>,
    first: ScanConfig,
    second: ScanConfig,
    fingerprint1: Seq<char>,
    fingerprint2: Seq<char>,
    root1: DirectoryAccumulator,
    root2: DirectoryAccumulator,
    children1: Seq<DirectChild>,
    children2: Seq<DirectChild>,
    safety1: Seq<PathDeleteSafety>,
    safety2: Seq<PathDeleteSafety>,
    listing1: DirectoryListing,
    listing2: DirectoryListing,
)
    requires
        precise_listing_of(path, first, fingerprint1, root1, children1, safety1, listing1),
        precise_listing_of(path, second, fingerprint2, root2, children2, safety2, listing2),
        root1.allocated_bytes == root2.allocated_bytes,
        root1.logical_bytes == root2.logical_bytes,
    ensures
        listing1.total_measured_size == listing2.total_measured_size,
        listing1.total_logical_size == listing2.total_logical_size,
{
}

} // verus!


//! The local filesystem driver: its cache of listings and directory totals, its
//! scan jobs, and every decision it takes between one filesystem access and the
//! next. The accesses themselves (canonicalizing paths, reading directories,
//! listing drives) happen outside the library; their results come in as
//! arguments.
use vstd::prelude::*;

use crate::cache::{
    find_entry, is_invalidated_path, lists_path, paths_sorted, stale_reaches, staled,
    stored_summaries, CacheFreshness, DirectoryCache, DirectoryCacheEntry,
};
use crate::driver::{
    adjusted_total, adjusted_total_spec, ensure_inside_volume, escape_message, inside_volume,
    is_io_error, normalize_path_lexically, outside_message, DirectoryListing,
    DirectorySizeSummary, DriverError, DriverResult, EntryKind, NodeState, PathNode,
};
use crate::driver::{InvalidationReceipt, InvalidationScope, OpenPathRequest, PreciseDirectoryScan};
use crate::drives::MountedDrive;
use crate::driver::{DirectoryProgressUpdate, DriverEvent, StartScanReceipt, StartScanRequest};
use crate::jobs::{
    matches_exact, state_of, state_set, superseded_ids, supersedes, JobRegistry, JobState,
    ProgressSnapshot, ScanJobHandle,
};
use crate::lexical::{equivalent_paths, equivalent_paths_spec};
use crate::scan::{PreciseDirectoryProgressUpdate, PreciseScanUpdate};
use crate::text::hex16_spec;
use crate::lexical::{
    comps_text, components_text, has_root, join_path, join_spec, normalize_spec,
    strip_prefix_components, strip_prefix_spec,
};
use crate::rules::ScanConfig;

verus! {

/// The directory total that a child takes from the cache: the one recorded for
/// its path under the listing's fingerprint, for a directory; none for another
/// entry.
pub open spec fn summary_of(cache: DirectoryCache, node: PathNode, fingerprint: Seq<char>) -> Option<
    DirectorySizeSummary,
> {
    if node.kind == EntryKind::Directory {
        cache.summary_for(node.path@, fingerprint)
    } else {
        None
    }
}

/// A child with a cached directory total applied: it takes the total's sizes
/// and issues, becomes complete, and its children count as known when none of
/// them is shown.
pub open spec fn enriched_node(node: PathNode, summary: Option<DirectorySizeSummary>) -> PathNode {
    match summary {
        Some(s) => PathNode {
            size: s.allocated_size,
            logical_size: s.logical_size,
            state: NodeState::Complete,
            children_known: !s.has_visible_children,
            issues: s.issues,
            ..node
        },
        None => node,
    }
}

/// The visible, measured and logical totals after the first `n` children have
/// taken their cached totals, each change moving the totals by the difference.
pub open spec fn enriched_totals(
    cache: DirectoryCache,
    children: Seq<PathNode>,
    fingerprint: Seq<char>,
    n: nat,
    start: (u64, u64, u64),
) -> (u64, u64, u64)
    decreases n,
{
    if n == 0 {
        start
    } else {
        let (v, m, l) = enriched_totals(cache, children, fingerprint, (n - 1) as nat, start);
        let c = children[n - 1];
        match summary_of(cache, c, fingerprint) {
            Some(s) => (
                if c.visible {
                    adjusted_total_spec(v, c.size, s.allocated_size)
                } else {
                    v
                },
                adjusted_total_spec(m, c.size, s.allocated_size),
                adjusted_total_spec(l, c.logical_size, s.logical_size),
            ),
            None => (v, m, l),
        }
    }
}

/// `after` is `before` with the cached directory totals applied: each child
/// takes its total (see `enriched_node`), the totals move by each change (see
/// `enriched_totals`), the listing has more depth exactly when some child's
/// children are unknown, and nothing else changes.
pub open spec fn enriched(cache: DirectoryCache, before: DirectoryListing, after: DirectoryListing) -> bool {
    &&& after.path == before.path
    &&& after.config_fingerprint == before.config_fingerprint
    &&& after.state == before.state
    &&& after.loaded_depth == before.loaded_depth
    &&& after.issues == before.issues
    &&& after.generation == before.generation
    &&& after.children@.len() == before.children@.len()
    &&& forall|i: int|
        0 <= i < before.children@.len() ==> #[trigger] after.children@[i].same(
            enriched_node(
                before.children@[i],
                summary_of(cache, before.children@[i], before.config_fingerprint@),
            ),
        )
    &&& (after.total_visible_size, after.total_measured_size, after.total_logical_size)
        == enriched_totals(
        cache,
        before.children@,
        before.config_fingerprint@,
        before.children@.len(),
        (before.total_visible_size, before.total_measured_size, before.total_logical_size),
    )
    &&& after.has_more_depth == exists|i: int|
        0 <= i < after.children@.len() && !(#[trigger] after.children@[i]).children_known
}

/// What answers a directory request: a listing (or the error), or the
/// directory to read from the filesystem first.
pub enum DirectoryRequest {
    Ready(DriverResult<DirectoryListing>),
    Discover { path: String, config: ScanConfig },
}

/// Whether an I/O error reports an interrupted operation (std
/// `io::Error::kind`). Nothing is stated of the answer: the error is opaque here.
#[verifier::external_body]
fn is_interrupted(error: &std::io::Error) -> bool {
    error.kind() == std::io::ErrorKind::Interrupted
}

/// Resolves the volume root: its canonical form, or the filesystem's error on it.
pub fn canonicalize_volume_root(volume_root: &str, canonical: Result<String, std::io::Error>) -> (r:
    DriverResult<String>)
    ensures
        match canonical {
            Ok(c) => r == Ok::<String, DriverError>(c),
            Err(e) => r matches Err(x) && is_io_error(x, volume_root@, e),
        },
{
    match canonical {
        Ok(c) => Ok(c),
        Err(source) => Err(DriverError::Io { path: volume_root.to_string(), source }),
    }
}

/// The path that invalidating a missing `path` names, before normalization:
/// an absolute path under the volume root is moved under the canonical root,
/// another absolute path is kept, and a relative path is joined to the
/// canonical root.
pub open spec fn invalidation_target(volume_root: Seq<char>, path: Seq<char>, canonical_root: Seq<
    char,
>) -> Seq<char> {
    if has_root(path) {
        match strip_prefix_spec(path, volume_root) {
            Some(rest) => join_spec(canonical_root, comps_text(rest)),
            None => path,
        }
    } else {
        join_spec(canonical_root, path)
    }
}

/// A configuration fingerprint: sixteen hexadecimal digits.
pub open spec fn is_fingerprint(fp: Seq<char>) -> bool {
    exists|h: u64| fp == hex16_spec(h as nat)
}

/// `r` answers a request for `path` under `config` and `fingerprint` from
/// `cache`: a cached listing that is not stale is returned with the cached
/// totals applied; otherwise the directory is to be read.
pub open spec fn answers_from_cache(
    cache: DirectoryCache,
    path: Seq<char>,
    config: ScanConfig,
    fingerprint: Seq<char>,
    r: DirectoryRequest,
) -> bool {
    let discover = r matches DirectoryRequest::Discover { path: d, config: c } && d@ == path && c
        == config;
    match find_entry(cache.entries_view(), path, fingerprint) {
        Some(i) => if cache.entries_view()[i].freshness != CacheFreshness::Stale {
            r matches DirectoryRequest::Ready(Ok(l)) && exists|b: DirectoryListing|
                b.same(cache.entries_view()[i].listing) && #[trigger] enriched(cache, b, l)
        } else {
            discover
        },
        None => discover,
    }
}

/// `after` holds `listing`, stored under its path and fingerprint with the next
/// generation and `freshness`, and `out` is the stored listing.
pub open spec fn stored_listing(
    before: DirectoryCache,
    after: DirectoryCache,
    listing: DirectoryListing,
    freshness: CacheFreshness,
    out: DirectoryListing,
) -> bool {
    &&& after.generation() == before.generation().saturating_add(1)
    &&& out.same(DirectoryListing { generation: after.generation(), ..listing })
    &&& find_entry(after.entries_view(), listing.path@, listing.config_fingerprint@) matches Some(k)
        && out.same(after.entries_view()[k].listing) && after.entries_view()[k].freshness
        == freshness
}

/// A drive's mount point names the volume root: its canonical form, or the
/// mount point itself, is equivalent to the root.
pub open spec fn mount_matches_root(drive: MountedDrive, canonical_root: Seq<char>) -> bool {
    (drive.canonical_mount matches Some(c) && equivalent_paths_spec(c@, canonical_root))
        || equivalent_paths_spec(drive.drive.mount_point@, canonical_root)
}

/// Whether a drive's mount point names the volume root.
pub fn drive_mount_matches_root(drive: &MountedDrive, canonical_root: &str) -> (r: bool)
    ensures
        r == mount_matches_root(*drive, canonical_root@),
{
    let canonical_matches = match &drive.canonical_mount {
        Some(c) => equivalent_paths(c, canonical_root),
        None => false,
    };
    canonical_matches || equivalent_paths(&drive.drive.mount_point, canonical_root)
}

/// The index of the first drive whose mount point names the root.
pub open spec fn first_mount_match(drives: Seq<MountedDrive>, canonical_root: Seq<char>) -> Option<int>
    decreases drives.len(),
{
    if drives.len() == 0 {
        None
    } else {
        match first_mount_match(drives.drop_last(), canonical_root) {
            Some(i) => Some(i),
            None => if mount_matches_root(drives.last(), canonical_root) {
                Some(drives.len() - 1)
            } else {
                None
            },
        }
    }
}

/// The used space of the drive mounted at the volume root, when the scan is
/// of the root itself and that drive reports some use.
pub open spec fn volume_used_space(canonical_root: Seq<char>, path: Seq<char>, drives: Seq<MountedDrive>) -> Option<u64> {
    if !equivalent_paths_spec(path, canonical_root) {
        None
    } else {
        match first_mount_match(drives, canonical_root) {
            Some(i) => {
                let used = drives[i].drive.total_space.saturating_sub(drives[i].drive.available_space);
                if used > 0 {
                    Some(used)
                } else {
                    None
                }
            },
            None => None,
        }
    }
}

/// Estimates the used space under a volume root from the drives mounted
/// there: the first drive whose mount point names the root, when the scan is
/// of the root itself and that drive reports some use.
pub fn estimate_volume_root_used_space(canonical_root: &str, path: &str, drives: &Vec<MountedDrive>) -> (r: Option<u64>)
    ensures
        r == volume_used_space(canonical_root@, path@, drives@),
{
    if !equivalent_paths(path, canonical_root) {
        return None;
    }
    let mut i: usize = 0;
    while i < drives.len()
        invariant
            i <= drives@.len(),
            equivalent_paths_spec(path@, canonical_root@),
            first_mount_match(drives@.take(i as int), canonical_root@) is None,
        decreases drives.len() - i,
    {
        proof {
            assert(drives@.take(i + 1).drop_last() =~= drives@.take(i as int));
        }
        if drive_mount_matches_root(&drives[i], canonical_root) {
            proof {
                assert(drives@.take(i + 1).last() == drives@[i as int]);
                lemma_first_match_extends(drives@, i as int + 1, i as int, canonical_root@);
            }
            let used = drives[i].drive.used_space();
            if used > 0 {
                return Some(used);
            }
            return None;
        }
        i = i + 1;
    }
    assert(drives@.take(drives.len() as int) =~= drives@);
    None
}

/// A first match found in a prefix is the first match of the whole list.
proof fn lemma_first_match_extends(drives: Seq<MountedDrive>, k: int, j: int, root: Seq<char>)
    requires
        0 <= k <= drives.len(),
        first_mount_match(drives.take(k), root) == Some(j),
    ensures
        first_mount_match(drives, root) == Some(j),
    decreases drives.len() - k,
{
    if k < drives.len() {
        assert(drives.take(k + 1).drop_last() =~= drives.take(k));
        lemma_first_match_extends(drives, k + 1, j, root);
    } else {
        assert(drives.take(k) =~= drives);
    }
}

/// The estimated size of a scan: the used space of the volume when the scan
/// is of its root, otherwise a positive cached total of the path under
/// `fingerprint`; nothing when the volume root did not resolve.
pub open spec fn scan_estimate(
    cache: DirectoryCache,
    canonical_root: Option<String>,
    path: Seq<char>,
    drives: Seq<MountedDrive>,
    fingerprint: Seq<char>,
) -> Option<u64> {
    match canonical_root {
        None => None,
        Some(root) => match volume_used_space(root@, path, drives) {
            Some(used) => Some(used),
            None => match cache.summary_for(path, fingerprint) {
                Some(s) => if s.allocated_size > 0 {
                    Some(s.allocated_size)
                } else {
                    None
                },
                None => None,
            },
        },
    }
}

/// A scan job to run: the job, its configuration, its estimated size and the
/// event that announces it.
pub struct ScanJob {
    pub handle: ScanJobHandle,
    pub config: ScanConfig,
    pub estimated_total_bytes: Option<u64>,
    pub queued: DriverEvent,
}

/// What starting a scan did: the receipt, and the job to run when one was
/// created (none when the request joined a job already under way).
pub struct ScanStart {
    pub receipt: StartScanReceipt,
    pub job: Option<ScanJob>,
}

/// The snapshot of a running job: the estimate schedules the work, every entry
/// visited is discovered and completed, one unit is active.
pub open spec fn running_snapshot(
    s: ProgressSnapshot,
    handle: ScanJobHandle,
    estimated_total_bytes: Option<u64>,
    update: PreciseScanUpdate,
) -> bool {
    &&& s.job_id@ == handle.job_id@
    &&& s.request_id@ == handle.request_id@
    &&& s.state == JobState::Running
    &&& s.estimated_total_bytes == estimated_total_bytes
    &&& s.scheduled_units == match estimated_total_bytes {
        Some(b) => b,
        None => 0,
    }
    &&& s.discovered_units == update.progress.entries_visited
    &&& s.completed_units == update.progress.entries_visited
    &&& s.active_units == 1
    &&& s.skipped_units == 0
    &&& s.failed_units == 0
    &&& s.canceled_units == 0
    &&& s.bytes_measured == update.progress.bytes_measured
    &&& s.active_paths@.len() == 0
}

/// A directory total during a scan, as reported: its sizes, still working.
pub open spec fn progress_update_of(u: PreciseDirectoryProgressUpdate, d: DirectoryProgressUpdate) -> bool {
    d.path@ == u.path@ && d.size == u.allocated_bytes && d.logical_size == u.logical_bytes && d.state
        == NodeState::Working
}

/// The snapshot of a completed job: the listing's measured size is the
/// estimate and the bytes measured; each child is a unit scheduled,
/// discovered and completed, so every scheduled unit has an outcome.
pub open spec fn completed_snapshot(s: ProgressSnapshot, handle: ScanJobHandle, listing: DirectoryListing) -> bool {
    &&& s.job_id@ == handle.job_id@
    &&& s.request_id@ == handle.request_id@
    &&& s.state == JobState::Completed
    &&& s.estimated_total_bytes == Some(listing.total_measured_size)
    &&& s.scheduled_units == listing.children@.len()
    &&& s.discovered_units == listing.children@.len()
    &&& s.completed_units == listing.children@.len()
    &&& s.active_units == 0
    &&& s.skipped_units == 0
    &&& s.failed_units == 0
    &&& s.canceled_units == 0
    &&& s.bytes_measured == listing.total_measured_size
    &&& s.active_paths@.len() == 0
}

/// `r` reports a running scan's progress: a snapshot alone when no directory
/// total changed, else the changed totals, in order, with the snapshot.
pub open spec fn is_progress_event(
    handle: ScanJobHandle,
    estimated_total_bytes: Option<u64>,
    update: PreciseScanUpdate,
    r: DriverEvent,
) -> bool {
    if update.directory_updates@.len() == 0 {
        r matches DriverEvent::ProgressSnapshot { job_id, request_id, snapshot } && job_id@
            == handle.job_id@ && request_id@ == handle.request_id@ && running_snapshot(
            snapshot,
            handle,
            estimated_total_bytes,
            update,
        )
    } else {
        r matches DriverEvent::DirectoryProgress { job_id, request_id, path, updates, snapshot }
            && job_id@ == handle.job_id@ && request_id@ == handle.request_id@ && path@
            == handle.root_path@ && running_snapshot(snapshot, handle, estimated_total_bytes, update)
            && updates@.len() == update.directory_updates@.len() && forall|k: int|
            0 <= k < updates@.len() ==> progress_update_of(
                update.directory_updates@[k],
                #[trigger] updates@[k],
            )
    }
}

/// The event that reports a running scan's progress: a snapshot alone when no
/// directory total changed, else the changed totals with the snapshot.
pub fn progress_event(handle: &ScanJobHandle, estimated_total_bytes: Option<u64>, update: PreciseScanUpdate) -> (r:
    DriverEvent)
    ensures
        is_progress_event(*handle, estimated_total_bytes, update, r),
{
    let ghost u = update;
    let mut snapshot = ProgressSnapshot::new(handle.job_id.clone(), handle.request_id.clone());
    snapshot.state = JobState::Running;
    snapshot.estimated_total_bytes = estimated_total_bytes;
    snapshot.scheduled_units = match estimated_total_bytes {
        Some(b) => b,
        None => 0,
    };
    snapshot.discovered_units = update.progress.entries_visited;
    snapshot.completed_units = update.progress.entries_visited;
    snapshot.active_units = 1;
    snapshot.bytes_measured = update.progress.bytes_measured;
    if update.directory_updates.len() == 0 {
        return DriverEvent::ProgressSnapshot {
            job_id: handle.job_id.clone(),
            request_id: handle.request_id.clone(),
            snapshot,
        };
    }
    let mut updates: Vec<DirectoryProgressUpdate> = Vec::new();
    for d in it: update.directory_updates.into_iter()
        invariant
            it.seq() == u.directory_updates@,
            updates@.len() == it.index(),
            forall|k: int|
                0 <= k < it.index() ==> progress_update_of(
                    u.directory_updates@[k],
                    #[trigger] updates@[k],
                ),
    {
        let ghost k = it.index();
        assert(it.seq()[k as int] == d);
        updates.push(
            DirectoryProgressUpdate {
                path: d.path,
                size: d.allocated_bytes,
                logical_size: d.logical_bytes,
                state: NodeState::Working,
            },
        );
    }
    DriverEvent::DirectoryProgress {
        job_id: handle.job_id.clone(),
        request_id: handle.request_id.clone(),
        path: handle.root_path.clone(),
        updates,
        snapshot,
    }
}

/// A request joined a job under way: some queued or running job of the path
/// under the fingerprint has the receipt's identifiers.
pub open spec fn joined_job(jobs: JobRegistry, path: Seq<char>, fingerprint: Seq<char>, receipt: StartScanReceipt) -> bool {
    exists|i: int|
        0 <= i < jobs.jobs_view().len() && matches_exact(#[trigger] jobs.jobs_view()[i], path, fingerprint)
            && jobs.jobs_view()[i].job_id@ == receipt.job_id@ && jobs.jobs_view()[i].request_id@
            == receipt.request_id@
}

/// `after` is `before` with the active jobs at or under `path` superseded.
pub open spec fn superseded_under(before: JobRegistry, after: JobRegistry, path: Seq<char>) -> bool {
    &&& after.wf()
    &&& after.count() == before.count()
    &&& after.jobs_view().len() == before.jobs_view().len()
    &&& forall|i: int|
        0 <= i < before.jobs_view().len() ==> if supersedes(before.jobs_view()[i], path) {
            (#[trigger] after.jobs_view()[i]).same(
                ScanJobHandle { state: JobState::Superseded, ..before.jobs_view()[i] },
            )
        } else {
            after.jobs_view()[i] == before.jobs_view()[i]
        }
}

/// What starting a scan of `path` did: `scan_started_under` some
/// fingerprint of the normalized configuration (the fingerprint is a hash
/// that is not named here).
pub open spec fn scan_started(
    cache: DirectoryCache,
    before: JobRegistry,
    after: JobRegistry,
    request: StartScanRequest,
    path: Seq<char>,
    canonical_root: Option<String>,
    drives: Seq<MountedDrive>,
    start: ScanStart,
) -> bool {
    exists|fp: Seq<char>|
        is_fingerprint(fp) && #[trigger] scan_started_under(
            cache,
            before,
            after,
            request,
            path,
            canonical_root,
            drives,
            start,
            fp,
        )
}

/// What starting a scan of `path` under the fingerprint `fp` of the
/// normalized configuration did, from the jobs `before` to the jobs `after`:
/// replacing supersedes the active jobs at or under the path; then a request
/// that does not replace joins an active job of the path under `fp` when there
/// is one, and otherwise a queued job under `fp` is added and returned to be
/// run, with the estimate of `scan_estimate` under `fp`.
pub open spec fn scan_started_under(
    cache: DirectoryCache,
    before: JobRegistry,
    after: JobRegistry,
    request: StartScanRequest,
    path: Seq<char>,
    canonical_root: Option<String>,
    drives: Seq<MountedDrive>,
    start: ScanStart,
    fp: Seq<char>,
) -> bool {
    exists|mid: JobRegistry|
        #![trigger mid.wf()]
        (if request.replace_existing {
            superseded_under(before, mid, path)
        } else {
            mid == before
        }) && if !request.replace_existing && exists|i: int|
            0 <= i < mid.jobs_view().len() && matches_exact(#[trigger] mid.jobs_view()[i], path, fp) {
            &&& start.job is None
            &&& after == mid
            &&& joined_job(mid, path, fp, start.receipt)
        } else {
            &&& after.count() == mid.count() + 1
            &&& after.jobs_view().len() == mid.jobs_view().len() + 1
            &&& forall|i: int|
                0 <= i < mid.jobs_view().len() ==> #[trigger] after.jobs_view()[i]
                    == mid.jobs_view()[i]
            &&& start.job matches Some(job) && {
                &&& after.jobs_view().last().same(job.handle)
                &&& job.handle.job_id@ == crate::jobs::job_id_spec(after.count())
                &&& job.handle.request_id@ == crate::jobs::request_id_spec(after.count())
                &&& job.handle.root_path@ == path
                &&& job.handle.config_fingerprint@ == fp
                &&& job.handle.state == JobState::Queued
                &&& job.config == request.config.normalized_spec()
                &&& job.estimated_total_bytes == scan_estimate(cache, canonical_root, path, drives, fp)
                &&& start.receipt.job_id@ == job.handle.job_id@
                &&& start.receipt.request_id@ == job.handle.request_id@
                &&& job.queued matches DriverEvent::JobQueued { job_id, request_id, path: q }
                    && job_id@ == job.handle.job_id@ && request_id@ == job.handle.request_id@ && q@
                    == path
            }
        }
}

/// The events of a completed job: the listing, the completed snapshot, the end.
pub open spec fn completed_events(handle: ScanJobHandle, listing: DirectoryListing, events: Seq<DriverEvent>) -> bool {
    &&& events.len() == 3
    &&& events[0] matches DriverEvent::DirectoryReady { job_id, request_id, path, listing: l }
        && job_id@ == handle.job_id@ && request_id@ == handle.request_id@ && path@ == listing.path@
        && l == listing
    &&& events[1] matches DriverEvent::ProgressSnapshot { job_id, request_id, snapshot }
        && job_id@ == handle.job_id@ && request_id@ == handle.request_id@ && completed_snapshot(
        snapshot,
        handle,
        listing,
    )
    &&& events[2] matches DriverEvent::JobFinished { job_id, request_id, path } && job_id@
        == handle.job_id@ && request_id@ == handle.request_id@ && path@ == handle.root_path@
}

/// The event of a failed job: its failure, with the error's message.
pub open spec fn failed_events(handle: ScanJobHandle, e: DriverError, events: Seq<DriverEvent>) -> bool {
    &&& events.len() == 1
    &&& events[0] matches DriverEvent::JobFailed { job_id, request_id, path, message } && job_id@
        == handle.job_id@ && request_id@ == handle.request_id@ && path@ == handle.root_path@
        && message@.len() >= crate::driver::error_message_prefix(e).len() && message@.subrange(
        0,
        crate::driver::error_message_prefix(e).len() as int,
    ) == crate::driver::error_message_prefix(e)
}

/// The job called `id` has ended in `jobs`: it is there and its state is
/// terminal.
pub open spec fn job_ended(jobs: Seq<ScanJobHandle>, id: Seq<char>) -> bool {
    state_of(jobs, id) matches Some(s) && crate::jobs::is_terminal_state(s)
}

/// How a job ended, from the jobs `before` to the jobs `after`, with the
/// events reported, when its cancel flag reads `canceled`. A job whose flag is
/// set, or that has ended already (canceled or superseded meanwhile), is
/// canceled quietly (`canceled_in`: an ended job keeps its state), as is a
/// scan that failed by being canceled. Otherwise a listing completes the job
/// (`completed_events`) and any other failure fails it (`failed_events`).
pub open spec fn job_finished(
    before: Seq<ScanJobHandle>,
    after: Seq<ScanJobHandle>,
    handle: ScanJobHandle,
    result: DriverResult<DirectoryListing>,
    canceled: bool,
    events: Seq<DriverEvent>,
) -> bool {
    let id = handle.job_id@;
    let quiet = canceled || job_ended(before, id) || result matches Err(DriverError::ScanCanceled);
    if quiet {
        events.len() == 0 && crate::jobs::canceled_in(before, after, id)
    } else {
        match result {
            Ok(listing) => state_set(before, after, id, JobState::Completed) && completed_events(
                handle,
                listing,
                events,
            ),
            Err(e) => state_set(before, after, id, JobState::Failed) && failed_events(handle, e, events),
        }
    }
}

/// The local filesystem driver.
pub struct LocalHdDriver {
    cache: DirectoryCache,
    jobs: JobRegistry,
}

impl LocalHdDriver {
    /// The cache of listings and directory totals.
    pub closed spec fn cache(&self) -> DirectoryCache {
        self.cache
    }

    /// The scan jobs.
    pub closed spec fn jobs(&self) -> JobRegistry {
        self.jobs
    }

    /// The cache and the job registry are well formed.
    pub open spec fn wf(&self) -> bool {
        self.cache().wf() && self.jobs().wf()
    }

    /// A driver with an empty cache and no jobs.
    pub fn new() -> (r: Self)
        ensures
            r.wf(),
            r.cache().entries_view().len() == 0,
            r.cache().summaries_view() == Map::<Seq<char>, DirectorySizeSummary>::empty(),
            r.cache().generation() == 0,
            r.jobs().jobs_view().len() == 0,
            r.jobs().count() == 0,
    {
        LocalHdDriver { cache: DirectoryCache::new(), jobs: JobRegistry::new() }
    }

    /// Applies the cached directory totals to a listing: each directory child
    /// with a total recorded under the listing's fingerprint takes it (see
    /// `enriched_node`), the listing's totals move by each change, and the
    /// listing has more depth exactly when some child's children are unknown.
    pub fn enrich_listing_from_cached_summaries(&self, listing: &mut DirectoryListing)
        requires
            self.wf(),
        ensures
            enriched(self.cache(), *old(listing), *final(listing)),
    {
        let ghost old_children = listing.children@;
        let ghost start = (
            listing.total_visible_size,
            listing.total_measured_size,
            listing.total_logical_size,
        );
        let mut children: Vec<PathNode> = Vec::new();
        std::mem::swap(&mut children, &mut listing.children);
        let mut total_visible_size = listing.total_visible_size;
        let mut total_measured_size = listing.total_measured_size;
        let mut total_logical_size = listing.total_logical_size;
        let mut has_more_depth = false;
        let mut out: Vec<PathNode> = Vec::new();
        let fingerprint = &listing.config_fingerprint;
        for child in it: children.into_iter()
            invariant
                self.wf(),
                it.seq() == old_children,
                fingerprint@ == old(listing).config_fingerprint@,
                out@.len() == it.index(),
                forall|j: int|
                    0 <= j < it.index() ==> #[trigger] out@[j].same(
                        enriched_node(
                            old_children[j],
                            summary_of(self.cache(), old_children[j], fingerprint@),
                        ),
                    ),
                (total_visible_size, total_measured_size, total_logical_size) == enriched_totals(
                    self.cache(),
                    old_children,
                    fingerprint@,
                    it.index() as nat,
                    start,
                ),
                has_more_depth == exists|j: int|
                    0 <= j < it.index() && !(#[trigger] out@[j]).children_known,
        {
            let ghost k = it.index();
            let ghost before = child;
            assert(old_children[k as int] == child);
            let mut child = child;
            let is_directory = match child.kind {
                EntryKind::Directory => true,
                _ => false,
            };
            if is_directory {
                match self.cache.get_summary(&child.path, fingerprint) {
                    Some(summary) => {
                        let previous_size = child.size;
                        let previous_logical_size = child.logical_size;
                        child.size = summary.allocated_size;
                        child.logical_size = summary.logical_size;
                        child.state = NodeState::Complete;
                        child.children_known = !summary.has_visible_children;
                        child.issues = summary.issues;
                        total_measured_size = adjusted_total(
                            total_measured_size,
                            previous_size,
                            child.size,
                        );
                        total_logical_size = adjusted_total(
                            total_logical_size,
                            previous_logical_size,
                            child.logical_size,
                        );
                        if child.visible {
                            total_visible_size = adjusted_total(
                                total_visible_size,
                                previous_size,
                                child.size,
                            );
                        }
                    },
                    None => {},
                }
            }
            proof {
                lemma_node_same_refl(child);
            }
            let ghost had_more = has_more_depth;
            let ghost before_out = out@;
            has_more_depth = has_more_depth || !child.children_known;
            out.push(child);
            assert(out@[k as int] == child);
            proof {
                assert(forall|j: int| 0 <= j < k ==> out@[j] == before_out[j]);
                if had_more {
                    let w = choose|j: int| 0 <= j < k && !(#[trigger] before_out[j]).children_known;
                    assert(out@[w] == before_out[w]);
                }
                if !out@[k as int].children_known {
                    assert(!out@[k as int].children_known);
                }
            }
        }
        listing.children = out;
        listing.total_visible_size = total_visible_size;
        listing.total_measured_size = total_measured_size;
        listing.total_logical_size = total_logical_size;
        listing.has_more_depth = has_more_depth;
    }

    /// Confines an existing path to its volume, from the canonical forms of the
    /// volume root and of the path: a failure to resolve either is reported for
    /// it, and a path outside the root is refused.
    pub fn scoped_existing_path(
        &self,
        volume_root: &str,
        path: &str,
        canonical_root: Result<String, std::io::Error>,
        canonical_path: Result<String, std::io::Error>,
    ) -> (r: DriverResult<String>)
        ensures
            match (canonical_root, canonical_path) {
                (Err(e), _) => r matches Err(x) && is_io_error(x, volume_root@, e),
                (Ok(_), Err(e)) => r matches Err(x) && is_io_error(x, path@, e),
                (Ok(root), Ok(p)) => if inside_volume(root@, p@) {
                    r == Ok::<String, DriverError>(p)
                } else {
                    r matches Err(DriverError::PathOutsideVolume(m)) && m@ == outside_message(
                        p@,
                        root@,
                    )
                },
            },
    {
        let root = match canonicalize_volume_root(volume_root, canonical_root) {
            Ok(root) => root,
            Err(e) => return Err(e),
        };
        let canonical = match canonical_path {
            Ok(p) => p,
            Err(source) => return Err(DriverError::Io { path: path.to_string(), source }),
        };
        match ensure_inside_volume(&root, &canonical) {
            Ok(()) => Ok(canonical),
            Err(e) => Err(e),
        }
    }

    /// Confines a path to invalidate to its volume. With the canonical root
    /// resolved, an existing path takes `existing`, the outcome of
    /// `scoped_existing_path` for it; a missing one is placed by
    /// `invalidation_target` and normalized lexically, and it must stay inside
    /// the normalized root.
    pub fn scoped_invalidation_path(
        &self,
        volume_root: &str,
        path: &str,
        canonical_root: Result<String, std::io::Error>,
        existing: Option<DriverResult<String>>,
    ) -> (r: DriverResult<String>)
        ensures
            match canonical_root {
                Err(e) => r matches Err(x) && is_io_error(x, volume_root@, e),
                Ok(root) => match existing {
                    Some(scoped) => r == scoped,
                    None => {
                        let target = invalidation_target(volume_root@, path@, root@);
                        match (normalize_spec(root@), normalize_spec(target)) {
                            (None, _) => r matches Err(DriverError::InvalidPath(m)) && m@
                                == escape_message(root@),
                            (Some(_), None) => r matches Err(DriverError::InvalidPath(m)) && m@
                                == escape_message(target),
                            (Some(nr), Some(np)) => if inside_volume(nr, np) {
                                r matches Ok(s) && s@ == np
                            } else {
                                r matches Err(DriverError::PathOutsideVolume(m)) && m@
                                    == outside_message(np, nr)
                            },
                        }
                    },
                },
            },
    {
        let root = match canonicalize_volume_root(volume_root, canonical_root) {
            Ok(root) => root,
            Err(e) => return Err(e),
        };
        if let Some(scoped) = existing {
            return scoped;
        }
        let absolute = if path_is_absolute(path) {
            match strip_prefix_components(path, volume_root) {
                Some(rest) => join_path(&root, &components_text(&rest)),
                None => path.to_string(),
            }
        } else {
            join_path(&root, path)
        };
        assert(absolute@ == invalidation_target(volume_root@, path@, root@));
        let normalized_root = match normalize_path_lexically(&root) {
            Ok(n) => n,
            Err(e) => return Err(e),
        };
        let normalized_path = match normalize_path_lexically(&absolute) {
            Ok(n) => n,
            Err(e) => return Err(e),
        };
        match ensure_inside_volume(&normalized_root, &normalized_path) {
            Ok(()) => Ok(normalized_path),
            Err(e) => Err(e),
        }
    }

    /// Answers a request for a directory that lies inside its volume
    /// (`scoped_path`, from `scoped_existing_path`): under the normalized
    /// configuration and its fingerprint, a cached listing that is not stale is
    /// returned with the cached totals applied; otherwise the directory is to
    /// be read and handed to `discover_and_cache_with_progress`.
    pub fn get_directory_with_open_progress(&self, scoped_path: DriverResult<String>, config: &ScanConfig) -> (r:
        DirectoryRequest)
        requires
            self.wf(),
        ensures
            match scoped_path {
                Err(e) => r == DirectoryRequest::Ready(Err(e)),
                Ok(p) => exists|fp: Seq<char>|
                    is_fingerprint(fp) && #[trigger] answers_from_cache(
                        self.cache(),
                        p@,
                        config.normalized_spec(),
                        fp,
                        r,
                    ),
            },
    {
        let config = config.normalized();
        let path = match scoped_path {
            Ok(p) => p,
            Err(e) => return DirectoryRequest::Ready(Err(e)),
        };
        let fingerprint = config.fingerprint();
        let cached = self.cache.get(&path, &fingerprint);
        let r = match cached {
            Some(entry) => {
                let fresh = match entry.freshness {
                    CacheFreshness::Stale => false,
                    _ => true,
                };
                if fresh {
                    let mut listing = entry.listing;
                    let ghost before = listing;
                    self.enrich_listing_from_cached_summaries(&mut listing);
                    assert(enriched(self.cache(), before, listing));
                    DirectoryRequest::Ready(Ok(listing))
                } else {
                    DirectoryRequest::Discover { path, config }
                }
            },
            None => DirectoryRequest::Discover { path, config },
        };
        assert(answers_from_cache(self.cache(), path@, config, fingerprint@, r));
        r
    }

    /// Answers a request to open a directory, given where the request's path
    /// lies (`scoped_existing_path` of its volume root and path): as
    /// `get_directory_with_open_progress` under the request's configuration.
    pub fn open_path_with_progress(&self, request: &OpenPathRequest, scoped_path: DriverResult<String>) -> (r:
        DirectoryRequest)
        requires
            self.wf(),
        ensures
            match scoped_path {
                Err(e) => r == DirectoryRequest::Ready(Err(e)),
                Ok(p) => exists|fp: Seq<char>|
                    is_fingerprint(fp) && #[trigger] answers_from_cache(
                        self.cache(),
                        p@,
                        request.config.normalized_spec(),
                        fp,
                        r,
                    ),
            },
    {
        self.get_directory_with_open_progress(scoped_path, &request.config)
    }

    /// Caches a directory read from the filesystem: the listing takes the
    /// cached totals and is stored fresh; a read that failed is reported for
    /// `path`.
    pub fn discover_and_cache_with_progress(
        &mut self,
        path: &str,
        discovered: Result<DirectoryListing, std::io::Error>,
    ) -> (r: DriverResult<DirectoryListing>)
        requires
            old(self).wf(),
        ensures
            final(self).wf(),
            final(self).jobs() == old(self).jobs(),
            match discovered {
                Err(e) => r matches Err(x) && is_io_error(x, path@, e) && final(self).cache() == old(self).cache(),
                Ok(l) => r matches Ok(out) && exists|x: DirectoryListing|
                    #[trigger] enriched(old(self).cache(), l, x) && stored_listing(
                        old(self).cache(),
                        final(self).cache(),
                        x,
                        CacheFreshness::Fresh,
                        out,
                    ) && final(self).cache().summaries_view() == old(self).cache().summaries_view(),
            },
    {
        let mut listing = match discovered {
            Ok(l) => l,
            Err(source) => return Err(DriverError::Io { path: path.to_string(), source }),
        };
        let ghost before = listing;
        self.enrich_listing_from_cached_summaries(&mut listing);
        let ghost x = listing;
        let entry = self.cache.upsert(listing, CacheFreshness::Fresh);
        assert(stored_listing(old(self).cache(), self.cache(), x, CacheFreshness::Fresh, entry.listing));
        Ok(entry.listing)
    }

    /// Caches a directory read from the filesystem as it was read, stored
    /// fresh; a read that failed is reported for `path`.
    pub fn discover_and_cache(
        &mut self,
        path: &str,
        discovered: Result<DirectoryListing, std::io::Error>,
    ) -> (r: DriverResult<DirectoryListing>)
        requires
            old(self).wf(),
        ensures
            final(self).wf(),
            final(self).jobs() == old(self).jobs(),
            match discovered {
                Err(e) => r matches Err(x) && is_io_error(x, path@, e) && final(self).cache() == old(self).cache(),
                Ok(l) => r matches Ok(out) && stored_listing(
                    old(self).cache(),
                    final(self).cache(),
                    l,
                    CacheFreshness::Fresh,
                    out,
                ) && final(self).cache().summaries_view() == old(self).cache().summaries_view(),
            },
    {
        let listing = match discovered {
            Ok(l) => l,
            Err(source) => return Err(DriverError::Io { path: path.to_string(), source }),
        };
        let ghost x = listing;
        let entry = self.cache.upsert(listing, CacheFreshness::Fresh);
        assert(stored_listing(old(self).cache(), self.cache(), x, CacheFreshness::Fresh, entry.listing));
        Ok(entry.listing)
    }

    /// Caches the outcome of a precise scan: its directory totals and its
    /// listing, stored fresh. An interrupted scan is reported as canceled (which
    /// failures count as interrupted is the I/O error's own kind), any other
    /// failure for `path`.
    pub fn discover_precise_and_cache(
        &mut self,
        path: &str,
        precise: Result<PreciseDirectoryScan, std::io::Error>,
    ) -> (r: DriverResult<DirectoryListing>)
        requires
            old(self).wf(),
        ensures
            final(self).wf(),
            final(self).jobs() == old(self).jobs(),
            match precise {
                Err(e) => final(self).cache() == old(self).cache() && (r matches Err(
                    DriverError::ScanCanceled,
                ) || (r matches Err(x) && is_io_error(x, path@, e))),
                Ok(p) => r matches Ok(out) && stored_listing(
                    old(self).cache(),
                    final(self).cache(),
                    p.listing,
                    CacheFreshness::Fresh,
                    out,
                ) && final(self).cache().summaries_view() == stored_summaries(
                    old(self).cache().summaries_view(),
                    p.summaries@,
                ),
            },
    {
        let precise = match precise {
            Ok(p) => p,
            Err(source) => {
                if is_interrupted(&source) {
                    return Err(DriverError::ScanCanceled);
                }
                return Err(DriverError::Io { path: path.to_string(), source });
            },
        };
        let ghost p = precise;
        let entry = self.cache.upsert_precise(precise, CacheFreshness::Fresh);
        assert(stored_listing(old(self).cache(), self.cache(), p.listing, CacheFreshness::Fresh, entry.listing));
        Ok(entry.listing)
    }

    /// Invalidates a path that lies inside its volume (`scoped_path`, from
    /// `scoped_invalidation_path`): the cached listings it reaches (the path,
    /// and what lies under it for `PathAndDescendants`) become stale, and every
    /// active job at or under the path is superseded.
    pub fn invalidate_path(&mut self, scoped_path: DriverResult<String>, scope: InvalidationScope) -> (r:
        DriverResult<InvalidationReceipt>)
        requires
            old(self).wf(),
        ensures
            final(self).wf(),
            match scoped_path {
                Err(e) => r == Err::<InvalidationReceipt, DriverError>(e) && final(self).cache()
                    == old(self).cache() && final(self).jobs() == old(self).jobs(),
                Ok(p) => {
                    let descendants = scope == InvalidationScope::PathAndDescendants;
                    let before = old(self).cache().entries_view();
                    let jobs = old(self).jobs().jobs_view();
                    &&& r matches Ok(receipt)
                    &&& final(self).cache().summaries_view() == old(self).cache().summaries_view()
                    &&& final(self).cache().entries_view().len() == before.len()
                    &&& forall|i: int|
                        0 <= i < before.len() ==> #[trigger] final(self).cache().entries_view()[i]
                            == staled(before[i], p@, descendants)
                    &&& paths_sorted(receipt.invalidated_paths@)
                    &&& forall|k: int|
                        0 <= k < receipt.invalidated_paths@.len() ==> is_invalidated_path(
                            before,
                            p@,
                            descendants,
                            #[trigger] receipt.invalidated_paths@[k]@,
                        )
                    &&& forall|i: int|
                        0 <= i < before.len() && stale_reaches(#[trigger] before[i], p@, descendants)
                            ==> lists_path(receipt.invalidated_paths@, before[i].path@)
                    &&& final(self).jobs().jobs_view().len() == jobs.len()
                    &&& forall|i: int|
                        0 <= i < jobs.len() ==> if supersedes(jobs[i], p@) {
                            (#[trigger] final(self).jobs().jobs_view()[i]).same(
                                ScanJobHandle { state: JobState::Superseded, ..jobs[i] },
                            )
                        } else {
                            final(self).jobs().jobs_view()[i] == jobs[i]
                        }
                    &&& receipt.superseded_job_ids@.len() == superseded_ids(jobs, p@).len()
                    &&& forall|k: int|
                        0 <= k < receipt.superseded_job_ids@.len()
                            ==> #[trigger] receipt.superseded_job_ids@[k]@ == superseded_ids(
                            jobs,
                            p@,
                        )[k]
                },
            },
    {
        let path = match scoped_path {
            Ok(p) => p,
            Err(e) => return Err(e),
        };
        let descendants = match scope {
            InvalidationScope::PathAndDescendants => true,
            InvalidationScope::PathOnly => false,
        };
        let invalidated_paths = self.cache.mark_stale(&path, descendants);
        let superseded_job_ids = self.jobs.supersede_path(&path);
        Ok(InvalidationReceipt { invalidated_paths, superseded_job_ids })
    }

    /// Cancels the job called `job_id` (a queued or running job becomes
    /// `Canceled`, an ended one keeps its state); a job that does not exist is
    /// reported as not found.
    pub fn cancel_job(&mut self, job_id: &str) -> (r: DriverResult<()>)
        requires
            old(self).wf(),
        ensures
            final(self).wf(),
            final(self).cache() == old(self).cache(),
            final(self).jobs().jobs_view().len() == old(self).jobs().jobs_view().len(),
            (r is Ok) == exists|i: int|
                0 <= i < old(self).jobs().jobs_view().len() && old(self).jobs().jobs_view()[i].job_id@
                    == job_id@,
            r matches Err(e) ==> e matches DriverError::JobNotFound(m) && m@ == job_id@,
            forall|i: int|
                0 <= i < old(self).jobs().jobs_view().len() ==> {
                    let before = old(self).jobs().jobs_view()[i];
                    let after = #[trigger] final(self).jobs().jobs_view()[i];
                    if before.job_id@ == job_id@ {
                        after.same(ScanJobHandle { state: crate::jobs::canceled_state(before.state), ..before })
                    } else {
                        after == before
                    }
                },
    {
        if self.jobs.cancel(job_id) {
            Ok(())
        } else {
            Err(DriverError::JobNotFound(job_id.to_string()))
        }
    }

    /// Estimates the size of a scan of `path` under `fingerprint`
    /// (`scan_estimate`). `canonical_root` is the canonical volume root, when
    /// it resolved.
    pub fn estimate_scan_total_bytes_under(
        &self,
        canonical_root: &Option<String>,
        path: &str,
        fingerprint: &str,
        drives: &Vec<MountedDrive>,
    ) -> (r: Option<u64>)
        requires
            self.wf(),
        ensures
            r == scan_estimate(self.cache(), *canonical_root, path@, drives@, fingerprint@),
    {
        let root = match canonical_root {
            Some(root) => root,
            None => return None,
        };
        if let Some(used_space) = estimate_volume_root_used_space(root, path, drives) {
            return Some(used_space);
        }
        match self.cache.get_summary(path, fingerprint) {
            Some(summary) => if summary.allocated_size > 0 {
                Some(summary.allocated_size)
            } else {
                None
            },
            None => None,
        }
    }

    /// Estimates the size of a scan of `path`: see `scan_estimate`, under the
    /// configuration's fingerprint. `canonical_root` is the canonical volume
    /// root, when it resolved.
    pub fn estimate_scan_total_bytes(
        &self,
        canonical_root: Option<String>,
        path: &str,
        config: &ScanConfig,
        drives: &Vec<MountedDrive>,
    ) -> (r: Option<u64>)
        requires
            self.wf(),
        ensures
            exists|fp: Seq<char>|
                is_fingerprint(fp) && r == #[trigger] scan_estimate(
                    self.cache(),
                    canonical_root,
                    path@,
                    drives@,
                    fp,
                ),
    {
        let fingerprint = config.fingerprint();
        let r = self.estimate_scan_total_bytes_under(&canonical_root, path, fingerprint.as_str(), drives);
        assert(is_fingerprint(fingerprint@));
        r
    }

    /// Starts a background scan of a directory inside its volume
    /// (`scoped_path`, from `scoped_existing_path`) under `fingerprint`, the
    /// fingerprint of the request's normalized configuration: see
    /// `scan_started_under`.
    pub fn start_scan_with_fingerprint(
        &mut self,
        request: StartScanRequest,
        scoped_path: DriverResult<String>,
        canonical_root: Option<String>,
        drives: &Vec<MountedDrive>,
        fingerprint: String,
    ) -> (r: DriverResult<ScanStart>)
        requires
            old(self).wf(),
            old(self).jobs().has_room(),
        ensures
            final(self).wf(),
            final(self).cache() == old(self).cache(),
            match scoped_path {
                Err(e) => r == Err::<ScanStart, DriverError>(e) && final(self).jobs() == old(self).jobs(),
                Ok(p) => r matches Ok(start) && scan_started_under(
                    old(self).cache(),
                    old(self).jobs(),
                    final(self).jobs(),
                    request,
                    p@,
                    canonical_root,
                    drives@,
                    start,
                    fingerprint@,
                ),
            },
    {
        let path = match scoped_path {
            Ok(p) => p,
            Err(e) => return Err(e),
        };
        let ghost jobs0 = self.jobs;
        if request.replace_existing {
            let _ = self.jobs.supersede_path(&path);
        }
        let ghost jobs1 = self.jobs;
        let config = request.config.normalized();
        let estimated_total_bytes = self.estimate_scan_total_bytes_under(
            &canonical_root,
            &path,
            fingerprint.as_str(),
            drives,
        );
        let ghost fp = fingerprint@;
        if !request.replace_existing {
            if let Some(existing) = self.jobs.active_exact(&path, &fingerprint) {
                let receipt = StartScanReceipt {
                    job_id: existing.job_id,
                    request_id: existing.request_id,
                };
                let start = ScanStart { receipt, job: None };
                assert(joined_job(jobs1, path@, fp, start.receipt));
                proof {
                    assert(jobs1.wf());
                    assert(scan_started_under(
                        old(self).cache(),
                        jobs0,
                        self.jobs,
                        request,
                        path@,
                        canonical_root,
                        drives@,
                        start,
                        fp,
                    ));
                }
                return Ok(start);
            }
        }
        let handle = self.jobs.create(path.clone(), fingerprint);
        let receipt = StartScanReceipt {
            job_id: handle.job_id.clone(),
            request_id: handle.request_id.clone(),
        };
        let queued = DriverEvent::JobQueued {
            job_id: handle.job_id.clone(),
            request_id: handle.request_id.clone(),
            path,
        };
        let start = ScanStart {
            receipt,
            job: Some(ScanJob { handle, config, estimated_total_bytes, queued }),
        };
        proof {
            assert(jobs1.wf());
            assert(scan_started_under(
                old(self).cache(),
                jobs0,
                self.jobs,
                request,
                path@,
                canonical_root,
                drives@,
                start,
                fp,
            ));
        }
        Ok(start)
    }

    /// Starts a background scan of a directory inside its volume
    /// (`scoped_path`, from `scoped_existing_path`) under the fingerprint of
    /// the request's normalized configuration (`start_scan_with_fingerprint`).
    /// When asked to replace, the active jobs at or under the path are
    /// superseded first. Without replacing, a request joins an active job of
    /// the same path under the same fingerprint; otherwise a queued job is
    /// created and returned to be run, with the normalized configuration, the
    /// estimate under the same fingerprint and the event that announces it.
    pub fn start_scan(
        &mut self,
        request: StartScanRequest,
        scoped_path: DriverResult<String>,
        canonical_root: Option<String>,
        drives: &Vec<MountedDrive>,
    ) -> (r: DriverResult<ScanStart>)
        requires
            old(self).wf(),
            old(self).jobs().has_room(),
        ensures
            final(self).wf(),
            final(self).cache() == old(self).cache(),
            match scoped_path {
                Err(e) => r == Err::<ScanStart, DriverError>(e) && final(self).jobs() == old(self).jobs(),
                Ok(p) => r matches Ok(start) && scan_started(
                    old(self).cache(),
                    old(self).jobs(),
                    final(self).jobs(),
                    request,
                    p@,
                    canonical_root,
                    drives@,
                    start,
                ),
            },
    {
        let fingerprint = request.config.normalized().fingerprint();
        let ghost fp = fingerprint@;
        let r = self.start_scan_with_fingerprint(request, scoped_path, canonical_root, drives, fingerprint);
        assert(is_fingerprint(fp));
        r
    }

    /// Whether another scan job can be created (the registry `has_room`).
    pub fn can_start_scan(&self) -> (r: bool)
        ensures
            r == self.jobs().has_room(),
    {
        self.jobs.can_create()
    }

    /// Before a job starts, given what its cancel flag reads (`canceled`):
    /// with the flag set the job is canceled (`canceled_in`) and `true`
    /// returned; otherwise nothing changes and `false` is returned.
    pub fn cancel_before_start(&mut self, handle: &ScanJobHandle, canceled: bool) -> (r: bool)
        requires
            old(self).wf(),
        ensures
            final(self).wf(),
            final(self).cache() == old(self).cache(),
            final(self).jobs().count() == old(self).jobs().count(),
            r == canceled,
            canceled ==> crate::jobs::canceled_in(
                old(self).jobs().jobs_view(),
                final(self).jobs().jobs_view(),
                handle.job_id@,
            ),
            !canceled ==> final(self).jobs() == old(self).jobs(),
    {
        if canceled {
            let _ = self.jobs.cancel(&handle.job_id);
            true
        } else {
            false
        }
    }

    /// Before a job starts: reads its cancel flag (what the flag reads is not
    /// known here) and acts as `cancel_before_start` with that reading.
    pub fn cancel_if_requested(&mut self, handle: &ScanJobHandle) -> (r: bool)
        requires
            old(self).wf(),
        ensures
            final(self).wf(),
            final(self).cache() == old(self).cache(),
            final(self).jobs().count() == old(self).jobs().count(),
            r ==> crate::jobs::canceled_in(
                old(self).jobs().jobs_view(),
                final(self).jobs().jobs_view(),
                handle.job_id@,
            ),
            !r ==> final(self).jobs() == old(self).jobs(),
    {
        let canceled = handle.cancel_token.is_canceled();
        self.cancel_before_start(handle, canceled)
    }

    /// A job's worker starts it: a queued job becomes `Running`, one that
    /// ended meanwhile (canceled or superseded) keeps its state
    /// (`started_in`), and the event that announces the start is returned.
    pub fn mark_running(&mut self, handle: &ScanJobHandle) -> (r: DriverEvent)
        requires
            old(self).wf(),
        ensures
            final(self).wf(),
            final(self).cache() == old(self).cache(),
            final(self).jobs().count() == old(self).jobs().count(),
            crate::jobs::started_in(old(self).jobs().jobs_view(), final(self).jobs().jobs_view(), handle.job_id@),
            r matches DriverEvent::JobStarted { job_id, request_id, path } && job_id@
                == handle.job_id@ && request_id@ == handle.request_id@ && path@ == handle.root_path@,
    {
        self.jobs.start(&handle.job_id);
        DriverEvent::JobStarted {
            job_id: handle.job_id.clone(),
            request_id: handle.request_id.clone(),
            path: handle.root_path.clone(),
        }
    }

    /// Ends a job with the outcome of its scan, given what its cancel flag
    /// reads (`canceled`): see `job_finished`.
    pub fn finish_job_with(
        &mut self,
        handle: &ScanJobHandle,
        result: DriverResult<DirectoryListing>,
        canceled: bool,
    ) -> (r: Vec<DriverEvent>)
        requires
            old(self).wf(),
        ensures
            final(self).wf(),
            final(self).cache() == old(self).cache(),
            final(self).jobs().count() == old(self).jobs().count(),
            job_finished(
                old(self).jobs().jobs_view(),
                final(self).jobs().jobs_view(),
                *handle,
                result,
                canceled,
                r@,
            ),
    {
        let ended = match self.jobs.state(&handle.job_id) {
            Some(JobState::Queued) | Some(JobState::Running) | None => false,
            Some(_) => true,
        };
        let canceled_error = match &result {
            Err(DriverError::ScanCanceled) => true,
            _ => false,
        };
        if canceled || ended || canceled_error {
            let _ = self.jobs.cancel(&handle.job_id);
            return Vec::new();
        }
        match result {
            Ok(listing) => {
                self.jobs.set_state(&handle.job_id, JobState::Completed);
                let mut progress = ProgressSnapshot::new(
                    handle.job_id.clone(),
                    handle.request_id.clone(),
                );
                progress.state = JobState::Completed;
                progress.estimated_total_bytes = Some(listing.total_measured_size);
                progress.scheduled_units = listing.children.len() as u64;
                progress.discovered_units = listing.children.len() as u64;
                progress.completed_units = listing.children.len() as u64;
                progress.bytes_measured = listing.total_measured_size;
                let ghost l = listing;
                let mut events: Vec<DriverEvent> = Vec::new();
                events.push(
                    DriverEvent::DirectoryReady {
                        job_id: handle.job_id.clone(),
                        request_id: handle.request_id.clone(),
                        path: listing.path.clone(),
                        listing,
                    },
                );
                events.push(
                    DriverEvent::ProgressSnapshot {
                        job_id: handle.job_id.clone(),
                        request_id: handle.request_id.clone(),
                        snapshot: progress,
                    },
                );
                events.push(
                    DriverEvent::JobFinished {
                        job_id: handle.job_id.clone(),
                        request_id: handle.request_id.clone(),
                        path: handle.root_path.clone(),
                    },
                );
                assert(completed_events(*handle, l, events@));
                events
            },
            Err(error) => {
                self.jobs.set_state(&handle.job_id, JobState::Failed);
                let message = error.message();
                let mut events: Vec<DriverEvent> = Vec::new();
                events.push(
                    DriverEvent::JobFailed {
                        job_id: handle.job_id.clone(),
                        request_id: handle.request_id.clone(),
                        path: handle.root_path.clone(),
                        message,
                    },
                );
                events
            },
        }
    }

    /// Ends a job with the outcome of its scan: reads its cancel flag (what
    /// the flag reads is not known here) and acts as `finish_job_with` with
    /// that reading.
    pub fn finish_job(&mut self, handle: &ScanJobHandle, result: DriverResult<DirectoryListing>) -> (r: Vec<
        DriverEvent,
    >)
        requires
            old(self).wf(),
        ensures
            final(self).wf(),
            final(self).cache() == old(self).cache(),
            final(self).jobs().count() == old(self).jobs().count(),
            exists|canceled: bool|
                #[trigger] job_finished(
                    old(self).jobs().jobs_view(),
                    final(self).jobs().jobs_view(),
                    *handle,
                    result,
                    canceled,
                    r@,
                ),
    {
        let canceled = handle.cancel_token.is_canceled();
        self.finish_job_with(handle, result, canceled)
    }
}

/// Whether a path is absolute: it starts at the root.
pub fn path_is_absolute(path: &str) -> (r: bool)
    ensures
        r == has_root(path@),
{
    let chars = crate::text::chars_of(path);
    chars.len() > 0 && chars[0] == '/'
}

/// Every row is the same as itself.
pub proof fn lemma_node_same_refl(node: PathNode)
    ensures
        node.same(node),
{
    assert(crate::driver::issues_same(node.issues@, node.issues@));
}

/// `e` is an event of the job of `handle`: it carries the job's identifiers.
pub open spec fn of_job(e: DriverEvent, handle: ScanJobHandle) -> bool {
    match e {
        DriverEvent::JobQueued { job_id, request_id, .. } => job_id@ == handle.job_id@ && request_id@
            == handle.request_id@,
        DriverEvent::JobStarted { job_id, request_id, .. } => job_id@ == handle.job_id@ && request_id@
            == handle.request_id@,
        DriverEvent::DirectoryReady { job_id, request_id, .. } => job_id@ == handle.job_id@ && request_id@
            == handle.request_id@,
        DriverEvent::ProgressSnapshot { job_id, request_id, .. } => job_id@ == handle.job_id@ && request_id@
            == handle.request_id@,
        DriverEvent::DirectoryProgress { job_id, request_id, .. } => job_id@ == handle.job_id@
            && request_id@ == handle.request_id@,
        DriverEvent::JobFinished { job_id, request_id, .. } => job_id@ == handle.job_id@ && request_id@
            == handle.request_id@,
        DriverEvent::JobFailed { job_id, request_id, .. } => job_id@ == handle.job_id@ && request_id@
            == handle.request_id@,
        DriverEvent::PathInvalidated { .. } => false,
    }
}

/// `e` reports a running job's progress: a snapshot, alone or with directory
/// totals, of a running job with one unit active, so not terminal.
pub open spec fn is_running_report(e: DriverEvent) -> bool {
    match e {
        DriverEvent::ProgressSnapshot { snapshot, .. } => snapshot.state == JobState::Running
            && snapshot.active_units == 1 && !snapshot.is_terminal_spec(),
        DriverEvent::DirectoryProgress { snapshot, .. } => snapshot.state == JobState::Running
            && snapshot.active_units == 1 && !snapshot.is_terminal_spec(),
        _ => false,
    }
}

/// The end of a completed job: the listing, then the terminal snapshot of
/// the completed job with the listing's measured bytes, then the end.
pub open spec fn completed_tail(ready: DriverEvent, snap: DriverEvent, end: DriverEvent) -> bool {
    match (ready, snap) {
        (DriverEvent::DirectoryReady { listing, .. }, DriverEvent::ProgressSnapshot { snapshot, .. }) => {
            &&& snapshot.state == JobState::Completed
            &&& snapshot.is_terminal_spec()
            &&& snapshot.bytes_measured == listing.total_measured_size
            &&& end is JobFinished
        },
        _ => false,
    }
}

/// The events of one job, in order: queued, started, reports of a running
/// job, then either the listing, the terminal snapshot of the completed job
/// (with the listing's measured bytes) and the end, or the failure. Every
/// event carries the job's identifiers.
pub open spec fn job_stream(handle: ScanJobHandle, events: Seq<DriverEvent>) -> bool {
    let n = events.len();
    &&& n >= 3
    &&& forall|k: int| 0 <= k < n ==> of_job(#[trigger] events[k], handle)
    &&& events[0] is JobQueued
    &&& events[1] is JobStarted
    &&& {
        ||| events[n - 1] is JobFailed && forall|k: int| 2 <= k < n - 1 ==> is_running_report(#[trigger] events[k])
        ||| {
            &&& n >= 5
            &&& forall|k: int| 2 <= k < n - 3 ==> is_running_report(#[trigger] events[k])
            &&& completed_tail(events[n - 3], events[n - 2], events[n - 1])
        }
    }
}

/// The events of a job that runs to its end come in order (`job_stream`):
/// the event of `start_scan`, that of `mark_running`, the reports of
/// `progress_event`, then those of `finish_job_with` for a job that was not
/// canceled or superseded meanwhile and whose scan was not canceled. Every
/// report before the listing is of a running job and not terminal; the only
/// terminal snapshot is the one after the listing.
pub proof fn job_events_in_order(
    handle: ScanJobHandle,
    estimated_total_bytes: Option<u64>,
    queued: DriverEvent,
    started: DriverEvent,
    updates: Seq<PreciseScanUpdate>,
    reports: Seq<DriverEvent>,
    before: Seq<ScanJobHandle>,
    after: Seq<ScanJobHandle>,
    result: DriverResult<DirectoryListing>,
    finish: Seq<DriverEvent>,
)
    requires
        queued matches DriverEvent::JobQueued { job_id, request_id, .. } && job_id@ == handle.job_id@
            && request_id@ == handle.request_id@,
        started matches DriverEvent::JobStarted { job_id, request_id, .. } && job_id@ == handle.job_id@
            && request_id@ == handle.request_id@,
        reports.len() == updates.len(),
        forall|k: int| 0 <= k < reports.len() ==> is_progress_event(handle, estimated_total_bytes, updates[k], #[trigger] reports[k]),
        !job_ended(before, handle.job_id@),
        !(result matches Err(DriverError::ScanCanceled)),
        job_finished(before, after, handle, result, false, finish),
    ensures
        job_stream(handle, seq![queued, started] + reports + finish),
{
    let events = seq![queued, started] + reports + finish;
    let n = events.len();
    assert forall|k: int| 0 <= k < reports.len() implies is_running_report(#[trigger] reports[k]) && of_job(reports[k], handle) by {
        assert(is_progress_event(handle, estimated_total_bytes, updates[k], reports[k]));
    }
    assert forall|k: int| 2 <= k < 2 + reports.len() implies events[k] == reports[k - 2] by {}
    assert forall|k: int| 0 <= k < finish.len() implies events[2 + reports.len() + k] == finish[k] by {}
    match result {
        Ok(listing) => {
            assert(completed_events(handle, listing, finish));
            assert(events[n - 3] == finish[0]);
            assert(events[n - 2] == finish[1]);
            assert(events[n - 1] == finish[2]);
        },
        Err(e) => {
            assert(failed_events(handle, e, finish));
            assert(events[n - 1] == finish[0]);
        },
    }
}

/// A job finishes without a result: its flag is set, it has ended already
/// (canceled or superseded meanwhile), or its scan was canceled.
pub open spec fn ends_quietly(
    before: Seq<ScanJobHandle>,
    handle: ScanJobHandle,
    result: DriverResult<DirectoryListing>,
    canceled: bool,
) -> bool {
    canceled || job_ended(before, handle.job_id@) || (result matches Err(DriverError::ScanCanceled))
}

/// The events of a job that ended without a result: queued, started, then
/// reports of a running job only (no listing, no terminal snapshot, no end,
/// no failure). Every event carries the job's identifiers.
pub open spec fn quiet_stream(handle: ScanJobHandle, events: Seq<DriverEvent>) -> bool {
    let n = events.len();
    &&& n >= 2
    &&& forall|k: int| 0 <= k < n ==> of_job(#[trigger] events[k], handle)
    &&& events[0] is JobQueued
    &&& events[1] is JobStarted
    &&& forall|k: int| 2 <= k < n ==> is_running_report(#[trigger] events[k])
}

/// Every run of a job reports in order, whatever its cancel flag reads and
/// whatever happened to it meanwhile: the event of `start_scan`, that of
/// `mark_running`, the reports of `progress_event`, then those of
/// `finish_job_with`. A job that was canceled, that ended meanwhile or
/// whose scan was canceled reports nothing more (`quiet_stream`); any
/// other ends with the listing, the terminal snapshot and the end, or with
/// the failure (`job_stream`). Every snapshot before the listing is of a
/// running job and not terminal.
pub proof fn every_run_reports_in_order(
    handle: ScanJobHandle,
    estimated_total_bytes: Option<u64>,
    queued: DriverEvent,
    started: DriverEvent,
    updates: Seq<PreciseScanUpdate>,
    reports: Seq<DriverEvent>,
    before: Seq<ScanJobHandle>,
    after: Seq<ScanJobHandle>,
    result: DriverResult<DirectoryListing>,
    canceled: bool,
    finish: Seq<DriverEvent>,
)
    requires
        queued matches DriverEvent::JobQueued { job_id, request_id, .. } && job_id@ == handle.job_id@
            && request_id@ == handle.request_id@,
        started matches DriverEvent::JobStarted { job_id, request_id, .. } && job_id@ == handle.job_id@
            && request_id@ == handle.request_id@,
        reports.len() == updates.len(),
        forall|k: int| 0 <= k < reports.len() ==> is_progress_event(handle, estimated_total_bytes, updates[k], #[trigger] reports[k]),
        job_finished(before, after, handle, result, canceled, finish),
    ensures
        ends_quietly(before, handle, result, canceled) ==> quiet_stream(
            handle,
            seq![queued, started] + reports + finish,
        ),
        !ends_quietly(before, handle, result, canceled) ==> job_stream(
            handle,
            seq![queued, started] + reports + finish,
        ),
{
    let events = seq![queued, started] + reports + finish;
    if ends_quietly(before, handle, result, canceled) {
        assert(finish.len() == 0);
        assert forall|k: int| 0 <= k < reports.len() implies is_running_report(#[trigger] reports[k]) && of_job(reports[k], handle) by {
            assert(is_progress_event(handle, estimated_total_bytes, updates[k], reports[k]));
        }
        assert forall|k: int| 2 <= k < events.len() implies events[k] == reports[k - 2] by {}
        assert forall|k: int| 0 <= k < events.len() implies of_job(#[trigger] events[k], handle) by {
            if k >= 2 {
                assert(events[k] == reports[k - 2]);
            }
        }
    } else {
        job_events_in_order(
            handle,
            estimated_total_bytes,
            queued,
            started,
            updates,
            reports,
            before,
            after,
            result,
            finish,
        );
    }
}

/// A job that has ended (canceled or superseded) before its scan is done
/// stays as it is: finishing it reports nothing and keeps its state,
/// whatever the scan gave and whatever its flag reads.
pub proof fn ended_job_stays_ended(
    before: Seq<ScanJobHandle>,
    after: Seq<ScanJobHandle>,
    handle: ScanJobHandle,
    result: DriverResult<DirectoryListing>,
    canceled: bool,
    events: Seq<DriverEvent>,
)
    requires
        exists|i: int| 0 <= i < before.len() && before[i].job_id@ == handle.job_id@,
        forall|i: int|
            0 <= i < before.len() && before[i].job_id@ == handle.job_id@ ==> crate::jobs::is_terminal_state(
                #[trigger] before[i].state,
            ),
        job_finished(before, after, handle, result, canceled, events),
    ensures
        events.len() == 0,
        forall|i: int|
            0 <= i < before.len() && before[i].job_id@ == handle.job_id@ ==> #[trigger] after[i].state
                == before[i].state,
{
    let id = handle.job_id@;
    let j = choose|i: int| 0 <= i < before.len() && before[i].job_id@ == id;
    assert(before[j].job_id@ == id);
    assert(job_ended(before, id));
    assert forall|i: int| 0 <= i < before.len() && before[i].job_id@ == id implies #[trigger] after[i].state
        == before[i].state by {
        assert(after[i].same(ScanJobHandle { state: crate::jobs::canceled_state(before[i].state), ..before[i] }));
    }
}

/// A job canceled (`cancel_job`) before its scan is done ends canceled: when
/// it is then finished, nothing is reported (no listing, no end, no failure)
/// and a job that was queued or running is `Canceled`, never `Completed` or
/// `Failed`.
pub proof fn canceled_job_never_completes(
    jobs0: Seq<ScanJobHandle>,
    jobs1: Seq<ScanJobHandle>,
    jobs2: Seq<ScanJobHandle>,
    handle: ScanJobHandle,
    result: DriverResult<DirectoryListing>,
    canceled: bool,
    events: Seq<DriverEvent>,
)
    requires
        exists|i: int| 0 <= i < jobs0.len() && jobs0[i].job_id@ == handle.job_id@,
        crate::jobs::canceled_in(jobs0, jobs1, handle.job_id@),
        job_finished(jobs1, jobs2, handle, result, canceled, events),
    ensures
        events.len() == 0,
        forall|i: int|
            0 <= i < jobs0.len() && jobs0[i].job_id@ == handle.job_id@ ==> #[trigger] jobs2[i].state
                == crate::jobs::canceled_state(jobs0[i].state),
{
    let id = handle.job_id@;
    let j = choose|i: int| 0 <= i < jobs0.len() && jobs0[i].job_id@ == id;
    assert(jobs1[j].same(ScanJobHandle { state: crate::jobs::canceled_state(jobs0[j].state), ..jobs0[j] }));
    assert forall|i: int| 0 <= i < jobs1.len() && jobs1[i].job_id@ == id implies crate::jobs::is_terminal_state(
        #[trigger] jobs1[i].state,
    ) by {
        assert(jobs1[i].same(ScanJobHandle { state: crate::jobs::canceled_state(jobs0[i].state), ..jobs0[i] }));
    }
    ended_job_stays_ended(jobs1, jobs2, handle, result, canceled, events);
    assert forall|i: int| 0 <= i < jobs0.len() && jobs0[i].job_id@ == id implies #[trigger] jobs2[i].state
        == crate::jobs::canceled_state(jobs0[i].state) by {
        assert(jobs1[i].same(ScanJobHandle { state: crate::jobs::canceled_state(jobs0[i].state), ..jobs0[i] }));
        assert(jobs2[i].state == jobs1[i].state);
    }
}

/// A job that has ended (canceled or superseded) before its worker starts
/// it stays ended through the whole run: starting it keeps its state
/// (`mark_running`), and finishing it reports nothing and keeps its state,
/// whatever the scan gave and whatever its flag reads.
pub proof fn ended_run_stays_ended(
    jobs1: Seq<ScanJobHandle>,
    jobs2: Seq<ScanJobHandle>,
    jobs3: Seq<ScanJobHandle>,
    handle: ScanJobHandle,
    result: DriverResult<DirectoryListing>,
    canceled: bool,
    events: Seq<DriverEvent>,
)
    requires
        exists|i: int| 0 <= i < jobs1.len() && jobs1[i].job_id@ == handle.job_id@,
        forall|i: int|
            0 <= i < jobs1.len() && jobs1[i].job_id@ == handle.job_id@ ==> crate::jobs::is_terminal_state(
                #[trigger] jobs1[i].state,
            ),
        crate::jobs::started_in(jobs1, jobs2, handle.job_id@),
        job_finished(jobs2, jobs3, handle, result, canceled, events),
    ensures
        events.len() == 0,
        forall|i: int|
            0 <= i < jobs1.len() && jobs1[i].job_id@ == handle.job_id@ ==> #[trigger] jobs3[i].state
                == jobs1[i].state,
{
    let id = handle.job_id@;
    let j = choose|i: int| 0 <= i < jobs1.len() && jobs1[i].job_id@ == id;
    assert(jobs2[j].same(ScanJobHandle { state: crate::jobs::started_state(jobs1[j].state), ..jobs1[j] }));
    assert forall|i: int| 0 <= i < jobs2.len() && jobs2[i].job_id@ == id implies crate::jobs::is_terminal_state(
        #[trigger] jobs2[i].state,
    ) && jobs2[i].state == jobs1[i].state by {
        assert(jobs2[i].same(ScanJobHandle { state: crate::jobs::started_state(jobs1[i].state), ..jobs1[i] }));
    }
    ended_job_stays_ended(jobs2, jobs3, handle, result, canceled, events);
    assert forall|i: int| 0 <= i < jobs1.len() && jobs1[i].job_id@ == id implies #[trigger] jobs3[i].state
        == jobs1[i].state by {
        assert(jobs2[i].same(ScanJobHandle { state: crate::jobs::started_state(jobs1[i].state), ..jobs1[i] }));
        assert(jobs3[i].state == jobs2[i].state);
    }
}

/// A job canceled (`cancel_job`) before its worker finishes never
/// completes or fails, whether the cancel came before or after the worker
/// started it: the run reports nothing after the start, and a job that was
/// queued or running ends `Canceled`.
pub proof fn canceled_run_never_completes(
    jobs0: Seq<ScanJobHandle>,
    jobs1: Seq<ScanJobHandle>,
    jobs2: Seq<ScanJobHandle>,
    jobs3: Seq<ScanJobHandle>,
    canceled_first: bool,
    handle: ScanJobHandle,
    result: DriverResult<DirectoryListing>,
    canceled: bool,
    events: Seq<DriverEvent>,
)
    requires
        exists|i: int| 0 <= i < jobs0.len() && jobs0[i].job_id@ == handle.job_id@,
        canceled_first ==> crate::jobs::canceled_in(jobs0, jobs1, handle.job_id@)
            && crate::jobs::started_in(jobs1, jobs2, handle.job_id@),
        !canceled_first ==> crate::jobs::started_in(jobs0, jobs1, handle.job_id@)
            && crate::jobs::canceled_in(jobs1, jobs2, handle.job_id@),
        job_finished(jobs2, jobs3, handle, result, canceled, events),
    ensures
        events.len() == 0,
        forall|i: int|
            0 <= i < jobs0.len() && jobs0[i].job_id@ == handle.job_id@ ==> #[trigger] jobs3[i].state
                == crate::jobs::canceled_state(crate::jobs::started_state(jobs0[i].state)),
        forall|i: int|
            0 <= i < jobs0.len() && jobs0[i].job_id@ == handle.job_id@ && crate::jobs::is_active_state(
                jobs0[i].state,
            ) ==> #[trigger] jobs3[i].state == JobState::Canceled,
{
    let id = handle.job_id@;
    if canceled_first {
        let j = choose|i: int| 0 <= i < jobs0.len() && jobs0[i].job_id@ == id;
        assert(jobs1[j].same(ScanJobHandle { state: crate::jobs::canceled_state(jobs0[j].state), ..jobs0[j] }));
        assert forall|i: int| 0 <= i < jobs1.len() && jobs1[i].job_id@ == id implies crate::jobs::is_terminal_state(
            #[trigger] jobs1[i].state,
        ) by {
            assert(jobs1[i].same(ScanJobHandle { state: crate::jobs::canceled_state(jobs0[i].state), ..jobs0[i] }));
        }
        ended_run_stays_ended(jobs1, jobs2, jobs3, handle, result, canceled, events);
        assert forall|i: int| 0 <= i < jobs0.len() && jobs0[i].job_id@ == id implies #[trigger] jobs3[i].state
            == crate::jobs::canceled_state(crate::jobs::started_state(jobs0[i].state)) by {
            assert(jobs1[i].same(ScanJobHandle { state: crate::jobs::canceled_state(jobs0[i].state), ..jobs0[i] }));
            assert(jobs3[i].state == jobs1[i].state);
        }
    } else {
        let j = choose|i: int| 0 <= i < jobs0.len() && jobs0[i].job_id@ == id;
        assert(jobs1[j].same(ScanJobHandle { state: crate::jobs::started_state(jobs0[j].state), ..jobs0[j] }));
        assert(jobs1[j].job_id@ == id);
        canceled_job_never_completes(jobs1, jobs2, jobs3, handle, result, canceled, events);
        assert forall|i: int| 0 <= i < jobs0.len() && jobs0[i].job_id@ == id implies #[trigger] jobs3[i].state
            == crate::jobs::canceled_state(crate::jobs::started_state(jobs0[i].state)) by {
            assert(jobs1[i].same(ScanJobHandle { state: crate::jobs::started_state(jobs0[i].state), ..jobs0[i] }));
        }
    }
}

/// A job superseded (by `invalidate_path`, or by a replacing `start_scan`)
/// before its worker finishes never completes or fails, whether it was
/// superseded before or after the worker started it: the run reports nothing
/// after the start and the job ends `Superseded`.
pub proof fn superseded_run_never_completes(
    registry: JobRegistry,
    superseded: JobRegistry,
    path: Seq<char>,
    superseded_first: bool,
    jobs0: Seq<ScanJobHandle>,
    jobs1: Seq<ScanJobHandle>,
    jobs2: Seq<ScanJobHandle>,
    handle: ScanJobHandle,
    result: DriverResult<DirectoryListing>,
    canceled: bool,
    events: Seq<DriverEvent>,
)
    requires
        registry.wf(),
        superseded_under(registry, superseded, path),
        superseded_first ==> {
            &&& jobs0 == registry.jobs_view()
            &&& exists|i: int|
                0 <= i < jobs0.len() && jobs0[i].job_id@ == handle.job_id@ && crate::jobs::supersedes(
                    #[trigger] jobs0[i],
                    path,
                )
            &&& crate::jobs::started_in(superseded.jobs_view(), jobs1, handle.job_id@)
        },
        !superseded_first ==> {
            &&& crate::jobs::started_in(jobs0, registry.jobs_view(), handle.job_id@)
            &&& exists|i: int|
                0 <= i < jobs0.len() && jobs0[i].job_id@ == handle.job_id@ && crate::jobs::is_active_state(
                    #[trigger] jobs0[i].state,
                ) && crate::lexical::path_starts_with_spec(jobs0[i].root_path@, path)
            &&& jobs1 == superseded.jobs_view()
        },
        job_finished(jobs1, jobs2, handle, result, canceled, events),
    ensures
        events.len() == 0,
        forall|i: int|
            0 <= i < jobs2.len() && jobs2[i].job_id@ == handle.job_id@ ==> #[trigger] jobs2[i].state
                == JobState::Superseded,
{
    let id = handle.job_id@;
    let v0 = registry.jobs_view();
    let v1 = superseded.jobs_view();
    let j = if superseded_first {
        choose|i: int| 0 <= i < jobs0.len() && jobs0[i].job_id@ == id && crate::jobs::supersedes(jobs0[i], path)
    } else {
        choose|i: int|
            0 <= i < jobs0.len() && jobs0[i].job_id@ == id && crate::jobs::is_active_state(jobs0[i].state)
                && crate::lexical::path_starts_with_spec(jobs0[i].root_path@, path)
    };
    if !superseded_first {
        assert(v0[j].same(ScanJobHandle { state: crate::jobs::started_state(jobs0[j].state), ..jobs0[j] }));
    }
    assert(v0[j].job_id@ == id);
    assert(crate::jobs::supersedes(v0[j], path));
    assert forall|i: int| 0 <= i < v1.len() && v1[i].job_id@ == id implies #[trigger] v1[i].state
        == JobState::Superseded by {
        registry.lemma_unique_ids(i, j);
        assert(v1[i].same(ScanJobHandle { state: JobState::Superseded, ..v0[i] }));
    }
    assert(v1[j].same(ScanJobHandle { state: JobState::Superseded, ..v0[j] }));
    if superseded_first {
        ended_run_stays_ended(v1, jobs1, jobs2, handle, result, canceled, events);
        assert forall|i: int| 0 <= i < jobs2.len() && jobs2[i].job_id@ == id implies #[trigger] jobs2[i].state
            == JobState::Superseded by {
            assert(jobs1[i].same(ScanJobHandle { state: crate::jobs::started_state(v1[i].state), ..v1[i] }));
            assert(jobs2[i].state == v1[i].state);
        }
    } else {
        assert forall|i: int| 0 <= i < jobs1.len() && jobs1[i].job_id@ == id implies crate::jobs::is_terminal_state(
            #[trigger] jobs1[i].state,
        ) by {}
        ended_job_stays_ended(jobs1, jobs2, handle, result, canceled, events);
    }
}

/// After an invalidation reached the cached entry of `q` under `fingerprint`,
/// a request for `q` under that fingerprint is answered by reading the
/// directory again (`answers_from_cache` gives `Discover`).
pub proof fn invalidated_path_is_rediscovered(
    before: DirectoryCache,
    after: DirectoryCache,
    path: Seq<char>,
    descendants: bool,
    q: Seq<char>,
    config: ScanConfig,
    fingerprint: Seq<char>,
    r: DirectoryRequest,
)
    requires
        before.wf(),
        after.entries_view().len() == before.entries_view().len(),
        forall|i: int|
            0 <= i < before.entries_view().len() ==> #[trigger] after.entries_view()[i]
                == crate::cache::staled(before.entries_view()[i], path, descendants),
        find_entry(before.entries_view(), q, fingerprint) matches Some(i) && crate::cache::stale_reaches(
            before.entries_view()[i],
            path,
            descendants,
        ),
        answers_from_cache(after, q, config, fingerprint, r),
    ensures
        r matches DirectoryRequest::Discover { path: d, config: c } && d@ == q && c == config,
{
    crate::cache::invalidated_entries_are_rediscovered(before, after, path, descendants, q, fingerprint);
}

/// Two requests for a path whose configurations fingerprint alike (as
/// configurations with the same normalized form do within a run) are both
/// answered from its fresh cached listing, with no rediscovery: each answer
/// has the cached listing's path, fingerprint and generation.
pub proof fn fresh_listing_answers_alike(
    cache: DirectoryCache,
    path: Seq<char>,
    first: ScanConfig,
    second: ScanConfig,
    fingerprint: Seq<char>,
    r1: DirectoryRequest,
    r2: DirectoryRequest,
)
    requires
        find_entry(cache.entries_view(), path, fingerprint) matches Some(i)
            && cache.entries_view()[i].freshness != CacheFreshness::Stale,
        answers_from_cache(cache, path, first, fingerprint, r1),
        answers_from_cache(cache, path, second, fingerprint, r2),
    ensures
        r1 matches DirectoryRequest::Ready(Ok(l1)) && r2 matches DirectoryRequest::Ready(Ok(l2)) && {
            let cached = cache.entries_view()[find_entry(cache.entries_view(), path, fingerprint)->0].listing;
            &&& l1.path@ == cached.path@ && l2.path@ == cached.path@
            &&& l1.config_fingerprint@ == cached.config_fingerprint@ && l2.config_fingerprint@
                == cached.config_fingerprint@
            &&& l1.generation == cached.generation && l2.generation == cached.generation
        },
{
}

/// Invalidating a cached directory, then asking for it again, reads it again
/// (`answers_from_cache` gives `Discover`), and the listing stored from that
/// read (`discover_and_cache`) has a larger generation than the invalidated
/// one, while the generation counter has not reached its limit.
pub proof fn rediscovered_listing_is_newer(
    before: DirectoryCache,
    after: DirectoryCache,
    stored: DirectoryCache,
    path: Seq<char>,
    descendants: bool,
    q: Seq<char>,
    config: ScanConfig,
    fingerprint: Seq<char>,
    r: DirectoryRequest,
    listing: DirectoryListing,
    out: DirectoryListing,
)
    requires
        before.wf(),
        after.wf(),
        after.entries_view().len() == before.entries_view().len(),
        forall|i: int|
            0 <= i < before.entries_view().len() ==> #[trigger] after.entries_view()[i]
                == crate::cache::staled(before.entries_view()[i], path, descendants),
        find_entry(before.entries_view(), q, fingerprint) matches Some(i) && crate::cache::stale_reaches(
            before.entries_view()[i],
            path,
            descendants,
        ),
        answers_from_cache(after, q, config, fingerprint, r),
        stored_listing(after, stored, listing, CacheFreshness::Fresh, out),
        after.generation() < u64::MAX,
    ensures
        r matches DirectoryRequest::Discover { path: d, config: c } && d@ == q && c == config,
        out.generation > before.entries_view()[find_entry(before.entries_view(), q, fingerprint)->0].listing.generation,
{
    crate::cache::invalidated_entries_are_rediscovered(before, after, path, descendants, q, fingerprint);
    let i = find_entry(before.entries_view(), q, fingerprint)->0;
    assert(after.entries_view()[i] == crate::cache::staled(before.entries_view()[i], path, descendants));
    crate::cache::lemma_generation_bounded(after, i);
}

} // verus!



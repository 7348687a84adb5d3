//! The driver's data model and the path rules that keep requests inside a volume.
use vstd::prelude::*;

use crate::jobs::ProgressSnapshot;
use crate::lexical::{
    equivalent_paths, equivalent_paths_spec, normalize_lexically, normalize_spec, path_eq,
    path_eq_spec, path_starts_with, path_starts_with_spec,
};
use crate::text::{push_str, str_equal};

verus! {

/// An I/O error (std `io::Error`), carried through unchanged.
#[verifier::external_type_specification]
#[verifier::external_body]
pub struct ExIoError(std::io::Error);

/// Why a driver request failed.
#[derive(Debug)]
pub enum DriverError {
    InvalidPath(String),
    PathOutsideVolume(String),
    PermissionDenied(String),
    JobNotFound(String),
    DriverUnavailable(String),
    ScanCanceled,
    Io { path: String, source: std::io::Error },
}

/// The outcome of a driver request.
pub type DriverResult<T> = Result<T, DriverError>;

/// `e` reports that the filesystem failed on `path` with `source`.
pub open spec fn is_io_error(e: DriverError, path: Seq<char>, source: std::io::Error) -> bool {
    e matches DriverError::Io { path: p, source: s } && p@ == path && s == source
}

/// The text of an I/O error (its std `Display`). Nothing is stated of it: it
/// comes from the operating system.
#[verifier::external_body]
pub(crate) fn io_error_text(error: &std::io::Error) -> String {
    error.to_string()
}

/// The message of a driver error, apart from the operating system's text of
/// an I/O error.
pub open spec fn error_message_prefix(e: DriverError) -> Seq<char> {
    match e {
        DriverError::InvalidPath(m) => "invalid path: "@ + m@,
        DriverError::PathOutsideVolume(m) => "path is outside the selected volume: "@ + m@,
        DriverError::PermissionDenied(m) => "permission denied: "@ + m@,
        DriverError::JobNotFound(m) => "job not found: "@ + m@,
        DriverError::DriverUnavailable(m) => "driver unavailable: "@ + m@,
        DriverError::ScanCanceled => "scan canceled"@,
        DriverError::Io { path, source: _ } => "filesystem operation failed for "@ + path@ + ": "@,
    }
}

impl DriverError {
    /// The error's message. For an I/O error the operating system's text
    /// follows the prefix; every other message is exactly the prefix.
    pub fn message(&self) -> (r: String)
        ensures
            r@.len() >= error_message_prefix(*self).len(),
            r@.subrange(0, error_message_prefix(*self).len() as int) == error_message_prefix(*self),
            !(self is Io) ==> r@ == error_message_prefix(*self),
    {
        let (mut out, detail) = match self {
            DriverError::InvalidPath(m) => ("invalid path: ".to_owned(), Some(m)),
            DriverError::PathOutsideVolume(m) => (
                "path is outside the selected volume: ".to_owned(),
                Some(m),
            ),
            DriverError::PermissionDenied(m) => ("permission denied: ".to_owned(), Some(m)),
            DriverError::JobNotFound(m) => ("job not found: ".to_owned(), Some(m)),
            DriverError::DriverUnavailable(m) => ("driver unavailable: ".to_owned(), Some(m)),
            DriverError::ScanCanceled => ("scan canceled".to_owned(), None),
            DriverError::Io { path, source: _ } => {
                let mut t = "filesystem operation failed for ".to_owned();
                push_str(&mut t, path);
                push_str(&mut t, ": ");
                (t, None)
            },
        };
        if let Some(m) = detail {
            push_str(&mut out, m);
        }
        let ghost prefix = out@;
        assert(prefix =~= error_message_prefix(*self));
        if let DriverError::Io { path: _, source } = self {
            let text = io_error_text(source);
            push_str(&mut out, &text);
        }
        assert(out@.subrange(0, prefix.len() as int) =~= prefix);
        out
    }
}

/// What an entry is.
#[derive(Debug, Clone, Copy, PartialEq, Eq, Structural)]
pub enum EntryKind {
    Volume,
    Directory,
    File,
    Other,
}

/// How far the measurement of a node or listing has come.
#[derive(Debug, Clone, Copy, PartialEq, Eq, Structural)]
pub enum NodeState {
    Queued,
    Working,
    Partial,
    Complete,
    Skipped,
    Failed,
    Stale,
    Canceled,
}

/// What went wrong when reading an entry.
#[derive(Debug, Clone, Copy, PartialEq, Eq, Structural)]
pub enum ReadIssueKind {
    PermissionDenied,
    NotFound,
    NotDirectory,
    HiddenSkipped,
    FilesystemBoundary,
    SymlinkSkipped,
    MetadataFailed,
    SizeUnavailable,
    VolumeUnmounted,
}

/// A problem met while reading one path.
#[derive(Debug, Clone, PartialEq, Eq)]
pub struct ScanIssue {
    pub path: String,
    pub kind: ReadIssueKind,
    pub message: String,
}

/// How safe deleting a path would be.
#[derive(Debug, Clone, Copy, PartialEq, Eq, Structural)]
pub enum DeleteSafetyClassification {
    UserContent,
    SafeJunk,
    ReviewRequired,
    ProtectedSystem,
    NotDeletableNow,
}

/// One reason behind a delete-safety classification.
#[derive(Debug, Clone, Copy, PartialEq, Eq, Structural)]
pub enum DeleteSafetyFlag {
    SystemOwned,
    SipProtected,
    Immutable,
    AppendOnly,
    ParentNotWritable,
    NotDeletableNow,
    SafeJunkRule,
}

/// The delete-safety verdict for one path.
#[derive(Debug, Clone, PartialEq, Eq)]
pub struct PathDeleteSafety {
    pub classification: DeleteSafetyClassification,
    pub can_delete_now: bool,
    pub flags: Vec<DeleteSafetyFlag>,
    pub reason: String,
}

/// A mounted volume.
#[derive(Debug, Clone, PartialEq)]
pub struct Volume {
    pub id: String,
    pub display_name: String,
    pub root_path: String,
    pub mount_point: String,
    pub filesystem: String,
    pub storage_kind: String,
    pub total_bytes: u64,
    pub available_bytes: u64,
    pub is_removable: bool,
    pub is_read_only: bool,
    pub is_accessible: bool,
    pub access_issue: Option<String>,
}

/// One row of a directory listing.
#[derive(Debug, Clone, PartialEq)]
pub struct PathNode {
    pub path: String,
    pub name: String,
    pub kind: EntryKind,
    pub parent_path: Option<String>,
    pub depth_from_request: usize,
    pub size: u64,
    pub logical_size: u64,
    pub state: NodeState,
    pub visible: bool,
    pub children_known: bool,
    pub active_job_id: Option<String>,
    pub delete_safety: PathDeleteSafety,
    pub issues: Vec<ScanIssue>,
}

/// The measured contents of one directory.
#[derive(Debug, Clone, PartialEq)]
pub struct DirectoryListing {
    pub path: String,
    pub config_fingerprint: String,
    pub children: Vec<PathNode>,
    pub total_visible_size: u64,
    pub total_measured_size: u64,
    pub total_logical_size: u64,
    pub state: NodeState,
    pub loaded_depth: usize,
    pub has_more_depth: bool,
    pub issues: Vec<ScanIssue>,
    pub generation: u64,
}

/// The measured total of one directory found during a precise scan.
#[derive(Debug, Clone, PartialEq)]
pub struct DirectorySizeSummary {
    pub path: String,
    pub config_fingerprint: String,
    pub allocated_size: u64,
    pub logical_size: u64,
    pub has_visible_children: bool,
    pub issues: Vec<ScanIssue>,
}

/// Where the time of a precise scan went.
#[derive(Debug, Clone, Copy, Default, PartialEq, Eq)]
pub struct PreciseScanProfile {
    pub entries_collected: u64,
    pub read_dir_nanos: u64,
    pub file_type_nanos: u64,
    pub metadata_nanos: u64,
    pub size_nanos: u64,
    pub live_update_nanos: u64,
    pub progress_emit_nanos: u64,
}

/// The outcome of a precise scan: the listing and every directory's total.
#[derive(Debug, Clone, PartialEq)]
pub struct PreciseDirectoryScan {
    pub listing: DirectoryListing,
    pub summaries: Vec<DirectorySizeSummary>,
    pub profile: PreciseScanProfile,
}

/// A request to show a directory.
#[derive(Debug, Clone)]
pub struct OpenPathRequest {
    pub volume_root: String,
    pub path: String,
    pub config: crate::rules::ScanConfig,
    pub request_id: String,
}

/// A request to measure a directory in the background.
#[derive(Debug, Clone)]
pub struct StartScanRequest {
    pub volume_root: String,
    pub path: String,
    pub config: crate::rules::ScanConfig,
    pub replace_existing: bool,
    pub request_id: String,
}

/// Which cached paths an invalidation reaches.
#[derive(Debug, Clone, Copy, PartialEq, Eq, Structural)]
pub enum InvalidationScope {
    PathOnly,
    PathAndDescendants,
}

/// What an invalidation did.
#[derive(Debug, Clone, PartialEq)]
pub struct InvalidationReceipt {
    pub invalidated_paths: Vec<String>,
    pub superseded_job_ids: Vec<String>,
}

/// The job that a scan request was given.
#[derive(Debug, Clone, PartialEq)]
pub struct StartScanReceipt {
    pub job_id: String,
    pub request_id: String,
}

/// A running total for one directory.
#[derive(Debug, Clone, PartialEq)]
pub struct DirectoryProgressUpdate {
    pub path: String,
    pub size: u64,
    pub logical_size: u64,
    pub state: NodeState,
}

/// What a scan job reports while it runs.
#[derive(Debug, Clone, PartialEq)]
pub enum DriverEvent {
    JobQueued { job_id: String, request_id: String, path: String },
    JobStarted { job_id: String, request_id: String, path: String },
    DirectoryReady { job_id: String, request_id: String, path: String, listing: DirectoryListing },
    ProgressSnapshot { job_id: String, request_id: String, snapshot: ProgressSnapshot },
    DirectoryProgress {
        job_id: String,
        request_id: String,
        path: String,
        updates: Vec<DirectoryProgressUpdate>,
        snapshot: ProgressSnapshot,
    },
    JobFinished { job_id: String, request_id: String, path: String },
    JobFailed { job_id: String, request_id: String, path: String, message: String },
    PathInvalidated { path: String, scope: InvalidationScope, generation: u64 },
}

/// The outcome of `ensure_inside_volume`: the path is the root or lies under it.
pub open spec fn inside_volume(volume_root: Seq<char>, path: Seq<char>) -> bool {
    path_eq_spec(path, volume_root) || path_starts_with_spec(path, volume_root)
}

/// The message of a path that lies outside its volume.
pub open spec fn outside_message(path: Seq<char>, volume_root: Seq<char>) -> Seq<char> {
    path + seq![' ', 'i', 's', ' ', 'o', 'u', 't', 's', 'i', 'd', 'e', ' '] + volume_root
}

/// Accepts a path that is the volume root or lies under it; any other path is
/// refused with `PathOutsideVolume`.
pub fn ensure_inside_volume(volume_root: &str, path: &str) -> (r: Result<(), DriverError>)
    ensures
        r is Ok <==> inside_volume(volume_root@, path@),
        r matches Err(e) ==> (e matches DriverError::PathOutsideVolume(m) && m@ == outside_message(
            path@,
            volume_root@,
        )),
{
    if path_eq(path, volume_root) || path_starts_with(path, volume_root) {
        Ok(())
    } else {
        let mut message = String::new();
        push_str(&mut message, path);
        let sep: Vec<char> = vec![' ', 'i', 's', ' ', 'o', 'u', 't', 's', 'i', 'd', 'e', ' '];
        crate::text::push_chars(&mut message, &sep);
        push_str(&mut message, volume_root);
        assert(message@ =~= outside_message(path@, volume_root@));
        Err(DriverError::PathOutsideVolume(message))
    }
}

/// The message of a path whose `..` climbs above its start.
pub open spec fn escape_message(path: Seq<char>) -> Seq<char> {
    seq![
        'P', 'a', 't', 'h', ' ', 'e', 's', 'c', 'a', 'p', 'e', 's', ' ', 'i', 't', 's', ' ',
        'r', 'o', 'o', 't', ':', ' ',
    ] + path
}

/// Lexically normalizes a path; a `..` that climbs above the start is refused
/// with `InvalidPath`.
pub fn normalize_path_lexically(path: &str) -> (r: Result<String, DriverError>)
    ensures
        match r {
            Ok(s) => normalize_spec(path@) == Some(s@),
            Err(e) => normalize_spec(path@) is None && (e matches DriverError::InvalidPath(m)
                && m@ == escape_message(path@)),
        },
{
    match normalize_lexically(path) {
        Some(s) => Ok(s),
        None => {
            let prefix: Vec<char> = vec![
                'P', 'a', 't', 'h', ' ', 'e', 's', 'c', 'a', 'p', 'e', 's', ' ', 'i', 't', 's', ' ',
                'r', 'o', 'o', 't', ':', ' ',
            ];
            let mut message = crate::text::string_of(&prefix);
            push_str(&mut message, path);
            assert(message@ =~= escape_message(path@));
            Err(DriverError::InvalidPath(message))
        },
    }
}

/// `total` moved by the change from `previous_value` to `next_value`, saturating
/// at both ends.
pub open spec fn adjusted_total_spec(total: u64, previous_value: u64, next_value: u64) -> u64 {
    if next_value >= previous_value {
        total.saturating_add((next_value - previous_value) as u64)
    } else {
        total.saturating_sub((previous_value - next_value) as u64)
    }
}

/// Moves a total by the change of one of its parts, saturating at both ends.
pub fn adjusted_total(total: u64, previous_value: u64, next_value: u64) -> (r: u64)
    ensures
        r == adjusted_total_spec(total, previous_value, next_value),
{
    if next_value >= previous_value {
        total.saturating_add(next_value - previous_value)
    } else {
        total.saturating_sub(previous_value - next_value)
    }
}

/// Without saturation, replacing a part of a total changes the total by the
/// part's change: the total keeps counting every other part exactly.
pub proof fn adjusted_total_replaces_part(rest: u64, previous_value: u64, next_value: u64)
    requires
        rest + previous_value <= u64::MAX,
        rest + next_value <= u64::MAX,
    ensures
        adjusted_total_spec((rest + previous_value) as u64, previous_value, next_value) == rest
            + next_value,
{
}


/// The same text, or both absent.
pub open spec fn same_opt_text(a: Option<String>, b: Option<String>) -> bool {
    match (a, b) {
        (Some(x), Some(y)) => x@ == y@,
        (None, None) => true,
        _ => false,
    }
}

/// A copy of an optional text.
pub fn copy_opt_text(a: &Option<String>) -> (r: Option<String>)
    ensures
        same_opt_text(r, *a),
{
    match a {
        Some(x) => Some(x.clone()),
        None => None,
    }
}

impl ScanIssue {
    /// The same issue.
    pub open spec fn same(self, other: ScanIssue) -> bool {
        self.path@ == other.path@ && self.kind == other.kind && self.message@ == other.message@
    }

    /// A copy of this issue.
    pub fn copy(&self) -> (r: Self)
        ensures
            r.same(*self),
    {
        ScanIssue { path: self.path.clone(), kind: self.kind, message: self.message.clone() }
    }
}

/// The same issues in the same order.
pub open spec fn issues_same(a: Seq<ScanIssue>, b: Seq<ScanIssue>) -> bool {
    a.len() == b.len() && forall|i: int| 0 <= i < a.len() ==> #[trigger] a[i].same(b[i])
}

/// A copy of a list of issues.
pub fn copy_issues(v: &Vec<ScanIssue>) -> (r: Vec<ScanIssue>)
    ensures
        issues_same(r@, v@),
{
    let mut r: Vec<ScanIssue> = Vec::new();
    let mut i: usize = 0;
    while i < v.len()
        invariant
            i <= v.len(),
            r@.len() == i,
            forall|j: int| 0 <= j < i ==> #[trigger] r@[j].same(v@[j]),
        decreases v.len() - i,
    {
        r.push(v[i].copy());
        i = i + 1;
    }
    r
}

/// A copy of a list of flags.
pub fn copy_flags(v: &Vec<DeleteSafetyFlag>) -> (r: Vec<DeleteSafetyFlag>)
    ensures
        r@ == v@,
{
    let mut r: Vec<DeleteSafetyFlag> = Vec::new();
    let mut i: usize = 0;
    while i < v.len()
        invariant
            i <= v.len(),
            r@ == v@.take(i as int),
        decreases v.len() - i,
    {
        r.push(v[i]);
        i = i + 1;
        assert(r@ =~= v@.take(i as int));
    }
    assert(v@.take(v.len() as int) =~= v@);
    r
}

impl PathDeleteSafety {
    /// The same verdict.
    pub open spec fn same(self, other: PathDeleteSafety) -> bool {
        self.classification == other.classification && self.can_delete_now == other.can_delete_now
            && self.flags@ == other.flags@ && self.reason@ == other.reason@
    }

    /// A copy of this verdict.
    pub fn copy(&self) -> (r: Self)
        ensures
            r.same(*self),
    {
        PathDeleteSafety {
            classification: self.classification,
            can_delete_now: self.can_delete_now,
            flags: copy_flags(&self.flags),
            reason: self.reason.clone(),
        }
    }
}

impl PathNode {
    /// The same row.
    pub open spec fn same(self, other: PathNode) -> bool {
        &&& self.path@ == other.path@
        &&& self.name@ == other.name@
        &&& self.kind == other.kind
        &&& same_opt_text(self.parent_path, other.parent_path)
        &&& self.depth_from_request == other.depth_from_request
        &&& self.size == other.size
        &&& self.logical_size == other.logical_size
        &&& self.state == other.state
        &&& self.visible == other.visible
        &&& self.children_known == other.children_known
        &&& same_opt_text(self.active_job_id, other.active_job_id)
        &&& self.delete_safety.same(other.delete_safety)
        &&& issues_same(self.issues@, other.issues@)
    }

    /// A copy of this row.
    pub fn copy(&self) -> (r: Self)
        ensures
            r.same(*self),
    {
        PathNode {
            path: self.path.clone(),
            name: self.name.clone(),
            kind: self.kind,
            parent_path: copy_opt_text(&self.parent_path),
            depth_from_request: self.depth_from_request,
            size: self.size,
            logical_size: self.logical_size,
            state: self.state,
            visible: self.visible,
            children_known: self.children_known,
            active_job_id: copy_opt_text(&self.active_job_id),
            delete_safety: self.delete_safety.copy(),
            issues: copy_issues(&self.issues),
        }
    }
}

/// The same rows in the same order.
pub open spec fn nodes_same(a: Seq<PathNode>, b: Seq<PathNode>) -> bool {
    a.len() == b.len() && forall|i: int| 0 <= i < a.len() ==> #[trigger] a[i].same(b[i])
}

/// A copy of a list of rows.
pub fn copy_nodes(v: &Vec<PathNode>) -> (r: Vec<PathNode>)
    ensures
        nodes_same(r@, v@),
{
    let mut r: Vec<PathNode> = Vec::new();
    let mut i: usize = 0;
    while i < v.len()
        invariant
            i <= v.len(),
            r@.len() == i,
            forall|j: int| 0 <= j < i ==> #[trigger] r@[j].same(v@[j]),
        decreases v.len() - i,
    {
        r.push(v[i].copy());
        i = i + 1;
    }
    r
}

impl DirectoryListing {
    /// The same listing.
    pub open spec fn same(self, other: DirectoryListing) -> bool {
        &&& self.path@ == other.path@
        &&& self.config_fingerprint@ == other.config_fingerprint@
        &&& nodes_same(self.children@, other.children@)
        &&& self.total_visible_size == other.total_visible_size
        &&& self.total_measured_size == other.total_measured_size
        &&& self.total_logical_size == other.total_logical_size
        &&& self.state == other.state
        &&& self.loaded_depth == other.loaded_depth
        &&& self.has_more_depth == other.has_more_depth
        &&& issues_same(self.issues@, other.issues@)
        &&& self.generation == other.generation
    }

    /// A copy of this listing.
    pub fn copy(&self) -> (r: Self)
        ensures
            r.same(*self),
    {
        DirectoryListing {
            path: self.path.clone(),
            config_fingerprint: self.config_fingerprint.clone(),
            children: copy_nodes(&self.children),
            total_visible_size: self.total_visible_size,
            total_measured_size: self.total_measured_size,
            total_logical_size: self.total_logical_size,
            state: self.state,
            loaded_depth: self.loaded_depth,
            has_more_depth: self.has_more_depth,
            issues: copy_issues(&self.issues),
            generation: self.generation,
        }
    }
}

impl DirectorySizeSummary {
    /// The same summary.
    pub open spec fn same(self, other: DirectorySizeSummary) -> bool {
        &&& self.path@ == other.path@
        &&& self.config_fingerprint@ == other.config_fingerprint@
        &&& self.allocated_size == other.allocated_size
        &&& self.logical_size == other.logical_size
        &&& self.has_visible_children == other.has_visible_children
        &&& issues_same(self.issues@, other.issues@)
    }

    /// A copy of this summary.
    pub fn copy(&self) -> (r: Self)
        ensures
            r.same(*self),
    {
        DirectorySizeSummary {
            path: self.path.clone(),
            config_fingerprint: self.config_fingerprint.clone(),
            allocated_size: self.allocated_size,
            logical_size: self.logical_size,
            has_visible_children: self.has_visible_children,
            issues: copy_issues(&self.issues),
        }
    }
}

} // verus!

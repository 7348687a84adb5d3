//! The shapes in which the driver's data is handed to a user interface, and
//! the mapping of driver errors to command errors.
use vstd::prelude::*;

use crate::driver::{
    copy_flags, copy_opt_text, same_opt_text, DeleteSafetyClassification, DeleteSafetyFlag,
    DirectoryListing, DirectoryProgressUpdate, DriverError, DriverEvent, EntryKind,
    InvalidationReceipt, InvalidationScope, NodeState, PathDeleteSafety, PathNode,
    ReadIssueKind, ScanIssue, StartScanReceipt, Volume,
};
use crate::jobs::ProgressSnapshot;
use crate::rules::{LiveUpdateConfig, ScanConfig, SizeMeasurementMode};
use crate::scan::DirectoryOpenProgress;

verus! {

/// A drive as the interface shows it.
#[derive(Debug, Clone, PartialEq)]
pub struct DriveDto {
    pub id: String,
    pub label: String,
    pub mount_point: String,
    pub total_space: u64,
    pub available_space: u64,
    pub used_space: u64,
    pub file_system: String,
    pub storage_kind: String,
    pub is_removable: bool,
    pub is_read_only: bool,
}

impl<'a> From<&'a Volume> for DriveDto {
    /// The drive of a volume: its texts and flags, its sizes, and the used
    /// space as total less available (zero when more is available).
    fn from(volume: &'a Volume) -> (r: Self)
        ensures
            r.id@ == volume.id@,
            r.label@ == volume.display_name@,
            r.mount_point@ == volume.mount_point@,
            r.total_space == volume.total_bytes,
            r.available_space == volume.available_bytes,
            r.used_space == volume.total_bytes.saturating_sub(volume.available_bytes),
            r.file_system@ == volume.filesystem@,
            r.storage_kind@ == volume.storage_kind@,
            r.is_removable == volume.is_removable,
            r.is_read_only == volume.is_read_only,
    {
        DriveDto {
            id: volume.id.clone(),
            label: volume.display_name.clone(),
            mount_point: volume.mount_point.clone(),
            total_space: volume.total_bytes,
            available_space: volume.available_bytes,
            used_space: volume.total_bytes.saturating_sub(volume.available_bytes),
            file_system: volume.filesystem.clone(),
            storage_kind: volume.storage_kind.clone(),
            is_removable: volume.is_removable,
            is_read_only: volume.is_read_only,
        }
    }
}

impl<'a> vstd::std_specs::convert::FromSpecImpl<&'a Volume> for DriveDto {
    /// `from` copies the texts, so its result matches `from_spec` only up to
    /// the texts' views, as its own ensures state.
    open spec fn obeys_from_spec() -> bool {
        false
    }

    open spec fn from_spec(volume: &'a Volume) -> DriveDto {
        DriveDto {
            id: volume.id,
            label: volume.display_name,
            mount_point: volume.mount_point,
            total_space: volume.total_bytes,
            available_space: volume.available_bytes,
            used_space: volume.total_bytes.saturating_sub(volume.available_bytes),
            file_system: volume.filesystem,
            storage_kind: volume.storage_kind,
            is_removable: volume.is_removable,
            is_read_only: volume.is_read_only,
        }
    }
}

/// Scan rules as an interface sends them: any rule may be left out.
#[derive(Debug, Clone, Copy, PartialEq, Eq, Structural)]
pub struct ScanConfigDto {
    pub requested_depth: Option<usize>,
    pub preload_depth: Option<usize>,
    pub show_hidden: Option<bool>,
    pub expand_above_bytes: Option<u64>,
    pub min_visible_folder_bytes: Option<u64>,
    pub stay_on_filesystem: Option<bool>,
    pub follow_symlinks: Option<bool>,
    pub dedupe_hard_links: Option<bool>,
    pub size_measurement_mode: Option<SizeMeasurementMode>,
    pub live_updates: Option<LiveUpdateConfig>,
}

/// An optional rule, or its default.
pub open spec fn or_default<T>(value: Option<T>, default: T) -> T {
    match value {
        Some(v) => v,
        None => default,
    }
}

impl From<ScanConfigDto> for ScanConfig {
    /// The rules sent, each left-out rule taking its default, normalized. A
    /// left-out expansion threshold takes the default one; a left-out minimum
    /// folder size means no minimum.
    fn from(dto: ScanConfigDto) -> (r: Self) {
        let default = ScanConfig::default();
        let config = ScanConfig {
            requested_depth: match dto.requested_depth {
                Some(v) => v,
                None => default.requested_depth,
            },
            preload_depth: match dto.preload_depth {
                Some(v) => v,
                None => default.preload_depth,
            },
            show_hidden: match dto.show_hidden {
                Some(v) => v,
                None => default.show_hidden,
            },
            expand_above_bytes: match dto.expand_above_bytes {
                Some(v) => Some(v),
                None => default.expand_above_bytes,
            },
            min_visible_folder_bytes: dto.min_visible_folder_bytes,
            stay_on_filesystem: match dto.stay_on_filesystem {
                Some(v) => v,
                None => default.stay_on_filesystem,
            },
            follow_symlinks: match dto.follow_symlinks {
                Some(v) => v,
                None => default.follow_symlinks,
            },
            dedupe_hard_links: match dto.dedupe_hard_links {
                Some(v) => v,
                None => default.dedupe_hard_links,
            },
            size_measurement_mode: match dto.size_measurement_mode {
                Some(v) => v,
                None => default.size_measurement_mode,
            },
            live_updates: match dto.live_updates {
                Some(v) => v,
                None => default.live_updates,
            },
        };
        config.normalized()
    }
}

impl vstd::std_specs::convert::FromSpecImpl<ScanConfigDto> for ScanConfig {
    open spec fn obeys_from_spec() -> bool {
        true
    }

    open spec fn from_spec(dto: ScanConfigDto) -> ScanConfig {
        let d = ScanConfig::default_spec();
        ScanConfig {
            requested_depth: or_default(dto.requested_depth, d.requested_depth),
            preload_depth: or_default(dto.preload_depth, d.preload_depth),
            show_hidden: or_default(dto.show_hidden, d.show_hidden),
            expand_above_bytes: match dto.expand_above_bytes {
                Some(v) => Some(v),
                None => d.expand_above_bytes,
            },
            min_visible_folder_bytes: dto.min_visible_folder_bytes,
            stay_on_filesystem: or_default(dto.stay_on_filesystem, d.stay_on_filesystem),
            follow_symlinks: or_default(dto.follow_symlinks, d.follow_symlinks),
            dedupe_hard_links: or_default(dto.dedupe_hard_links, d.dedupe_hard_links),
            size_measurement_mode: or_default(dto.size_measurement_mode, d.size_measurement_mode),
            live_updates: or_default(dto.live_updates, d.live_updates),
        }.normalized_spec()
    }
}

impl Default for ScanConfigDto {
    /// Every rule sent with its default value.
    fn default() -> (r: Self)
        ensures
            r == (ScanConfigDto {
                requested_depth: Some(ScanConfig::default_spec().requested_depth),
                preload_depth: Some(ScanConfig::default_spec().preload_depth),
                show_hidden: Some(ScanConfig::default_spec().show_hidden),
                expand_above_bytes: ScanConfig::default_spec().expand_above_bytes,
                min_visible_folder_bytes: ScanConfig::default_spec().min_visible_folder_bytes,
                stay_on_filesystem: Some(ScanConfig::default_spec().stay_on_filesystem),
                follow_symlinks: Some(ScanConfig::default_spec().follow_symlinks),
                dedupe_hard_links: Some(ScanConfig::default_spec().dedupe_hard_links),
                size_measurement_mode: Some(ScanConfig::default_spec().size_measurement_mode),
                live_updates: Some(ScanConfig::default_spec().live_updates),
            }),
    {
        let config = ScanConfig::default();
        ScanConfigDto {
            requested_depth: Some(config.requested_depth),
            preload_depth: Some(config.preload_depth),
            show_hidden: Some(config.show_hidden),
            expand_above_bytes: config.expand_above_bytes,
            min_visible_folder_bytes: config.min_visible_folder_bytes,
            stay_on_filesystem: Some(config.stay_on_filesystem),
            follow_symlinks: Some(config.follow_symlinks),
            dedupe_hard_links: Some(config.dedupe_hard_links),
            size_measurement_mode: Some(config.size_measurement_mode),
            live_updates: Some(config.live_updates),
        }
    }
}

/// The name of a read-issue kind.
pub open spec fn issue_kind_name(kind: ReadIssueKind) -> Seq<char> {
    match kind {
        ReadIssueKind::PermissionDenied => "PermissionDenied"@,
        ReadIssueKind::NotFound => "NotFound"@,
        ReadIssueKind::NotDirectory => "NotDirectory"@,
        ReadIssueKind::HiddenSkipped => "HiddenSkipped"@,
        ReadIssueKind::FilesystemBoundary => "FilesystemBoundary"@,
        ReadIssueKind::SymlinkSkipped => "SymlinkSkipped"@,
        ReadIssueKind::MetadataFailed => "MetadataFailed"@,
        ReadIssueKind::SizeUnavailable => "SizeUnavailable"@,
        ReadIssueKind::VolumeUnmounted => "VolumeUnmounted"@,
    }
}

/// The name of a read-issue kind.
pub fn issue_kind_text(kind: ReadIssueKind) -> (r: String)
    ensures
        r@ == issue_kind_name(kind),
{
    match kind {
        ReadIssueKind::PermissionDenied => "PermissionDenied".to_owned(),
        ReadIssueKind::NotFound => "NotFound".to_owned(),
        ReadIssueKind::NotDirectory => "NotDirectory".to_owned(),
        ReadIssueKind::HiddenSkipped => "HiddenSkipped".to_owned(),
        ReadIssueKind::FilesystemBoundary => "FilesystemBoundary".to_owned(),
        ReadIssueKind::SymlinkSkipped => "SymlinkSkipped".to_owned(),
        ReadIssueKind::MetadataFailed => "MetadataFailed".to_owned(),
        ReadIssueKind::SizeUnavailable => "SizeUnavailable".to_owned(),
        ReadIssueKind::VolumeUnmounted => "VolumeUnmounted".to_owned(),
    }
}

/// An issue as the interface shows it.
#[derive(Debug, Clone, PartialEq)]
pub struct ScanIssueDto {
    pub path: String,
    pub kind: String,
    pub message: String,
}

/// The shown issue of an issue: its path, its kind's name, its message.
pub open spec fn issue_dto_of(issue: ScanIssue, dto: ScanIssueDto) -> bool {
    dto.path@ == issue.path@ && dto.kind@ == issue_kind_name(issue.kind) && dto.message@
        == issue.message@
}

impl<'a> From<&'a ScanIssue> for ScanIssueDto {
    fn from(issue: &'a ScanIssue) -> (r: Self)
        ensures
            issue_dto_of(*issue, r),
    {
        ScanIssueDto {
            path: display_path(&issue.path),
            kind: issue_kind_text(issue.kind),
            message: issue.message.clone(),
        }
    }
}

impl<'a> vstd::std_specs::convert::FromSpecImpl<&'a ScanIssue> for ScanIssueDto {
    /// `from` copies the texts: its result is described up to their views by
    /// `issue_dto_of`.
    open spec fn obeys_from_spec() -> bool {
        false
    }

    open spec fn from_spec(issue: &'a ScanIssue) -> ScanIssueDto {
        ScanIssueDto { path: issue.path, kind: vstd::pervasive::arbitrary(), message: issue.message }
    }
}

/// The shown issues of a list of issues, in order.
pub fn issue_dtos(issues: &Vec<ScanIssue>) -> (r: Vec<ScanIssueDto>)
    ensures
        r@.len() == issues@.len(),
        forall|i: int| 0 <= i < r@.len() ==> issue_dto_of(issues@[i], #[trigger] r@[i]),
{
    let mut r: Vec<ScanIssueDto> = Vec::new();
    let mut i: usize = 0;
    while i < issues.len()
        invariant
            i <= issues@.len(),
            r@.len() == i,
            forall|k: int| 0 <= k < i ==> issue_dto_of(issues@[k], #[trigger] r@[k]),
        decreases issues.len() - i,
    {
        r.push(ScanIssueDto::from(&issues[i]));
        i = i + 1;
    }
    r
}

/// A deletion verdict as the interface shows it.
#[derive(Debug, Clone, PartialEq, Eq)]
pub struct PathDeleteSafetyDto {
    pub classification: DeleteSafetyClassification,
    pub can_delete_now: bool,
    pub flags: Vec<DeleteSafetyFlag>,
    pub reason: String,
}

/// `dto` carries the classification, flags and reason of `safety`.
pub open spec fn safety_dto_of(safety: PathDeleteSafety, dto: PathDeleteSafetyDto) -> bool {
    dto.classification == safety.classification && dto.can_delete_now == safety.can_delete_now
        && dto.flags@ == safety.flags@ && dto.reason@ == safety.reason@
}

impl<'a> From<&'a PathDeleteSafety> for PathDeleteSafetyDto {
    fn from(safety: &'a PathDeleteSafety) -> (r: Self)
        ensures
            safety_dto_of(*safety, r),
    {
        PathDeleteSafetyDto {
            classification: safety.classification,
            can_delete_now: safety.can_delete_now,
            flags: copy_flags(&safety.flags),
            reason: safety.reason.clone(),
        }
    }
}

impl<'a> vstd::std_specs::convert::FromSpecImpl<&'a PathDeleteSafety> for PathDeleteSafetyDto {
    /// `from` copies the flags and the reason: its result is described up to
    /// their views by `safety_dto_of`.
    open spec fn obeys_from_spec() -> bool {
        false
    }

    open spec fn from_spec(safety: &'a PathDeleteSafety) -> PathDeleteSafetyDto {
        PathDeleteSafetyDto {
            classification: safety.classification,
            can_delete_now: safety.can_delete_now,
            flags: safety.flags,
            reason: safety.reason,
        }
    }
}

/// A listing row as the interface shows it.
#[derive(Debug, Clone, PartialEq)]
pub struct PathNodeDto {
    pub path: String,
    pub name: String,
    pub kind: EntryKind,
    pub parent_path: Option<String>,
    pub depth_from_request: usize,
    pub size: u64,
    pub logical_size: u64,
    pub state: NodeState,
    pub visible: bool,
    pub children_known: bool,
    pub active_job_id: Option<String>,
    pub delete_safety: PathDeleteSafetyDto,
    pub issues: Vec<ScanIssueDto>,
}

/// The shown row of a row: every field shown as it is.
pub open spec fn node_dto_of(node: PathNode, dto: PathNodeDto) -> bool {
    &&& dto.path@ == node.path@
    &&& dto.name@ == node.name@
    &&& dto.kind == node.kind
    &&& same_opt_text(dto.parent_path, node.parent_path)
    &&& dto.depth_from_request == node.depth_from_request
    &&& dto.size == node.size
    &&& dto.logical_size == node.logical_size
    &&& dto.state == node.state
    &&& dto.visible == node.visible
    &&& dto.children_known == node.children_known
    &&& same_opt_text(dto.active_job_id, node.active_job_id)
    &&& safety_dto_of(node.delete_safety, dto.delete_safety)
    &&& dto.issues@.len() == node.issues@.len()
    &&& forall|i: int| 0 <= i < dto.issues@.len() ==> issue_dto_of(node.issues@[i], #[trigger] dto.issues@[i])
}

impl<'a> From<&'a PathNode> for PathNodeDto {
    fn from(node: &'a PathNode) -> (r: Self)
        ensures
            node_dto_of(*node, r),
    {
        PathNodeDto {
            path: display_path(&node.path),
            name: node.name.clone(),
            kind: node.kind,
            parent_path: copy_opt_text(&node.parent_path),
            depth_from_request: node.depth_from_request,
            size: node.size,
            logical_size: node.logical_size,
            state: node.state,
            visible: node.visible,
            children_known: node.children_known,
            active_job_id: copy_opt_text(&node.active_job_id),
            delete_safety: PathDeleteSafetyDto::from(&node.delete_safety),
            issues: issue_dtos(&node.issues),
        }
    }
}

impl<'a> vstd::std_specs::convert::FromSpecImpl<&'a PathNode> for PathNodeDto {
    /// `from` copies the texts: its result is described up to their views by
    /// `node_dto_of`.
    open spec fn obeys_from_spec() -> bool {
        false
    }

    open spec fn from_spec(node: &'a PathNode) -> PathNodeDto {
        PathNodeDto {
            path: node.path,
            name: node.name,
            kind: node.kind,
            parent_path: node.parent_path,
            depth_from_request: node.depth_from_request,
            size: node.size,
            logical_size: node.logical_size,
            state: node.state,
            visible: node.visible,
            children_known: node.children_known,
            active_job_id: node.active_job_id,
            delete_safety: PathDeleteSafetyDto {
                classification: node.delete_safety.classification,
                can_delete_now: node.delete_safety.can_delete_now,
                flags: node.delete_safety.flags,
                reason: node.delete_safety.reason,
            },
            issues: vstd::pervasive::arbitrary(),
        }
    }
}

/// A listing as the interface shows it.
#[derive(Debug, Clone, PartialEq)]
pub struct DirectoryListingDto {
    pub path: String,
    pub config_fingerprint: String,
    pub children: Vec<PathNodeDto>,
    pub total_visible_size: u64,
    pub total_measured_size: u64,
    pub total_logical_size: u64,
    pub state: NodeState,
    pub loaded_depth: usize,
    pub has_more_depth: bool,
    pub issues: Vec<ScanIssueDto>,
    pub generation: u64,
}

/// The shown listing of a listing: every field shown as it is, rows and
/// issues in order.
pub open spec fn listing_dto_of(listing: DirectoryListing, dto: DirectoryListingDto) -> bool {
    &&& dto.path@ == listing.path@
    &&& dto.config_fingerprint@ == listing.config_fingerprint@
    &&& dto.children@.len() == listing.children@.len()
    &&& forall|i: int|
        0 <= i < dto.children@.len() ==> node_dto_of(listing.children@[i], #[trigger] dto.children@[i])
    &&& dto.total_visible_size == listing.total_visible_size
    &&& dto.total_measured_size == listing.total_measured_size
    &&& dto.total_logical_size == listing.total_logical_size
    &&& dto.state == listing.state
    &&& dto.loaded_depth == listing.loaded_depth
    &&& dto.has_more_depth == listing.has_more_depth
    &&& dto.issues@.len() == listing.issues@.len()
    &&& forall|i: int|
        0 <= i < dto.issues@.len() ==> issue_dto_of(listing.issues@[i], #[trigger] dto.issues@[i])
    &&& dto.generation == listing.generation
}

impl<'a> From<&'a DirectoryListing> for DirectoryListingDto {
    fn from(listing: &'a DirectoryListing) -> (r: Self)
        ensures
            listing_dto_of(*listing, r),
    {
        let mut children: Vec<PathNodeDto> = Vec::new();
        let mut i: usize = 0;
        while i < listing.children.len()
            invariant
                i <= listing.children@.len(),
                children@.len() == i,
                forall|k: int| 0 <= k < i ==> node_dto_of(listing.children@[k], #[trigger] children@[k]),
            decreases listing.children.len() - i,
        {
            children.push(PathNodeDto::from(&listing.children[i]));
            i = i + 1;
        }
        DirectoryListingDto {
            path: display_path(&listing.path),
            config_fingerprint: listing.config_fingerprint.clone(),
            children,
            total_visible_size: listing.total_visible_size,
            total_measured_size: listing.total_measured_size,
            total_logical_size: listing.total_logical_size,
            state: listing.state,
            loaded_depth: listing.loaded_depth,
            has_more_depth: listing.has_more_depth,
            issues: issue_dtos(&listing.issues),
            generation: listing.generation,
        }
    }
}

impl<'a> vstd::std_specs::convert::FromSpecImpl<&'a DirectoryListing> for DirectoryListingDto {
    /// `from` copies the texts and rows: its result is described up to their
    /// views by `listing_dto_of`.
    open spec fn obeys_from_spec() -> bool {
        false
    }

    open spec fn from_spec(listing: &'a DirectoryListing) -> DirectoryListingDto {
        DirectoryListingDto {
            path: listing.path,
            config_fingerprint: listing.config_fingerprint,
            children: vstd::pervasive::arbitrary(),
            total_visible_size: listing.total_visible_size,
            total_measured_size: listing.total_measured_size,
            total_logical_size: listing.total_logical_size,
            state: listing.state,
            loaded_depth: listing.loaded_depth,
            has_more_depth: listing.has_more_depth,
            issues: vstd::pervasive::arbitrary(),
            generation: listing.generation,
        }
    }
}

/// Progress of opening a directory as the interface shows it.
#[derive(Debug, Clone, PartialEq, Eq)]
pub struct FsOpenProgressEventDto {
    pub path: String,
    pub entries_processed: u64,
}

impl FsOpenProgressEventDto {
    /// The progress of opening `path`.
    pub fn new(path: String, progress: DirectoryOpenProgress) -> (r: Self)
        ensures
            r.path == path,
            r.entries_processed == progress.entries_processed,
    {
        FsOpenProgressEventDto { path, entries_processed: progress.entries_processed }
    }
}

/// A running directory total as the interface shows it.
#[derive(Debug, Clone, PartialEq)]
pub struct DirectoryProgressUpdateDto {
    pub path: String,
    pub size: u64,
    pub logical_size: u64,
    pub state: NodeState,
}

/// The shown running total of a running total.
pub open spec fn update_dto_of(update: DirectoryProgressUpdate, dto: DirectoryProgressUpdateDto) -> bool {
    dto.path@ == update.path@ && dto.size == update.size && dto.logical_size == update.logical_size
        && dto.state == update.state
}

impl<'a> From<&'a DirectoryProgressUpdate> for DirectoryProgressUpdateDto {
    fn from(update: &'a DirectoryProgressUpdate) -> (r: Self)
        ensures
            update_dto_of(*update, r),
    {
        DirectoryProgressUpdateDto {
            path: display_path(&update.path),
            size: update.size,
            logical_size: update.logical_size,
            state: update.state,
        }
    }
}

impl<'a> vstd::std_specs::convert::FromSpecImpl<&'a DirectoryProgressUpdate> for DirectoryProgressUpdateDto {
    /// `from` copies the path: its result is described up to its view by
    /// `update_dto_of`.
    open spec fn obeys_from_spec() -> bool {
        false
    }

    open spec fn from_spec(update: &'a DirectoryProgressUpdate) -> DirectoryProgressUpdateDto {
        DirectoryProgressUpdateDto {
            path: update.path,
            size: update.size,
            logical_size: update.logical_size,
            state: update.state,
        }
    }
}

/// A scan receipt as the interface shows it.
#[derive(Debug, Clone, PartialEq, Eq)]
pub struct StartScanReceiptDto {
    pub job_id: String,
    pub request_id: String,
}

impl From<StartScanReceipt> for StartScanReceiptDto {
    fn from(receipt: StartScanReceipt) -> (r: Self) {
        StartScanReceiptDto { job_id: receipt.job_id, request_id: receipt.request_id }
    }
}

impl vstd::std_specs::convert::FromSpecImpl<StartScanReceipt> for StartScanReceiptDto {
    open spec fn obeys_from_spec() -> bool {
        true
    }

    open spec fn from_spec(receipt: StartScanReceipt) -> StartScanReceiptDto {
        StartScanReceiptDto { job_id: receipt.job_id, request_id: receipt.request_id }
    }
}

/// An invalidation receipt as the interface shows it.
#[derive(Debug, Clone, PartialEq)]
pub struct InvalidationReceiptDto {
    pub invalidated_paths: Vec<String>,
    pub superseded_job_ids: Vec<String>,
}

impl From<InvalidationReceipt> for InvalidationReceiptDto {
    fn from(receipt: InvalidationReceipt) -> (r: Self) {
        InvalidationReceiptDto {
            invalidated_paths: receipt.invalidated_paths,
            superseded_job_ids: receipt.superseded_job_ids,
        }
    }
}

impl vstd::std_specs::convert::FromSpecImpl<InvalidationReceipt> for InvalidationReceiptDto {
    open spec fn obeys_from_spec() -> bool {
        true
    }

    open spec fn from_spec(receipt: InvalidationReceipt) -> InvalidationReceiptDto {
        InvalidationReceiptDto {
            invalidated_paths: receipt.invalidated_paths,
            superseded_job_ids: receipt.superseded_job_ids,
        }
    }
}

/// An invalidation scope as the interface sends it.
#[derive(Debug, Clone, Copy, PartialEq, Eq, Structural)]
pub enum InvalidationScopeDto {
    PathOnly,
    PathAndDescendants,
}

impl From<InvalidationScopeDto> for InvalidationScope {
    fn from(scope: InvalidationScopeDto) -> (r: Self) {
        match scope {
            InvalidationScopeDto::PathOnly => InvalidationScope::PathOnly,
            InvalidationScopeDto::PathAndDescendants => InvalidationScope::PathAndDescendants,
        }
    }
}

impl vstd::std_specs::convert::FromSpecImpl<InvalidationScopeDto> for InvalidationScope {
    open spec fn obeys_from_spec() -> bool {
        true
    }

    open spec fn from_spec(scope: InvalidationScopeDto) -> InvalidationScope {
        match scope {
            InvalidationScopeDto::PathOnly => InvalidationScope::PathOnly,
            InvalidationScopeDto::PathAndDescendants => InvalidationScope::PathAndDescendants,
        }
    }
}

/// A scan event as the interface shows it.
#[derive(Debug, Clone, PartialEq)]
pub enum FsProgressEventDto {
    JobQueued { job_id: String, request_id: String, path: String },
    JobStarted { job_id: String, request_id: String, path: String },
    DirectoryReady { job_id: String, request_id: String, path: String, listing: DirectoryListingDto },
    ProgressSnapshot { job_id: String, request_id: String, snapshot: ProgressSnapshot },
    DirectoryProgress {
        job_id: String,
        request_id: String,
        path: String,
        updates: Vec<DirectoryProgressUpdateDto>,
        snapshot: ProgressSnapshot,
    },
    JobFinished { job_id: String, request_id: String, path: String },
    JobFailed { job_id: String, request_id: String, path: String, message: String },
    PathInvalidated { path: String, scope: InvalidationScope, generation: u64 },
}

/// The shown event of an event: the same kind of event with the same
/// identifiers, paths and values; a listing and running totals shown as
/// `listing_dto_of` and `update_dto_of` say.
pub open spec fn event_dto_of(event: DriverEvent, dto: FsProgressEventDto) -> bool {
    match event {
        DriverEvent::JobQueued { job_id, request_id, path } => dto matches FsProgressEventDto::JobQueued {
            job_id: j,
            request_id: q,
            path: p,
        } && j == job_id && q == request_id && p@ == path@,
        DriverEvent::JobStarted { job_id, request_id, path } => dto matches FsProgressEventDto::JobStarted {
            job_id: j,
            request_id: q,
            path: p,
        } && j == job_id && q == request_id && p@ == path@,
        DriverEvent::DirectoryReady { job_id, request_id, path, listing } => dto matches FsProgressEventDto::DirectoryReady {
            job_id: j,
            request_id: q,
            path: p,
            listing: l,
        } && j == job_id && q == request_id && p@ == path@ && listing_dto_of(listing, l),
        DriverEvent::ProgressSnapshot { job_id, request_id, snapshot } => dto
            == FsProgressEventDto::ProgressSnapshot { job_id, request_id, snapshot },
        DriverEvent::DirectoryProgress { job_id, request_id, path, updates, snapshot } => dto matches FsProgressEventDto::DirectoryProgress {
            job_id: j,
            request_id: q,
            path: p,
            updates: u,
            snapshot: s,
        } && j == job_id && q == request_id && p@ == path@ && s == snapshot && u@.len()
            == updates@.len() && forall|i: int|
            0 <= i < u@.len() ==> update_dto_of(updates@[i], #[trigger] u@[i]),
        DriverEvent::JobFinished { job_id, request_id, path } => dto matches FsProgressEventDto::JobFinished {
            job_id: j,
            request_id: q,
            path: p,
        } && j == job_id && q == request_id && p@ == path@,
        DriverEvent::JobFailed { job_id, request_id, path, message } => dto matches FsProgressEventDto::JobFailed {
            job_id: j,
            request_id: q,
            path: p,
            message: m,
        } && j == job_id && q == request_id && p@ == path@ && m == message,
        DriverEvent::PathInvalidated { path, scope, generation } => dto matches FsProgressEventDto::PathInvalidated {
            path: p,
            scope: s,
            generation: g,
        } && p@ == path@ && s == scope && g == generation,
    }
}

impl From<DriverEvent> for FsProgressEventDto {
    fn from(event: DriverEvent) -> (r: Self)
        ensures
            event_dto_of(event, r),
    {
        match event {
            DriverEvent::JobQueued { job_id, request_id, path } => FsProgressEventDto::JobQueued {
                job_id,
                request_id,
                path: display_path(&path),
            },
            DriverEvent::JobStarted { job_id, request_id, path } => FsProgressEventDto::JobStarted {
                job_id,
                request_id,
                path: display_path(&path),
            },
            DriverEvent::DirectoryReady { job_id, request_id, path, listing } => {
                FsProgressEventDto::DirectoryReady {
                    job_id,
                    request_id,
                    path: display_path(&path),
                    listing: DirectoryListingDto::from(&listing),
                }
            },
            DriverEvent::ProgressSnapshot { job_id, request_id, snapshot } => {
                FsProgressEventDto::ProgressSnapshot { job_id, request_id, snapshot }
            },
            DriverEvent::DirectoryProgress { job_id, request_id, path, updates, snapshot } => {
                let mut shown: Vec<DirectoryProgressUpdateDto> = Vec::new();
                let mut i: usize = 0;
                while i < updates.len()
                    invariant
                        i <= updates@.len(),
                        shown@.len() == i,
                        forall|k: int| 0 <= k < i ==> update_dto_of(updates@[k], #[trigger] shown@[k]),
                    decreases updates.len() - i,
                {
                    shown.push(DirectoryProgressUpdateDto::from(&updates[i]));
                    i = i + 1;
                }
                FsProgressEventDto::DirectoryProgress {
                    job_id,
                    request_id,
                    path: display_path(&path),
                    updates: shown,
                    snapshot,
                }
            },
            DriverEvent::JobFinished { job_id, request_id, path } => FsProgressEventDto::JobFinished {
                job_id,
                request_id,
                path: display_path(&path),
            },
            DriverEvent::JobFailed { job_id, request_id, path, message } => {
                FsProgressEventDto::JobFailed {
                    job_id,
                    request_id,
                    path: display_path(&path),
                    message,
                }
            },
            DriverEvent::PathInvalidated { path, scope, generation } => {
                FsProgressEventDto::PathInvalidated { path: display_path(&path), scope, generation }
            },
        }
    }
}

impl vstd::std_specs::convert::FromSpecImpl<DriverEvent> for FsProgressEventDto {
    /// `from` copies the paths and the listing: its result is described up to
    /// their views by `event_dto_of`.
    open spec fn obeys_from_spec() -> bool {
        false
    }

    open spec fn from_spec(event: DriverEvent) -> FsProgressEventDto {
        match event {
            DriverEvent::PathInvalidated { path, scope, generation } => {
                FsProgressEventDto::PathInvalidated { path, scope, generation }
            },
            DriverEvent::ProgressSnapshot { job_id, request_id, snapshot } => {
                FsProgressEventDto::ProgressSnapshot { job_id, request_id, snapshot }
            },
            DriverEvent::JobQueued { job_id, request_id, path } => FsProgressEventDto::JobQueued {
                job_id,
                request_id,
                path,
            },
            DriverEvent::JobStarted { job_id, request_id, path } => FsProgressEventDto::JobStarted {
                job_id,
                request_id,
                path,
            },
            DriverEvent::JobFinished { job_id, request_id, path } => FsProgressEventDto::JobFinished {
                job_id,
                request_id,
                path,
            },
            DriverEvent::JobFailed { job_id, request_id, path, message } => {
                FsProgressEventDto::JobFailed { job_id, request_id, path, message }
            },
            DriverEvent::DirectoryReady { job_id, request_id, path, listing } => {
                FsProgressEventDto::DirectoryReady {
                    job_id,
                    request_id,
                    path,
                    listing: DirectoryListingDto {
                        path: listing.path,
                        config_fingerprint: listing.config_fingerprint,
                        children: vstd::pervasive::arbitrary(),
                        total_visible_size: listing.total_visible_size,
                        total_measured_size: listing.total_measured_size,
                        total_logical_size: listing.total_logical_size,
                        state: listing.state,
                        loaded_depth: listing.loaded_depth,
                        has_more_depth: listing.has_more_depth,
                        issues: vstd::pervasive::arbitrary(),
                        generation: listing.generation,
                    },
                }
            },
            DriverEvent::DirectoryProgress { job_id, request_id, path, updates: _, snapshot } => {
                FsProgressEventDto::DirectoryProgress {
                    job_id,
                    request_id,
                    path,
                    updates: vstd::pervasive::arbitrary(),
                    snapshot,
                }
            },
        }
    }
}

/// The outcome of a deletion.
#[derive(Debug, Clone, PartialEq, Eq)]
pub struct DeleteReceiptDto {
    pub deleted_paths: Vec<String>,
}

/// Whether the filesystem may be read, and what to tell the user.
#[derive(Debug, Clone, PartialEq, Eq)]
pub struct PermissionCheckDto {
    pub granted: bool,
    pub message: String,
}

/// What kind of failure a command reports.
#[derive(Debug, Clone, Copy, PartialEq, Eq, Structural)]
pub enum CommandErrorCode {
    NoDrives,
    InvalidRoot,
    ScanStartFailed,
    PathOutsideRoot,
    PathOutsideVolume,
    DriverUnavailable,
    JobNotFound,
    OpenItemFailed,
    DeleteFailed,
}

/// A command's failure: its kind and message.
#[derive(Debug, Clone, PartialEq, Eq)]
pub struct CommandError {
    pub code: CommandErrorCode,
    pub message: String,
}

impl CommandError {
    /// A failure of kind `code` with `message`.
    pub fn new(code: CommandErrorCode, message: String) -> (r: Self)
        ensures
            r.code == code,
            r.message == message,
    {
        CommandError { code, message }
    }
}

/// The text of a path, as shown to the user.
pub fn display_path(path: &String) -> (r: String)
    ensures
        r@ == path@,
{
    path.clone()
}

/// The command failure code of a driver error.
pub open spec fn command_code(error: DriverError) -> CommandErrorCode {
    match error {
        DriverError::JobNotFound(_) => CommandErrorCode::JobNotFound,
        DriverError::DriverUnavailable(_) => CommandErrorCode::DriverUnavailable,
        DriverError::InvalidPath(_) => CommandErrorCode::InvalidRoot,
        DriverError::PathOutsideVolume(_) => CommandErrorCode::PathOutsideVolume,
        DriverError::PermissionDenied(_) => CommandErrorCode::PathOutsideRoot,
        DriverError::ScanCanceled => CommandErrorCode::ScanStartFailed,
        DriverError::Io { .. } => CommandErrorCode::DriverUnavailable,
    }
}

/// The command failure of a driver error: its code (see `command_code`) and
/// the error's message.
pub fn command_error(error: DriverError) -> (r: CommandError)
    ensures
        r.code == command_code(error),
        r.message@.len() >= crate::driver::error_message_prefix(error).len(),
        r.message@.subrange(0, crate::driver::error_message_prefix(error).len() as int)
            == crate::driver::error_message_prefix(error),
        !(error is Io) ==> r.message@ == crate::driver::error_message_prefix(error),
{
    let code = match &error {
        DriverError::JobNotFound(_) => CommandErrorCode::JobNotFound,
        DriverError::DriverUnavailable(_) => CommandErrorCode::DriverUnavailable,
        DriverError::InvalidPath(_) => CommandErrorCode::InvalidRoot,
        DriverError::PathOutsideVolume(_) => CommandErrorCode::PathOutsideVolume,
        DriverError::PermissionDenied(_) => CommandErrorCode::PathOutsideRoot,
        DriverError::ScanCanceled => CommandErrorCode::ScanStartFailed,
        DriverError::Io { .. } => CommandErrorCode::DriverUnavailable,
    };
    CommandError::new(code, error.message())
}

} // verus!

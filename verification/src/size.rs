//! On-disk size measurement and hard-link deduplication.
use vstd::prelude::*;

use crate::rules::SizeMeasurementMode;
use crate::text::str_equal;

verus! {

/// What identifies stored file content across hard links.
#[derive(Debug, Clone, PartialEq, Eq, Hash)]
pub struct SizeIdentity {
    pub platform: String,
    pub dev: Option<u64>,
    pub ino: Option<u64>,
    pub file_index: Option<u64>,
    pub volume_serial: Option<u64>,
}

/// The mathematical view of a size identity.
pub struct IdentityKey {
    pub platform: Seq<char>,
    pub dev: Option<u64>,
    pub ino: Option<u64>,
    pub file_index: Option<u64>,
    pub volume_serial: Option<u64>,
}

impl View for SizeIdentity {
    type V = IdentityKey;

    open spec fn view(&self) -> IdentityKey {
        IdentityKey {
            platform: self.platform@,
            dev: self.dev,
            ino: self.ino,
            file_index: self.file_index,
            volume_serial: self.volume_serial,
        }
    }
}

/// How a size was obtained.
#[derive(Debug, Clone, Copy, PartialEq, Eq, Structural)]
pub enum MeasurementMethod {
    UnixBlocks,
    WindowsCompressedSize,
    LogicalFallback,
    DirectoryAggregate,
}

/// The measured size of a file or a directory.
#[derive(Debug, Clone, PartialEq, Eq)]
pub struct SizeMeasurement {
    pub allocated_bytes: u64,
    pub logical_bytes: u64,
    pub measurement_method: MeasurementMethod,
    pub identity: Option<SizeIdentity>,
    pub deduped: bool,
}

/// What the platform reports of one file: its length, its allocated 512-byte
/// blocks (Unix), its compressed size (Windows), its link count and its
/// device and inode numbers.
#[derive(Debug, Clone, Copy, PartialEq, Eq)]
pub struct FileFacts {
    pub len: u64,
    pub blocks: Option<u64>,
    pub compressed_size: Option<u64>,
    pub link_count: Option<u64>,
    pub dev: Option<u64>,
    pub ino: Option<u64>,
}

/// `blocks * 512`, saturating at `u64::MAX`.
pub open spec fn blocks_bytes(blocks: u64) -> u64 {
    if blocks * 512 > u64::MAX {
        u64::MAX
    } else {
        (blocks * 512) as u64
    }
}

/// The platform's allocated size of a file: its blocks when they are non-zero,
/// else its compressed size when known, else its length.
pub open spec fn allocated_size_spec(facts: FileFacts) -> (u64, MeasurementMethod) {
    if facts.blocks is Some && blocks_bytes(facts.blocks->0) > 0 {
        (blocks_bytes(facts.blocks->0), MeasurementMethod::UnixBlocks)
    } else if facts.compressed_size is Some {
        (facts.compressed_size->0, MeasurementMethod::WindowsCompressedSize)
    } else {
        (facts.len, MeasurementMethod::LogicalFallback)
    }
}

/// A file with more than one link is identified by its device and inode.
pub open spec fn hard_link_key(facts: FileFacts) -> Option<IdentityKey> {
    if facts.link_count is Some && facts.link_count->0 > 1 {
        Some(
            IdentityKey {
                platform: seq!['u', 'n', 'i', 'x'],
                dev: facts.dev,
                ino: facts.ino,
                file_index: None,
                volume_serial: None,
            },
        )
    } else {
        None
    }
}

/// The allocated size of a file and how it was obtained.
pub fn platform_allocated_size(facts: &FileFacts) -> (r: (u64, MeasurementMethod))
    ensures
        r == allocated_size_spec(*facts),
{
    if let Some(blocks) = facts.blocks {
        let allocated = match blocks.checked_mul(512) {
            Some(v) => v,
            None => u64::MAX,
        };
        if allocated > 0 {
            return (allocated, MeasurementMethod::UnixBlocks);
        }
    }
    if let Some(size) = facts.compressed_size {
        return (size, MeasurementMethod::WindowsCompressedSize);
    }
    (facts.len, MeasurementMethod::LogicalFallback)
}

fn hard_link_identity(facts: &FileFacts) -> (r: Option<SizeIdentity>)
    ensures
        match r {
            Some(id) => hard_link_key(*facts) == Some(id@),
            None => hard_link_key(*facts) is None,
        },
{
    match facts.link_count {
        Some(n) if n > 1 => {
            let platform = String::from_str("unix");
            proof {
                reveal_strlit("unix");
            }
            assert(platform@ =~= seq!['u', 'n', 'i', 'x']);
            Some(
                SizeIdentity {
                    platform,
                    dev: facts.dev,
                    ino: facts.ino,
                    file_index: None,
                    volume_serial: None,
                },
            )
        },
        _ => None,
    }
}

/// The measurement of a directory from the totals of its contents.
pub fn directory_measurement(allocated_bytes: u64, logical_bytes: u64) -> (r: SizeMeasurement)
    ensures
        r.allocated_bytes == allocated_bytes,
        r.logical_bytes == logical_bytes,
        r.measurement_method == MeasurementMethod::DirectoryAggregate,
        r.identity is None,
        !r.deduped,
{
    SizeMeasurement {
        allocated_bytes,
        logical_bytes,
        measurement_method: MeasurementMethod::DirectoryAggregate,
        identity: None,
        deduped: false,
    }
}

/// Remembers which hard-linked contents a scan has counted.
#[derive(Debug, Default)]
pub struct HardLinkDedupe {
    seen: Vec<SizeIdentity>,
}

/// The result of measuring one file given the identities already counted.
pub open spec fn measure_spec(seen: Set<IdentityKey>, facts: FileFacts) -> (
    u64,
    MeasurementMethod,
    bool,
    Set<IdentityKey>,
) {
    let (allocated, method) = allocated_size_spec(facts);
    match hard_link_key(facts) {
        Some(key) => if seen.contains(key) {
            (0, method, true, seen)
        } else {
            (allocated, method, false, seen.insert(key))
        },
        None => (allocated, method, false, seen),
    }
}

/// A copy of an identity.
pub fn copy_identity(id: &SizeIdentity) -> (r: SizeIdentity)
    ensures
        r@ == id@,
{
    SizeIdentity {
        platform: id.platform.clone(),
        dev: id.dev,
        ino: id.ino,
        file_index: id.file_index,
        volume_serial: id.volume_serial,
    }
}

fn identity_equal(a: &SizeIdentity, b: &SizeIdentity) -> (r: bool)
    ensures
        r == (a@ == b@),
{
    str_equal(&a.platform, &b.platform) && a.dev == b.dev && a.ino == b.ino && a.file_index
        == b.file_index && a.volume_serial == b.volume_serial
}

impl HardLinkDedupe {
    /// The identities counted so far.
    pub closed spec fn seen_set(&self) -> Set<IdentityKey> {
        Set::new(|k: IdentityKey| exists|i: int| 0 <= i < self.seen@.len() && self.seen@[i]@ == k)
    }

    /// No identity is remembered twice.
    pub closed spec fn wf(&self) -> bool {
        forall|i: int, j: int|
            0 <= i < j < self.seen@.len() ==> self.seen@[i]@ != self.seen@[j]@
    }

    /// An empty record.
    pub fn new() -> (r: Self)
        ensures
            r.wf(),
            r.seen_set() == Set::<IdentityKey>::empty(),
    {
        let r = HardLinkDedupe { seen: Vec::new() };
        assert(r.seen_set() =~= Set::<IdentityKey>::empty());
        r
    }

    /// Whether an identity has been counted already.
    pub fn has_seen(&self, identity: &SizeIdentity) -> (r: bool)
        ensures
            r == self.seen_set().contains(identity@),
    {
        let mut i: usize = 0;
        while i < self.seen.len()
            invariant
                i <= self.seen.len(),
                forall|j: int| 0 <= j < i ==> self.seen@[j]@ != identity@,
            decreases self.seen.len() - i,
        {
            if identity_equal(&self.seen[i], identity) {
                return true;
            }
            i = i + 1;
        }
        false
    }

    /// Measures a file. Content reached through another hard link that was
    /// counted before contributes no allocated bytes and is marked deduplicated;
    /// otherwise its identity, when it has one, is remembered.
    pub fn measure_file(&mut self, facts: &FileFacts) -> (r: SizeMeasurement)
        requires
            old(self).wf(),
        ensures
            final(self).wf(),
            ({
                let (allocated, method, deduped, seen) = measure_spec(old(self).seen_set(), *facts);
                &&& r.allocated_bytes == allocated
                &&& r.measurement_method == method
                &&& r.deduped == deduped
                &&& final(self).seen_set() == seen
            }),
            r.logical_bytes == facts.len,
            match r.identity {
                Some(id) => hard_link_key(*facts) == Some(id@),
                None => hard_link_key(*facts) is None,
            },
    {
        let identity = hard_link_identity(facts);
        let (measured, method) = platform_allocated_size(facts);
        let deduped = match &identity {
            Some(id) => {
                if self.has_seen(id) {
                    true
                } else {
                    let ghost before = self.seen@;
                    self.seen.push(copy_identity(id));
                    assert(self.seen_set() =~= old(self).seen_set().insert(id@)) by {
                        assert forall|k: IdentityKey|
                            self.seen_set().contains(k) implies old(self).seen_set().insert(
                            id@,
                        ).contains(k) by {
                            let i = choose|i: int|
                                0 <= i < self.seen@.len() && self.seen@[i]@ == k;
                            if i < before.len() {
                                assert(before[i]@ == k);
                            }
                        }
                        assert forall|k: IdentityKey|
                            old(self).seen_set().insert(id@).contains(k) implies self.seen_set().contains(
                            k,
                        ) by {
                            if k == id@ {
                                assert(self.seen@[before.len() as int]@ == k);
                            } else {
                                let i = choose|i: int| 0 <= i < before.len() && before[i]@ == k;
                                assert(self.seen@[i]@ == k);
                            }
                        }
                    }
                    false
                }
            },
            None => false,
        };
        let allocated_bytes = if deduped {
            0
        } else {
            measured
        };
        SizeMeasurement {
            allocated_bytes,
            logical_bytes: facts.len,
            measurement_method: method,
            identity,
            deduped,
        }
    }
}

/// The size a file counts with under a measurement mode: its length when only
/// logical sizes are measured, else its allocated size.
pub open spec fn mode_size_spec(facts: FileFacts, mode: SizeMeasurementMode) -> (u64, MeasurementMethod) {
    match mode {
        SizeMeasurementMode::LogicalOnly => (facts.len, MeasurementMethod::LogicalFallback),
        SizeMeasurementMode::LogicalAndAllocated => allocated_size_spec(facts),
    }
}

/// The size of a file under a measurement mode, and how it was obtained.
pub fn mode_size(facts: &FileFacts, mode: SizeMeasurementMode) -> (r: (u64, MeasurementMethod))
    ensures
        r == mode_size_spec(*facts, mode),
{
    match mode {
        SizeMeasurementMode::LogicalOnly => (facts.len, MeasurementMethod::LogicalFallback),
        SizeMeasurementMode::LogicalAndAllocated => platform_allocated_size(facts),
    }
}

/// Measures a file under a measurement mode, without counting hard links: the
/// file's identity is reported but not remembered.
pub fn measure_file_without_dedupe(facts: &FileFacts, mode: SizeMeasurementMode) -> (r: SizeMeasurement)
    ensures
        (r.allocated_bytes, r.measurement_method) == mode_size_spec(*facts, mode),
        r.logical_bytes == facts.len,
        !r.deduped,
        match r.identity {
            Some(id) => hard_link_key(*facts) == Some(id@),
            None => hard_link_key(*facts) is None,
        },
{
    let (allocated_bytes, measurement_method) = mode_size(facts, mode);
    SizeMeasurement {
        allocated_bytes,
        logical_bytes: facts.len,
        measurement_method,
        identity: hard_link_identity(facts),
        deduped: false,
    }
}

/// What measuring a file under a measurement mode gives, with the identities
/// already counted: its allocated bytes, whether it was deduplicated, and the
/// identities counted after it. With deduplication, content counted before
/// through another link adds no bytes (`measure_spec`); without it, every file
/// adds its size under the mode and nothing is remembered.
pub open spec fn policy_measure(
    seen: Set<IdentityKey>,
    facts: FileFacts,
    dedupe_hard_links: bool,
    mode: SizeMeasurementMode,
) -> (u64, bool, Set<IdentityKey>) {
    if dedupe_hard_links {
        let (_, _, deduped, after) = measure_spec(seen, facts);
        (if deduped { 0 } else { mode_size_spec(facts, mode).0 }, deduped, after)
    } else {
        (mode_size_spec(facts, mode).0, false, seen)
    }
}

impl HardLinkDedupe {
    /// Measures a file under a measurement mode. When hard links are
    /// deduplicated, content counted before through another link contributes
    /// no bytes and the file's identity is remembered, as `measure_file` does;
    /// otherwise nothing is remembered and nothing is deduplicated.
    pub fn measure_file_with_policy(
        &mut self,
        facts: &FileFacts,
        dedupe_hard_links: bool,
        mode: SizeMeasurementMode,
    ) -> (r: SizeMeasurement)
        requires
            old(self).wf(),
        ensures
            final(self).wf(),
            r.logical_bytes == facts.len,
            r.measurement_method == mode_size_spec(*facts, mode).1,
            match r.identity {
                Some(id) => hard_link_key(*facts) == Some(id@),
                None => hard_link_key(*facts) is None,
            },
            (r.allocated_bytes, r.deduped, final(self).seen_set()) == policy_measure(
                old(self).seen_set(),
                *facts,
                dedupe_hard_links,
                mode,
            ),
    {
        if !dedupe_hard_links {
            return measure_file_without_dedupe(facts, mode);
        }
        let counted = self.measure_file(facts);
        let (size, method) = mode_size(facts, mode);
        SizeMeasurement {
            allocated_bytes: if counted.deduped {
                0
            } else {
                size
            },
            logical_bytes: facts.len,
            measurement_method: method,
            identity: counted.identity,
            deduped: counted.deduped,
        }
    }
}

/// Hard-linked content is counted once: measuring the same hard-linked file a
/// second time gives no allocated bytes and marks the measurement deduplicated,
/// and the record of counted identities does not change.
pub proof fn hard_linked_content_counts_once(seen: Set<IdentityKey>, facts: FileFacts)
    requires
        facts.link_count matches Some(n) && n > 1,
    ensures
        ({
            let first = measure_spec(seen, facts);
            let second = measure_spec(first.3, facts);
            &&& second.0 == 0
            &&& second.2
            &&& second.3 == first.3
        }),
{
}

/// A file without other links is always counted with its full allocated size.
pub proof fn single_link_is_never_deduped(seen: Set<IdentityKey>, facts: FileFacts)
    requires
        !(facts.link_count matches Some(n) && n > 1),
    ensures
        measure_spec(seen, facts).0 == allocated_size_spec(facts).0,
        !measure_spec(seen, facts).2,
        measure_spec(seen, facts).3 == seen,
{
}

/// Two hard links to the same content, measured one after the other: with
/// deduplication the first counts its size and the second adds no bytes and
/// is marked deduplicated; without it each counts its own size, so where both
/// links report the same size the pair counts twice what deduplication counts.
pub proof fn hard_links_count_once_when_deduplicated(
    seen: Set<IdentityKey>,
    first: FileFacts,
    second: FileFacts,
    mode: SizeMeasurementMode,
)
    requires
        hard_link_key(first) is Some,
        hard_link_key(second) == hard_link_key(first),
        !seen.contains(hard_link_key(first)->0),
    ensures
        ({
            let on1 = policy_measure(seen, first, true, mode);
            let on2 = policy_measure(on1.2, second, true, mode);
            let off1 = policy_measure(seen, first, false, mode);
            let off2 = policy_measure(off1.2, second, false, mode);
            &&& on1.0 == mode_size_spec(first, mode).0 && !on1.1
            &&& on2.0 == 0 && on2.1
            &&& off1.0 == mode_size_spec(first, mode).0 && off2.0 == mode_size_spec(second, mode).0
            &&& !off1.1 && !off2.1
            &&& mode_size_spec(first, mode).0 == mode_size_spec(second, mode).0 ==> off1.0 + off2.0 == 2 * (
            on1.0 + on2.0)
        }),
{
}

} // verus!

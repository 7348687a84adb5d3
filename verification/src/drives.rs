//! Mounted drives: their sizes, and the list the system reports turned into the
//! drives offered for scanning.
use vstd::prelude::*;

use crate::lexical::{
    components, comps_lt, lemma_comps_lt_irreflexive, lemma_comps_lt_total,
    lemma_comps_lt_transitive, path_components, path_eq, path_eq_spec,
};
use crate::text::{chars_of, push_str};

verus! {

/// A mounted drive.
#[derive(Debug, Clone)]
pub struct Drive {
    pub label: String,
    pub mount_point: String,
    pub total_space: u64,
    pub available_space: u64,
    pub file_system: String,
}

impl Drive {
    /// The bytes in use: total less available, zero when more is available
    /// than the total.
    pub fn used_space(&self) -> (r: u64)
        ensures
            r == self.total_space.saturating_sub(self.available_space),
    {
        self.total_space.saturating_sub(self.available_space)
    }
}

/// A drive with the canonical form of its mount point, when it resolves.
#[derive(Debug, Clone)]
pub struct MountedDrive {
    pub drive: Drive,
    pub canonical_mount: Option<String>,
}

/// A disk as the system reports it.
#[derive(Debug, Clone)]
pub struct DiskReport {
    pub name: String,
    pub mount_point: String,
    pub total_space: u64,
    pub available_space: u64,
    pub file_system: String,
}

/// A disk is offered at all: it has a size and a mount point.
pub open spec fn disk_kept(d: DiskReport) -> bool {
    d.total_space != 0 && d.mount_point@.len() != 0
}

/// The label of a drive: its mount point, preceded by the disk's name when it
/// has one, the mount point then in brackets.
pub open spec fn drive_label(name: Seq<char>, mount: Seq<char>) -> Seq<char> {
    if name.len() == 0 {
        mount
    } else {
        name + " ("@ + mount + ")"@
    }
}

/// The drive of a disk: its label, mount point, sizes and file system.
pub open spec fn drive_of(d: DiskReport, r: Drive) -> bool {
    &&& r.label@ == drive_label(d.name@, d.mount_point@)
    &&& r.mount_point@ == d.mount_point@
    &&& r.total_space == d.total_space
    &&& r.available_space == d.available_space
    &&& r.file_system@ == d.file_system@
}

/// Disk `i` is the first kept disk mounted at its mount point.
pub open spec fn first_of_mount(disks: Seq<DiskReport>, i: int) -> bool {
    &&& disk_kept(disks[i])
    &&& forall|j: int|
        0 <= j < i ==> !(disk_kept(#[trigger] disks[j]) && path_eq_spec(
            disks[j].mount_point@,
            disks[i].mount_point@,
        ))
}

/// The volume group is collapsed: asked to, and a kept disk is mounted at the
/// data volume.
pub open spec fn collapses_root(disks: Seq<DiskReport>, collapse: bool) -> bool {
    collapse && exists|i: int|
        0 <= i < disks.len() && disk_kept(#[trigger] disks[i]) && path_eq_spec(
            disks[i].mount_point@,
            data_volume_text(),
        )
}

/// Disk `i` is offered as a drive: the first kept disk of its mount point,
/// unless it is the root of a collapsed volume group.
pub open spec fn offered(disks: Seq<DiskReport>, collapse: bool, i: int) -> bool {
    first_of_mount(disks, i) && !(collapses_root(disks, collapse) && path_eq_spec(
        disks[i].mount_point@,
        root_text(),
    ))
}

/// The root's path.
pub open spec fn root_text() -> Seq<char> {
    seq!['/']
}

/// The path of the data volume of a volume group.
pub open spec fn data_volume_text() -> Seq<char> {
    "/System/Volumes/Data"@
}

fn root_path() -> (r: String)
    ensures
        r@ == root_text(),
{
    let r = "/".to_owned();
    proof {
        reveal_strlit("/");
    }
    r
}

fn data_volume_path() -> (r: String)
    ensures
        r@ == data_volume_text(),
{
    "/System/Volumes/Data".to_owned()
}

/// A drive is kept: the volume group is not collapsed, or it is not mounted
/// at the root.
pub open spec fn drive_kept(collapse: bool, d: Drive) -> bool {
    !(collapse && path_eq_spec(d.mount_point@, root_text()))
}

/// Mount points in strict path order.
pub open spec fn mounts_sorted(drives: Seq<Drive>) -> bool {
    forall|a: int, b: int|
        0 <= a < b < drives.len() ==> comps_lt(
            components((#[trigger] drives[a]).mount_point@),
            components((#[trigger] drives[b]).mount_point@),
        )
}

/// The same drive.
pub open spec fn same_drive(a: Drive, b: Drive) -> bool {
    a.label@ == b.label@ && a.mount_point@ == b.mount_point@ && a.total_space == b.total_space
        && a.available_space == b.available_space && a.file_system@ == b.file_system@
}

/// A copy of a drive.
pub fn copy_drive(d: &Drive) -> (r: Drive)
    ensures
        same_drive(r, *d),
{
    Drive {
        label: d.label.clone(),
        mount_point: d.mount_point.clone(),
        total_space: d.total_space,
        available_space: d.available_space,
        file_system: d.file_system.clone(),
    }
}

/// The drive of a disk.
pub fn drive_from_disk(d: &DiskReport) -> (r: Drive)
    ensures
        drive_of(*d, r),
{
    let label = if crate::text::chars_of(&d.name).len() == 0 {
        d.mount_point.clone()
    } else {
        let mut label = d.name.clone();
        push_str(&mut label, " (");
        push_str(&mut label, &d.mount_point);
        push_str(&mut label, ")");
        label
    };
    Drive {
        label,
        mount_point: d.mount_point.clone(),
        total_space: d.total_space,
        available_space: d.available_space,
        file_system: d.file_system.clone(),
    }
}

/// The drives of the disks, one per mount point, in strict mount-point order:
/// `src` says which disk each drive comes from (the first kept disk of its
/// mount point) and `dst` where each kept disk's mount point stands.
pub open spec fn drives_cover(disks: Seq<DiskReport>, v: Seq<Drive>, src: Seq<int>, dst: Seq<int>) -> bool {
    &&& mounts_sorted(v)
    &&& src.len() == v.len()
    &&& forall|k: int|
        0 <= k < v.len() ==> 0 <= #[trigger] src[k] < disks.len() && first_of_mount(disks, src[k])
            && drive_of(disks[src[k]], v[k])
    &&& dst.len() == disks.len()
    &&& forall|j: int|
        0 <= j < disks.len() && disk_kept(#[trigger] disks[j]) ==> 0 <= dst[j] < v.len() && path_eq_spec(
            v[dst[j]].mount_point@,
            disks[j].mount_point@,
        )
}

/// The drive of the first kept disk of each mount point, in mount-point order.
fn unique_sorted_drives(disks: &Vec<DiskReport>) -> (r: Vec<Drive>)
    ensures
        exists|src: Seq<int>, dst: Seq<int>| #[trigger] drives_cover(disks@, r@, src, dst),
{
    let mut v: Vec<Drive> = Vec::new();
    let ghost mut src: Seq<int> = seq![];
    let ghost mut dst: Seq<int> = seq![];
    let mut i: usize = 0;
    while i < disks.len()
        invariant
            i <= disks@.len(),
            mounts_sorted(v@),
            src.len() == v@.len(),
            forall|k: int|
                0 <= k < v@.len() ==> 0 <= #[trigger] src[k] < i && first_of_mount(disks@, src[k])
                    && drive_of(disks@[src[k]], v@[k]),
            dst.len() == i,
            forall|j: int|
                0 <= j < i && disk_kept(#[trigger] disks@[j]) ==> 0 <= dst[j] < v@.len() && path_eq_spec(
                    v@[dst[j]].mount_point@,
                    disks@[j].mount_point@,
                ),
        decreases disks.len() - i,
    {
        let d = &disks[i];
        if d.total_space != 0 && chars_of(&d.mount_point).len() != 0 {
            let mc = path_components(&d.mount_point);
            let mut p: usize = 0;
            while p < v.len() && crate::lexical::components_less(
                &path_components(&v[p].mount_point),
                &mc,
            )
                invariant
                    p <= v@.len(),
                    crate::lexical::comps_view(mc@) == components(d.mount_point@),
                    forall|k: int|
                        0 <= k < p ==> comps_lt(
                            components((#[trigger] v@[k]).mount_point@),
                            components(d.mount_point@),
                        ),
                decreases v.len() - p,
            {
                p = p + 1;
            }
            let duplicate = p < v.len() && path_eq(&v[p].mount_point, &d.mount_point);
            if duplicate {
                proof {
                    dst = dst.push(p as int);
                }
            } else {
                let ghost before = v@;
                let ghost old_src = src;
                let ghost old_dst = dst;
                let ghost dm = components(d.mount_point@);
                proof {
                    if (p as int) < before.len() {
                        lemma_comps_lt_total(components(before[p as int].mount_point@), dm);
                    }
                    assert forall|k: int| 0 <= k < before.len() implies components(
                        (#[trigger] before[k]).mount_point@,
                    ) != dm by {
                        if k < p {
                            lemma_comps_lt_irreflexive(dm);
                        } else {
                            if k > p {
                                lemma_comps_lt_transitive(
                                    dm,
                                    components(before[p as int].mount_point@),
                                    components(before[k].mount_point@),
                                );
                            }
                            lemma_comps_lt_irreflexive(dm);
                        }
                    }
                }
                let drive = drive_from_disk(d);
                v.insert(p, drive);
                proof {
                    before.insert_ensures(p as int, v@[p as int]);
                    old_src.insert_ensures(p as int, i as int);
                    src = old_src.insert(p as int, i as int);
                    dst = Seq::new(
                        (i + 1) as nat,
                        |j: int|
                            if j == i {
                                p as int
                            } else if old_dst[j] >= p {
                                old_dst[j] + 1
                            } else {
                                old_dst[j]
                            },
                    );
                    assert(first_of_mount(disks@, i as int)) by {
                        assert forall|j: int|
                            0 <= j < i implies !(disk_kept(#[trigger] disks@[j]) && path_eq_spec(
                                disks@[j].mount_point@,
                                disks@[i as int].mount_point@,
                            )) by {
                            if disk_kept(disks@[j]) {
                                assert(path_eq_spec(
                                    before[old_dst[j]].mount_point@,
                                    disks@[j].mount_point@,
                                ));
                            }
                        }
                    }
                    assert(mounts_sorted(v@)) by {
                        assert forall|a: int, b: int| 0 <= a < b < v@.len() implies comps_lt(
                            components((#[trigger] v@[a]).mount_point@),
                            components((#[trigger] v@[b]).mount_point@),
                        ) by {
                            if b < p {
                                assert(v@[a] == before[a] && v@[b] == before[b]);
                            } else if b == p {
                                assert(v@[a] == before[a]);
                            } else if a < p {
                                assert(v@[a] == before[a] && v@[b] == before[b - 1]);
                            } else if a == p {
                                assert(v@[b] == before[b - 1]);
                                assert(components(before[p as int].mount_point@) != dm);
                                if b - 1 > p {
                                    lemma_comps_lt_transitive(
                                        dm,
                                        components(before[p as int].mount_point@),
                                        components(before[b - 1].mount_point@),
                                    );
                                }
                            } else {
                                assert(v@[a] == before[a - 1] && v@[b] == before[b - 1]);
                            }
                        }
                    }
                    assert forall|k: int|
                        0 <= k < v@.len() implies 0 <= #[trigger] src[k] < i + 1 && first_of_mount(
                        disks@,
                        src[k],
                    ) && drive_of(disks@[src[k]], v@[k]) by {
                        if k > p {
                            assert(src[k] == old_src[k - 1] && v@[k] == before[k - 1]);
                        } else if k < p {
                            assert(src[k] == old_src[k] && v@[k] == before[k]);
                        }
                    }
                    assert forall|j: int|
                        0 <= j < i + 1 && disk_kept(#[trigger] disks@[j]) implies 0 <= dst[j] < v@.len()
                        && path_eq_spec(v@[dst[j]].mount_point@, disks@[j].mount_point@) by {
                        if j < i {
                            if old_dst[j] >= p {
                                assert(v@[old_dst[j] + 1] == before[old_dst[j]]);
                            } else {
                                assert(v@[old_dst[j]] == before[old_dst[j]]);
                            }
                        }
                    }
                }
            }
        } else {
            proof {
                dst = dst.push(0);
            }
        }
        i = i + 1;
    }
    proof {
        assert(drives_cover(disks@, v@, src, dst));
    }
    v
}

/// `w` is `v` without the drives mounted at the root when `collapse`:
/// `keep` says where each kept drive came from, in order, and `pos` where each
/// kept drive went.
pub open spec fn dropped_cover(v: Seq<Drive>, w: Seq<Drive>, keep: Seq<int>, pos: Seq<int>, collapse: bool) -> bool {
    &&& w.len() == keep.len()
    &&& forall|a: int| 0 <= a < w.len() ==> 0 <= #[trigger] keep[a] < v.len() && same_drive(w[a], v[keep[a]])
    &&& forall|a: int, b: int| 0 <= a < b < keep.len() ==> #[trigger] keep[a] < #[trigger] keep[b]
    &&& pos.len() == v.len()
    &&& forall|q: int|
        0 <= q < v.len() && #[trigger] drive_kept(collapse, v[q]) ==> 0
            <= pos[q] < w.len() && same_drive(w[pos[q]], v[q])
    &&& forall|a: int|
        0 <= a < w.len() ==> drive_kept(collapse, #[trigger] w[a])
}

/// The drives without those mounted at the root, when `collapse`.
fn drop_collapsed_root(v: &Vec<Drive>, collapse: bool) -> (w: Vec<Drive>)
    ensures
        exists|keep: Seq<int>, pos: Seq<int>| #[trigger] dropped_cover(v@, w@, keep, pos, collapse),
{
    let ghost vs = v@;
    let mut w: Vec<Drive> = Vec::new();
    let ghost mut keep: Seq<int> = seq![];
    let ghost mut pos: Seq<int> = seq![];
    let mut m: usize = 0;
    while m < v.len()
        invariant
            vs == v@,
            m <= vs.len(),
            w@.len() == keep.len(),
            forall|a: int| 0 <= a < w@.len() ==> 0 <= #[trigger] keep[a] < m && same_drive(w@[a], vs[keep[a]]),
            forall|a: int, b: int| 0 <= a < b < keep.len() ==> #[trigger] keep[a] < #[trigger] keep[b],
            pos.len() == m,
            forall|q: int|
                0 <= q < m && #[trigger] drive_kept(collapse, vs[q])
                    ==> 0 <= pos[q] < w@.len() && same_drive(w@[pos[q]], vs[q]),
            forall|a: int|
                0 <= a < w@.len() ==> drive_kept(collapse, #[trigger] w@[a]),
        decreases vs.len() - m,
    {
        let dropped = collapse && path_eq(&v[m as usize].mount_point, &root_path());
        let ghost old_pos = pos;
        let ghost old_keep = keep;
        if !dropped {
            let ghost before = w@;
            w.push(copy_drive(&v[m]));
            proof {
                keep = keep.push(m as int);
                pos = pos.push(before.len() as int);
                assert forall|a: int| 0 <= a < w@.len() implies 0 <= #[trigger] keep[a] < m + 1
                    && same_drive(w@[a], vs[keep[a]]) by {
                    if a < before.len() {
                        assert(w@[a] == before[a] && keep[a] == old_keep[a]);
                    }
                }
                assert forall|q: int|
                    0 <= q < m + 1 && #[trigger] drive_kept(collapse, vs[q])
                        implies 0 <= pos[q] < w@.len() && same_drive(w@[pos[q]], vs[q]) by {
                    if q < m {
                        assert(vs[q] == v@[q]);
                        assert(pos[q] == old_pos[q]);
                        assert(0 <= old_pos[q] < before.len());
                        assert(w@ == before.push(w@[before.len() as int]));
                        assert(w@[old_pos[q]] == before[old_pos[q]]);
                    }
                }
                assert forall|a: int|
                    0 <= a < w@.len() implies drive_kept(collapse, #[trigger] w@[a]) by {
                    if a < before.len() {
                        assert(w@[a] == before[a]);
                    }
                }
            }
        } else {
            proof {
                pos = pos.push(0);
                assert forall|q: int|
                    0 <= q < m + 1 && #[trigger] drive_kept(collapse, vs[q])
                        implies 0 <= pos[q] < w@.len() && same_drive(w@[pos[q]], vs[q]) by {
                    if q < m {
                        assert(vs[q] == v@[q]);
                        assert(pos[q] == old_pos[q]);
                    }
                }
            }
        }
        m = m + 1;
    }
    proof {
        assert(dropped_cover(vs, w@, keep, pos, collapse));
    }
    w
}

/// `v` are the drives offered from `disks`: in strict mount-point order, each
/// the drive of an offered disk, and each offered disk's mount point among them.
pub open spec fn offered_drives(disks: Seq<DiskReport>, collapse: bool, v: Seq<Drive>) -> bool {
    &&& mounts_sorted(v)
    &&& forall|k: int|
        0 <= k < v.len() ==> exists|i: int|
            0 <= i < disks.len() && offered(disks, collapse, i) && drive_of(disks[i], #[trigger] v[k])
    &&& forall|i: int|
        0 <= i < disks.len() && offered(disks, collapse, i) ==> exists|k: int|
            0 <= k < v.len() && path_eq_spec((#[trigger] v[k]).mount_point@, disks[i].mount_point@)
}

/// The drives offered for scanning from the disks the system reports: the
/// first kept disk of each mount point, without the root of a collapsed volume
/// group, in mount-point order. Nothing when no drive is left.
#[verifier::rlimit(40)]
pub fn drives_from_disks(disks: &Vec<DiskReport>, collapse_volume_group: bool) -> (r: Option<
    Vec<Drive>,
>)
    ensures
        r is None <==> forall|i: int| 0 <= i < disks@.len() ==> !offered(disks@, collapse_volume_group, i),
        r matches Some(v) ==> offered_drives(disks@, collapse_volume_group, v@),
{
    let v = unique_sorted_drives(disks);
    let ghost (src, dst) = choose|src: Seq<int>, dst: Seq<int>| drives_cover(disks@, v@, src, dst);
    let mut collapse = false;
    if collapse_volume_group {
        let mut k: usize = 0;
        while k < v.len()
            invariant
                k <= v@.len(),
                !collapse ==> forall|m: int|
                    0 <= m < k ==> !path_eq_spec(
                        (#[trigger] v@[m]).mount_point@,
                        data_volume_text(),
                    ),
                collapse ==> exists|m: int|
                    0 <= m < v@.len() && path_eq_spec(
                        (#[trigger] v@[m]).mount_point@,
                        data_volume_text(),
                    ),
            decreases v.len() - k,
        {
            if path_eq(&v[k].mount_point, &data_volume_path()) {
                collapse = true;
            }
            k = k + 1;
        }
    }
    proof {
        if collapse {
            let m = choose|m: int|
                0 <= m < v@.len() && path_eq_spec(
                    (#[trigger] v@[m]).mount_point@,
                    data_volume_text(),
                );
            assert(disk_kept(disks@[src[m]]));
            assert(collapses_root(disks@, collapse_volume_group));
        }
        if collapses_root(disks@, collapse_volume_group) {
            let j = choose|j: int|
                0 <= j < disks@.len() && disk_kept(#[trigger] disks@[j]) && path_eq_spec(
                    disks@[j].mount_point@,
                    data_volume_text(),
                );
            assert(path_eq_spec(v@[dst[j]].mount_point@, data_volume_text()));
        }
        assert(collapse == collapses_root(disks@, collapse_volume_group));
    }
    let w = drop_collapsed_root(&v, collapse);
    let ghost vs = v@;
    let ghost (keep, pos) = choose|keep: Seq<int>, pos: Seq<int>| dropped_cover(vs, w@, keep, pos, collapse);
    proof {
        assert(mounts_sorted(w@)) by {
            assert forall|a: int, b: int| 0 <= a < b < w@.len() implies comps_lt(
                components((#[trigger] w@[a]).mount_point@),
                components((#[trigger] w@[b]).mount_point@),
            ) by {
                assert(keep[a] < keep[b]);
                assert(same_drive(w@[a], vs[keep[a]]) && same_drive(w@[b], vs[keep[b]]));
            }
        }
        assert forall|k: int| 0 <= k < w@.len() implies exists|i: int|
            0 <= i < disks@.len() && offered(disks@, collapse_volume_group, i) && drive_of(
                disks@[i],
                #[trigger] w@[k],
            ) by {
            let i = src[keep[k]];
            assert(same_drive(w@[k], vs[keep[k]]));
            assert(drive_kept(collapse, w@[k]));
            assert(first_of_mount(disks@, i) && drive_of(disks@[i], vs[keep[k]]));
            assert(offered(disks@, collapse_volume_group, i));
        }
        assert forall|i: int|
            0 <= i < disks@.len() && offered(disks@, collapse_volume_group, i) implies exists|k: int|
            0 <= k < w@.len() && path_eq_spec(
                (#[trigger] w@[k]).mount_point@,
                disks@[i].mount_point@,
            ) by {
            let m = dst[i];
            assert(path_eq_spec(vs[m].mount_point@, disks@[i].mount_point@));
            assert(drive_kept(collapse, vs[m]));
            assert(same_drive(w@[pos[m]], vs[m]));
            assert(path_eq_spec(w@[pos[m]].mount_point@, disks@[i].mount_point@));
        }
    }
    if w.len() == 0 {
        proof {
            assert forall|i: int| 0 <= i < disks@.len() implies !offered(disks@, collapse_volume_group, i) by {
                if offered(disks@, collapse_volume_group, i) {
                    let m = dst[i];
                    assert(path_eq_spec(vs[m].mount_point@, disks@[i].mount_point@));
                    assert(drive_kept(collapse, vs[m]));
                    assert(0 <= pos[m] < w@.len());
                }
            }
        }
        return None;
    }
    proof {
        let i = src[keep[0]];
        assert(same_drive(w@[0], vs[keep[0]]));
        assert(drive_kept(collapse, w@[0]));
        assert(offered(disks@, collapse_volume_group, i));
        assert(offered_drives(disks@, collapse_volume_group, w@));
    }
    Some(w)
}

} // verus!

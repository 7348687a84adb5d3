//! The results browser of the terminal front end: the measured size of each
//! directory, how a partial rescan is folded into a finished scan, and the
//! rows shown for the directory being browsed.
use vstd::prelude::*;

use crate::lexical::{
    comps_prefix, comps_view, components, components_equal, components_less, components_prefix,
    copy_component, lemma_comps_lt_irreflexive, lemma_comps_lt_total, lemma_comps_lt_transitive,
    path_components, path_eq, path_eq_spec, path_lt, Comp, PathComponent,
};
use crate::categories::{collect_categories, usages_sorted, CategoryUsage, FileKind};
use crate::drives::Drive;
use crate::live::sat_sub;

verus! {

/// One measured directory: its path, by components, and its size.
pub struct DirSize {
    pub comps: Vec<PathComponent>,
    pub size: u64,
}

/// The path of a measured directory.
pub open spec fn dir_key(d: DirSize) -> Seq<Comp> {
    comps_view(d.comps@)
}

/// The sizes a list holds, by path (a later entry for a path wins).
pub open spec fn sizes_of(s: Seq<DirSize>) -> Map<Seq<Comp>, u64>
    decreases s.len(),
{
    if s.len() == 0 {
        Map::empty()
    } else {
        sizes_of(s.drop_last()).insert(dir_key(s.last()), s.last().size)
    }
}

/// No path occurs twice.
pub open spec fn keys_unique(s: Seq<DirSize>) -> bool {
    forall|i: int, j: int| #![trigger s[i], s[j]] 0 <= i < j < s.len() ==> dir_key(s[i]) != dir_key(s[j])
}

proof fn lemma_sizes_keys(s: Seq<DirSize>)
    ensures
        forall|i: int| 0 <= i < s.len() ==> sizes_of(s).contains_key(#[trigger] dir_key(s[i])),
        forall|p: Seq<Comp>|
            sizes_of(s).contains_key(p) ==> exists|i: int| 0 <= i < s.len() && #[trigger] dir_key(s[i]) == p,
    decreases s.len(),
{
    if s.len() > 0 {
        let t = s.drop_last();
        lemma_sizes_keys(t);
        assert forall|i: int| 0 <= i < s.len() implies sizes_of(s).contains_key(#[trigger] dir_key(s[i])) by {
            if i < s.len() - 1 {
                assert(s[i] == t[i]);
            }
        }
        assert forall|p: Seq<Comp>| sizes_of(s).contains_key(p) implies exists|i: int|
            0 <= i < s.len() && #[trigger] dir_key(s[i]) == p by {
            if p == dir_key(s.last()) {
                assert(dir_key(s[s.len() - 1]) == p);
            } else {
                assert(sizes_of(t).contains_key(p));
                let i = choose|i: int| 0 <= i < t.len() && #[trigger] dir_key(t[i]) == p;
                assert(s[i] == t[i]);
            }
        }
    }
}

proof fn lemma_sizes_unique_prefix(s: Seq<DirSize>, k: int)
    requires
        keys_unique(s),
        0 <= k <= s.len(),
    ensures
        keys_unique(s.take(k)),
{
    let t = s.take(k);
    assert forall|a: int, b: int| 0 <= a < b < t.len() implies dir_key(#[trigger] t[a]) != dir_key(#[trigger] t[b]) by {
        assert(t[a] == s[a] && t[b] == s[b]);
    }
}

proof fn lemma_sizes_value(s: Seq<DirSize>, i: int)
    requires
        keys_unique(s),
        0 <= i < s.len(),
    ensures
        sizes_of(s).contains_key(dir_key(s[i])),
        sizes_of(s)[dir_key(s[i])] == s[i].size,
    decreases s.len(),
{
    if i < s.len() - 1 {
        let t = s.drop_last();
        assert(t[i] == s[i]);
        lemma_sizes_unique_prefix(s, s.len() - 1);
        assert(t =~= s.take(s.len() - 1));
        lemma_sizes_value(t, i);
        assert(dir_key(s[i]) != dir_key(s[s.len() - 1]));
    }
}

proof fn lemma_sizes_update(s: Seq<DirSize>, i: int, e: DirSize)
    requires
        keys_unique(s),
        0 <= i < s.len(),
        dir_key(e) == dir_key(s[i]),
    ensures
        keys_unique(s.update(i, e)),
        sizes_of(s.update(i, e)) == sizes_of(s).insert(dir_key(e), e.size),
    decreases s.len(),
{
    let u = s.update(i, e);
    assert forall|a: int, b: int| 0 <= a < b < u.len() implies dir_key(#[trigger] u[a]) != dir_key(#[trigger] u[b]) by {
        assert(dir_key(u[a]) == dir_key(s[a]) && dir_key(u[b]) == dir_key(s[b]));
    }
    let t = s.drop_last();
    if i == s.len() - 1 {
        assert(u.drop_last() =~= t);
        assert(sizes_of(u) =~= sizes_of(s).insert(dir_key(e), e.size));
    } else {
        lemma_sizes_unique_prefix(s, s.len() - 1);
        assert(t =~= s.take(s.len() - 1));
        lemma_sizes_update(t, i, e);
        assert(u.drop_last() =~= t.update(i, e));
        assert(dir_key(s[i]) != dir_key(s[s.len() - 1]));
        assert(sizes_of(u) =~= sizes_of(s).insert(dir_key(e), e.size));
    }
}

proof fn lemma_sizes_absent(s: Seq<DirSize>, p: Seq<Comp>)
    requires
        forall|i: int| 0 <= i < s.len() ==> dir_key(#[trigger] s[i]) != p,
    ensures
        !sizes_of(s).contains_key(p),
{
    lemma_sizes_keys(s);
    if sizes_of(s).contains_key(p) {
        let i = choose|i: int| 0 <= i < s.len() && #[trigger] dir_key(s[i]) == p;
        assert(dir_key(s[i]) != p);
    }
}

proof fn lemma_sizes_same(a: Seq<DirSize>, b: Seq<DirSize>)
    requires
        a.len() == b.len(),
        forall|i: int| 0 <= i < a.len() ==> dir_key(#[trigger] a[i]) == dir_key(b[i]) && a[i].size == b[i].size,
    ensures
        sizes_of(a) == sizes_of(b),
    decreases a.len(),
{
    if a.len() > 0 {
        assert forall|i: int| 0 <= i < a.len() - 1 implies dir_key(#[trigger] a.drop_last()[i]) == dir_key(
            b.drop_last()[i],
        ) && a.drop_last()[i].size == b.drop_last()[i].size by {
            assert(a.drop_last()[i] == a[i] && b.drop_last()[i] == b[i]);
        }
        lemma_sizes_same(a.drop_last(), b.drop_last());
        assert(dir_key(a[a.len() - 1]) == dir_key(b[b.len() - 1]));
    }
}

/// A copy of a path's components.
pub fn copy_components(v: &Vec<PathComponent>) -> (r: Vec<PathComponent>)
    ensures
        comps_view(r@) == comps_view(v@),
{
    let mut r: Vec<PathComponent> = Vec::new();
    let mut i: usize = 0;
    while i < v.len()
        invariant
            i <= v.len(),
            r@.len() == i,
            forall|k: int| 0 <= k < i ==> (#[trigger] r@[k])@ == v@[k]@,
        decreases v.len() - i,
    {
        r.push(copy_component(&v[i]));
        i = i + 1;
    }
    assert(comps_view(r@) =~= comps_view(v@));
    r
}

fn find_dir(v: &Vec<DirSize>, comps: &Vec<PathComponent>) -> (r: Option<usize>)
    ensures
        match r {
            Some(i) => i < v.len() && dir_key(v@[i as int]) == comps_view(comps@),
            None => forall|i: int| 0 <= i < v.len() ==> dir_key(#[trigger] v@[i]) != comps_view(comps@),
        },
{
    let mut i: usize = 0;
    while i < v.len()
        invariant
            i <= v.len(),
            forall|k: int| 0 <= k < i ==> dir_key(#[trigger] v@[k]) != comps_view(comps@),
        decreases v.len() - i,
    {
        if components_equal(&v[i].comps, comps) {
            return Some(i);
        }
        i = i + 1;
    }
    None
}

fn lookup_size(v: &Vec<DirSize>, comps: &Vec<PathComponent>) -> (r: Option<u64>)
    requires
        keys_unique(v@),
    ensures
        match r {
            Some(x) => sizes_of(v@).contains_key(comps_view(comps@)) && sizes_of(v@)[comps_view(comps@)] == x,
            None => !sizes_of(v@).contains_key(comps_view(comps@)),
        },
{
    match find_dir(v, comps) {
        Some(i) => {
            proof {
                lemma_sizes_value(v@, i as int);
            }
            Some(v[i].size)
        },
        None => {
            proof {
                lemma_sizes_absent(v@, comps_view(comps@));
            }
            None
        },
    }
}

fn set_size(v: &mut Vec<DirSize>, comps: Vec<PathComponent>, size: u64)
    requires
        keys_unique(old(v)@),
    ensures
        keys_unique(final(v)@),
        sizes_of(final(v)@) == sizes_of(old(v)@).insert(comps_view(comps@), size),
{
    let found = find_dir(v, &comps);
    let e = DirSize { comps, size };
    match found {
        Some(i) => {
            proof {
                lemma_sizes_update(v@, i as int, e);
            }
            v.set(i, e);
        },
        None => {
            let ghost before = v@;
            v.push(e);
            proof {
                assert(v@.drop_last() =~= before);
                assert forall|a: int, b: int| 0 <= a < b < v@.len() implies dir_key(#[trigger] v@[a])
                    != dir_key(#[trigger] v@[b]) by {
                    if b == v@.len() - 1 {
                        assert(v@[a] == before[a]);
                    } else {
                        assert(v@[a] == before[a] && v@[b] == before[b]);
                    }
                }
            }
        },
    }
}

/// The measured size of every directory of a scan, by path (paths that std
/// deems equal share one entry).
pub struct DirectorySizes {
    entries: Vec<DirSize>,
}

/// `v + delta`, held between zero and `u64::MAX`.
pub open spec fn clamp_add(v: u64, delta: int) -> u64 {
    if v + delta < 0 {
        0
    } else if v + delta > u64::MAX {
        u64::MAX
    } else {
        (v + delta) as u64
    }
}

/// `q` is a directory whose size follows a rescan of `target`: one of the
/// directories that std's `Path::parent` reaches from `target` (each proper
/// prefix of its components, down to the root or the empty path), lying
/// under `root`.
pub open spec fn rescan_ancestor(q: Seq<Comp>, target: Seq<Comp>, root: Seq<Comp>) -> bool {
    &&& q.len() < target.len()
    &&& target.take(q.len() as int) == q
    &&& (q.len() == 0 ==> target[0] != Comp::RootDir)
    &&& comps_prefix(root, q)
}

/// The sizes kept after a rescan of `target`: those of `fresh`, and the old
/// ones of directories that do not lie under `target`.
pub open spec fn kept_after_rescan(
    old: Map<Seq<Comp>, u64>,
    fresh: Map<Seq<Comp>, u64>,
    target: Seq<Comp>,
) -> Map<Seq<Comp>, u64> {
    Map::new(
        |q: Seq<Comp>| fresh.contains_key(q) || (old.contains_key(q) && !comps_prefix(target, q)),
        |q: Seq<Comp>|
            if fresh.contains_key(q) {
                fresh[q]
            } else {
                old[q]
            },
    )
}

/// The size of `q` in `m`, zero where it has none.
pub open spec fn size_or_zero(m: Map<Seq<Comp>, u64>, q: Seq<Comp>) -> u64 {
    if m.contains_key(q) {
        m[q]
    } else {
        0
    }
}

/// The sizes after a rescan of `target` under `root` that changed the
/// target's size by `delta`: the kept sizes (`kept_after_rescan`), with the
/// size of every directory above the target (`rescan_ancestor`) moved by
/// `delta` (`clamp_add`, from zero where it had none).
pub open spec fn rescanned_sizes(
    old: Map<Seq<Comp>, u64>,
    fresh: Map<Seq<Comp>, u64>,
    target: Seq<Comp>,
    root: Seq<Comp>,
    delta: int,
) -> Map<Seq<Comp>, u64> {
    let base = kept_after_rescan(old, fresh, target);
    Map::new(
        |q: Seq<Comp>| base.contains_key(q) || rescan_ancestor(q, target, root),
        |q: Seq<Comp>|
            if rescan_ancestor(q, target, root) {
                clamp_add(size_or_zero(base, q), delta)
            } else {
                base[q]
            },
    )
}

fn clamp_add_exec(v: u64, delta: i128) -> (r: u64)
    requires
        -(u64::MAX as int) <= delta <= u64::MAX,
    ensures
        r == clamp_add(v, delta as int),
{
    let sum: i128 = v as i128 + delta;
    if sum < 0 {
        0
    } else if sum > u64::MAX as i128 {
        u64::MAX
    } else {
        sum as u64
    }
}

impl View for DirectorySizes {
    type V = Map<Seq<Comp>, u64>;

    closed spec fn view(&self) -> Map<Seq<Comp>, u64> {
        sizes_of(self.entries@)
    }
}

impl DirectorySizes {
    /// Every directory has one entry: kept by every operation, so it holds
    /// of every value.
    #[verifier::type_invariant]
    spec fn one_entry_each(&self) -> bool {
        keys_unique(self.entries@)
    }

    /// Every directory has one entry.
    pub closed spec fn wf(&self) -> bool {
        keys_unique(self.entries@)
    }

    /// Records `size` for the directory with components `comps`, replacing
    /// what was recorded for it.
    fn set(&mut self, comps: Vec<PathComponent>, size: u64)
        ensures
            final(self).wf(),
            final(self)@ == old(self)@.insert(comps_view(comps@), size),
    {
        proof {
            use_type_invariant(&*self);
        }
        let mut entries: Vec<DirSize> = Vec::new();
        std::mem::swap(&mut entries, &mut self.entries);
        set_size(&mut entries, comps, size);
        self.entries = entries;
    }

    /// No directory measured yet.
    pub fn new() -> (r: Self)
        ensures
            r.wf(),
            r@ == Map::<Seq<Comp>, u64>::empty(),
    {
        DirectorySizes { entries: Vec::new() }
    }

    /// Records `size` for `path`, replacing what was recorded for it.
    pub fn insert(&mut self, path: &str, size: u64)
        ensures
            final(self).wf(),
            final(self)@ == old(self)@.insert(components(path@), size),
    {
        proof {
            use_type_invariant(&*self);
        }
        let comps = path_components(path);
        self.set(comps, size);
    }

    /// The size recorded for `path`.
    pub fn get(&self, path: &str) -> (r: Option<u64>)
        ensures
            match r {
                Some(x) => self@.contains_key(components(path@)) && self@[components(path@)] == x,
                None => !self@.contains_key(components(path@)),
            },
    {
        proof {
            use_type_invariant(self);
        }
        let comps = path_components(path);
        lookup_size(&self.entries, &comps)
    }

    /// The size recorded for `path`, zero where none is.
    pub fn size_of(&self, path: &str) -> (r: u64)
        ensures
            r == size_or_zero(self@, components(path@)),
    {
        proof {
            use_type_invariant(self);
        }
        match self.get(path) {
            Some(x) => x,
            None => 0,
        }
    }

    /// A copy of these sizes.
    pub fn copy(&self) -> (r: Self)
        ensures
            r.wf(),
            r@ == self@,
    {
        proof {
            use_type_invariant(self);
        }
        let mut entries: Vec<DirSize> = Vec::new();
        let mut k: usize = 0;
        while k < self.entries.len()
            invariant
                k <= self.entries.len(),
                keys_unique(self.entries@),
                entries@.len() == k,
                forall|i: int| 0 <= i < k ==> dir_key(#[trigger] entries@[i]) == dir_key(self.entries@[i])
                    && entries@[i].size == self.entries@[i].size,
            decreases self.entries.len() - k,
        {
            entries.push(DirSize { comps: copy_components(&self.entries[k].comps), size: self.entries[k].size });
            k = k + 1;
        }
        proof {
            assert forall|a: int, b: int| 0 <= a < b < entries@.len() implies dir_key(#[trigger] entries@[a])
                != dir_key(#[trigger] entries@[b]) by {
                assert(dir_key(self.entries@[a]) != dir_key(self.entries@[b]));
            }
            lemma_sizes_same(entries@, self.entries@);
        }
        DirectorySizes { entries }
    }

    /// Whether a size is recorded for the path with components `comps`.
    pub fn contains_components(&self, comps: &Vec<PathComponent>) -> (r: bool)
        ensures
            r == self@.contains_key(comps_view(comps@)),
    {
        proof {
            use_type_invariant(self);
        }
        lookup_size(&self.entries, comps).is_some()
    }

    /// The size recorded for the path with components `comps`, zero where
    /// none is.
    pub fn size_at(&self, comps: &Vec<PathComponent>) -> (r: u64)
        ensures
            r == size_or_zero(self@, comps_view(comps@)),
    {
        proof {
            use_type_invariant(self);
        }
        match lookup_size(&self.entries, comps) {
            Some(x) => x,
            None => 0,
        }
    }

    /// Adds `size` to what is recorded for the path with components `comps`
    /// (from zero where nothing is).
    pub fn add_at(&mut self, comps: &Vec<PathComponent>, size: u64)
        requires
            size_or_zero(old(self)@, comps_view(comps@)) + size <= u64::MAX,
        ensures
            final(self).wf(),
            final(self)@ == old(self)@.insert(
                comps_view(comps@),
                (size_or_zero(old(self)@, comps_view(comps@)) + size) as u64,
            ),
    {
        proof {
            use_type_invariant(&*self);
        }
        let current = self.size_at(comps);
        self.set(copy_components(comps), current + size);
    }

    /// Records a size of zero for `path` where nothing is recorded for it.
    pub fn touch(&mut self, path: &str)
        ensures
            final(self).wf(),
            old(self)@.contains_key(components(path@)) ==> final(self)@ == old(self)@,
            !old(self)@.contains_key(components(path@)) ==> final(self)@ == old(self)@.insert(
                components(path@),
                0,
            ),
    {
        proof {
            use_type_invariant(&*self);
        }
        let comps = path_components(path);
        if !self.contains_components(&comps) {
            self.set(comps, 0);
        }
    }

    /// Folds a rescan of `target` (a directory under `root`) into these
    /// sizes: the old sizes under the target give way to the rescan's
    /// (`fresh`), and the directories above the target, up to `root`, move by
    /// the change of the target's size (`rescanned_sizes`). Returns the scan's
    /// total moved by the same change (`clamp_add`).
    pub fn merge_rescan(
        &mut self,
        root: &str,
        target: &str,
        fresh: &DirectorySizes,
        fresh_bytes: u64,
        bytes_scanned: u64,
    ) -> (r: u64)
        ensures
            final(self).wf(),
            final(self)@ == rescanned_sizes(
                old(self)@,
                fresh@,
                components(target@),
                components(root@),
                fresh_bytes - size_or_zero(old(self)@, components(target@)),
            ),
            r == clamp_add(
                bytes_scanned,
                fresh_bytes - size_or_zero(old(self)@, components(target@)),
            ),
    {
        proof {
            use_type_invariant(&*self);
            use_type_invariant(fresh);
        }
        let t = path_components(target);
        let rt = path_components(root);
        let ghost tv = comps_view(t@);
        let ghost rv = comps_view(rt@);
        let ghost old_map = sizes_of(self.entries@);
        let old_size = match lookup_size(&self.entries, &t) {
            Some(x) => x,
            None => 0,
        };
        let delta: i128 = fresh_bytes as i128 - old_size as i128;
        assert(delta == fresh_bytes - size_or_zero(old_map, tv));
        // Keep what does not lie under the target.
        let mut kept: Vec<DirSize> = Vec::new();
        let mut k: usize = 0;
        while k < self.entries.len()
            invariant
                k <= self.entries.len(),
                keys_unique(self.entries@),
                keys_unique(kept@),
                tv == comps_view(t@),
                sizes_of(kept@) == Map::new(
                    |q: Seq<Comp>| sizes_of(self.entries@.take(k as int)).contains_key(q) && !comps_prefix(tv, q),
                    |q: Seq<Comp>| sizes_of(self.entries@.take(k as int))[q],
                ),
            decreases self.entries.len() - k,
        {
            let ghost prev = sizes_of(self.entries@.take(k as int));
            proof {
                assert(self.entries@.take(k + 1).drop_last() =~= self.entries@.take(k as int));
            }
            if !components_prefix(&t, &self.entries[k].comps) {
                let comps = copy_components(&self.entries[k].comps);
                set_size(&mut kept, comps, self.entries[k].size);
            }
            proof {
                let ghost now = sizes_of(self.entries@.take(k + 1));
                assert(sizes_of(kept@) =~= Map::new(
                    |q: Seq<Comp>| now.contains_key(q) && !comps_prefix(tv, q),
                    |q: Seq<Comp>| now[q],
                ));
            }
            k = k + 1;
        }
        assert(self.entries@.take(self.entries.len() as int) =~= self.entries@);
        // Take what the rescan measured.
        let mut f: usize = 0;
        while f < fresh.entries.len()
            invariant
                f <= fresh.entries.len(),
                keys_unique(kept@),
                keys_unique(fresh.entries@),
                sizes_of(kept@) == Map::new(
                    |q: Seq<Comp>|
                        sizes_of(fresh.entries@.take(f as int)).contains_key(q) || (old_map.contains_key(q)
                            && !comps_prefix(tv, q)),
                    |q: Seq<Comp>|
                        if sizes_of(fresh.entries@.take(f as int)).contains_key(q) {
                            sizes_of(fresh.entries@.take(f as int))[q]
                        } else {
                            old_map[q]
                        },
                ),
            decreases fresh.entries.len() - f,
        {
            proof {
                assert(fresh.entries@.take(f + 1).drop_last() =~= fresh.entries@.take(f as int));
            }
            let comps = copy_components(&fresh.entries[f].comps);
            set_size(&mut kept, comps, fresh.entries[f].size);
            proof {
                let ghost now = sizes_of(fresh.entries@.take(f + 1));
                assert(sizes_of(kept@) =~= Map::new(
                    |q: Seq<Comp>| now.contains_key(q) || (old_map.contains_key(q) && !comps_prefix(tv, q)),
                    |q: Seq<Comp>|
                        if now.contains_key(q) {
                            now[q]
                        } else {
                            old_map[q]
                        },
                ));
            }
            f = f + 1;
        }
        assert(fresh.entries@.take(fresh.entries.len() as int) =~= fresh.entries@);
        let ghost base = kept_after_rescan(old_map, sizes_of(fresh.entries@), tv);
        assert(sizes_of(kept@) =~= base);
        // Move the directories above the target by the change.
        let n = t.len();
        let low: usize = if n > 0 && matches!(t[0], PathComponent::RootDir) {
            1
        } else {
            0
        };
        let mut a: usize = low;
        while a < n
            invariant
                low <= a <= n,
                n == t@.len(),
                -(u64::MAX as int) <= delta <= u64::MAX,
                tv == comps_view(t@),
                rv == comps_view(rt@),
                low == (if n > 0 && tv[0] == Comp::RootDir { 1int } else { 0int }),
                keys_unique(kept@),
                sizes_of(kept@) == Map::new(
                    |q: Seq<Comp>| base.contains_key(q) || (rescan_ancestor(q, tv, rv) && q.len() < a),
                    |q: Seq<Comp>|
                        if rescan_ancestor(q, tv, rv) && q.len() < a {
                            clamp_add(size_or_zero(base, q), delta as int)
                        } else {
                            base[q]
                        },
                ),
            decreases n - a,
        {
            let mut above: Vec<PathComponent> = Vec::new();
            let mut i: usize = 0;
            while i < a
                invariant
                    i <= a < n,
                    n == t@.len(),
                    above@.len() == i,
                    forall|j: int| 0 <= j < i ==> (#[trigger] above@[j])@ == t@[j]@,
                decreases a - i,
            {
                above.push(copy_component(&t[i]));
                i = i + 1;
            }
            let ghost q = comps_view(above@);
            assert(q =~= tv.take(a as int));
            if components_prefix(&rt, &above) {
                let ghost before = sizes_of(kept@);
                let current = match lookup_size(&kept, &above) {
                    Some(x) => x,
                    None => 0,
                };
                assert(rescan_ancestor(q, tv, rv));
                assert(current == size_or_zero(base, q));
                let moved = clamp_add_exec(current, delta);
                set_size(&mut kept, above, moved);
                proof {
                    assert(sizes_of(kept@) =~= Map::new(
                        |x: Seq<Comp>| base.contains_key(x) || (rescan_ancestor(x, tv, rv) && x.len() < a + 1),
                        |x: Seq<Comp>|
                            if rescan_ancestor(x, tv, rv) && x.len() < a + 1 {
                                clamp_add(size_or_zero(base, x), delta as int)
                            } else {
                                base[x]
                            },
                    ));
                }
            } else {
                proof {
                    assert(!rescan_ancestor(q, tv, rv));
                    assert(sizes_of(kept@) =~= Map::new(
                        |x: Seq<Comp>| base.contains_key(x) || (rescan_ancestor(x, tv, rv) && x.len() < a + 1),
                        |x: Seq<Comp>|
                            if rescan_ancestor(x, tv, rv) && x.len() < a + 1 {
                                clamp_add(size_or_zero(base, x), delta as int)
                            } else {
                                base[x]
                            },
                    ));
                }
            }
            a = a + 1;
        }
        proof {
            assert(sizes_of(kept@) =~= rescanned_sizes(old_map, sizes_of(fresh.entries@), tv, rv, delta as int));
        }
        self.entries = kept;
        clamp_add_exec(bytes_scanned, delta)
    }
}

/// A row of the results list: a directory and its measured size.
#[derive(Debug)]
pub struct SizedEntry {
    pub path: String,
    pub size: u64,
    pub is_dir: bool,
}

/// What a row shows: its path, size and whether it is a directory.
pub open spec fn row_view(e: SizedEntry) -> (Seq<char>, u64, bool) {
    (e.path@, e.size, e.is_dir)
}

/// Row `a` is listed before row `b`: it is larger, or as large with a path
/// that sorts first (std's `Path` order).
pub open spec fn row_precedes(a: (Seq<char>, u64, bool), b: (Seq<char>, u64, bool)) -> bool {
    a.1 > b.1 || (a.1 == b.1 && path_lt(a.0, b.0))
}

/// Two rows with the same size and the same path.
pub open spec fn row_same_key(a: (Seq<char>, u64, bool), b: (Seq<char>, u64, bool)) -> bool {
    a.1 == b.1 && components(a.0) == components(b.0)
}

/// `out` is `input` sorted by size, largest first, then by path, with rows of
/// the same size and path kept in their order: `idx` says where each row
/// came from.
pub open spec fn rows_sorted(input: Seq<(Seq<char>, u64, bool)>, out: Seq<SizedEntry>, idx: Seq<int>) -> bool {
    &&& out.len() == input.len()
    &&& idx.len() == out.len()
    &&& forall|k: int| 0 <= k < out.len() ==> 0 <= #[trigger] idx[k] < input.len() && row_view(out[k]) == input[idx[k]]
    &&& forall|a: int, b: int| 0 <= a < b < idx.len() ==> #[trigger] idx[a] != #[trigger] idx[b]
    &&& forall|a: int, b: int|
        0 <= a < b < out.len() ==> !row_precedes(row_view(#[trigger] out[b]), row_view(#[trigger] out[a]))
    &&& forall|a: int, b: int|
        0 <= a < b < out.len() && row_same_key(row_view(#[trigger] out[a]), row_view(#[trigger] out[b]))
            ==> idx[a] < idx[b]
}

proof fn lemma_row_precedes_transitive(a: (Seq<char>, u64, bool), b: (Seq<char>, u64, bool), c: (Seq<char>, u64, bool))
    requires
        row_precedes(a, b),
        row_precedes(b, c),
    ensures
        row_precedes(a, c),
{
    if a.1 == b.1 && b.1 == c.1 {
        lemma_comps_lt_transitive(components(a.0), components(b.0), components(c.0));
    }
}

proof fn lemma_row_precedes_total(a: (Seq<char>, u64, bool), b: (Seq<char>, u64, bool))
    ensures
        row_precedes(a, b) || row_precedes(b, a) || row_same_key(a, b),
{
    if a.1 == b.1 && components(a.0) != components(b.0) {
        lemma_comps_lt_total(components(a.0), components(b.0));
    }
}

proof fn lemma_row_precedes_irreflexive(a: (Seq<char>, u64, bool), b: (Seq<char>, u64, bool))
    requires
        row_same_key(a, b),
    ensures
        !row_precedes(a, b),
{
    lemma_comps_lt_irreflexive(components(a.0));
}

fn row_before(a: &SizedEntry, b: &SizedEntry) -> (r: bool)
    ensures
        r == row_precedes(row_view(*a), row_view(*b)),
{
    if a.size != b.size {
        return a.size > b.size;
    }
    let x = path_components(a.path.as_str());
    let y = path_components(b.path.as_str());
    components_less(&x, &y)
}

/// What each of a list of rows shows.
pub open spec fn rows_of(s: Seq<SizedEntry>) -> Seq<(Seq<char>, u64, bool)> {
    s.map_values(|e: SizedEntry| row_view(e))
}

/// Sorts rows by size, largest first, then by path; rows of the same size and
/// path keep their order.
#[verifier::rlimit(80)]
#[verifier::spinoff_prover]
pub fn sort_rows(input: Vec<SizedEntry>) -> (r: Vec<SizedEntry>)
    ensures
        exists|idx: Seq<int>| #[trigger] rows_sorted(rows_of(input@), r@, idx),
{
    let ghost inp = input@;
    let ghost iv = rows_of(input@);
    let mut out: Vec<SizedEntry> = Vec::new();
    let ghost mut idx: Seq<int> = Seq::empty();
    for x in it: input.into_iter()
        invariant
            it.seq() == inp,
            iv == rows_of(inp),
            out@.len() == it.index(),
            idx.len() == out@.len(),
            forall|k: int| 0 <= k < out@.len() ==> 0 <= #[trigger] idx[k] < it.index() && row_view(out@[k]) == iv[idx[k]],
            forall|a: int, b: int| 0 <= a < b < idx.len() ==> #[trigger] idx[a] != #[trigger] idx[b],
            forall|a: int, b: int|
                0 <= a < b < out@.len() ==> !row_precedes(row_view(#[trigger] out@[b]), row_view(#[trigger] out@[a])),
            forall|a: int, b: int|
                0 <= a < b < out@.len() && row_same_key(row_view(#[trigger] out@[a]), row_view(#[trigger] out@[b]))
                    ==> idx[a] < idx[b],
    {
        let ghost i = it.index() as int;
        assert(inp[i] == x);
        assert(iv[i] == row_view(x));
        let ghost xv = row_view(x);
        let mut p: usize = 0;
        while p < out.len() && !row_before(&x, &out[p])
            invariant
                p <= out@.len(),
                xv == row_view(x),
                forall|k: int| 0 <= k < p ==> !row_precedes(xv, row_view(#[trigger] out@[k])),
            decreases out.len() - p,
        {
            p = p + 1;
        }
        let ghost before = out@;
        let ghost old_idx = idx;
        out.insert(p, x);
        proof {
            before.insert_ensures(p as int, x);
            old_idx.insert_ensures(p as int, i);
            idx = old_idx.insert(p as int, i);
            assert forall|k: int| 0 <= k < out@.len() implies 0 <= #[trigger] idx[k] < i + 1 && row_view(out@[k])
                == iv[idx[k]] by {
                if k > p {
                    assert(idx[k] == old_idx[k - 1]);
                }
            }
            assert forall|a: int, b: int| 0 <= a < b < idx.len() implies #[trigger] idx[a]
                != #[trigger] idx[b] by {
                if a < p && b > p {
                    assert(idx[b] == old_idx[b - 1]);
                } else if a > p {
                    assert(idx[a] == old_idx[a - 1] && idx[b] == old_idx[b - 1]);
                } else if b > p {
                    assert(idx[b] == old_idx[b - 1]);
                }
            }
            assert forall|a: int, b: int|
                0 <= a < b < out@.len() implies !row_precedes(row_view(#[trigger] out@[b]), row_view(#[trigger] out@[a])) by {
                if b < p {
                } else if b == p {
                    assert(!row_precedes(xv, row_view(before[a])));
                } else if a < p {
                    assert(out@[b] == before[b - 1]);
                    assert(!row_precedes(row_view(before[b - 1]), row_view(before[a])));
                } else if a == p {
                    let pv = row_view(before[p as int]);
                    let bv = row_view(before[b - 1]);
                    assert(out@[b] == before[b - 1]);
                    assert(row_precedes(xv, pv));
                    if b - 1 > p {
                        assert(!row_precedes(bv, pv));
                        lemma_row_precedes_total(pv, bv);
                        if row_precedes(pv, bv) {
                            lemma_row_precedes_transitive(xv, pv, bv);
                        }
                        if row_precedes(bv, xv) {
                            lemma_row_precedes_transitive(bv, xv, pv);
                        }
                    }
                    if row_precedes(bv, xv) {
                        lemma_row_precedes_transitive(xv, bv, xv);
                        lemma_row_precedes_irreflexive(xv, xv);
                    }
                } else {
                    assert(out@[a] == before[a - 1] && out@[b] == before[b - 1]);
                    assert(!row_precedes(row_view(before[b - 1]), row_view(before[a - 1])));
                }
            }
            assert forall|a: int, b: int|
                0 <= a < b < out@.len() && row_same_key(row_view(#[trigger] out@[a]), row_view(#[trigger] out@[b]))
                implies idx[a] < idx[b] by {
                if b < p {
                } else if b == p {
                } else if a < p {
                    assert(idx[b] == old_idx[b - 1]);
                    assert(out@[b] == before[b - 1]);
                } else if a == p {
                    let pv = row_view(before[p as int]);
                    let bv = row_view(before[b - 1]);
                    assert(out@[b] == before[b - 1]);
                    assert(row_precedes(xv, pv));
                    if b - 1 > p {
                        assert(!row_precedes(bv, pv));
                        lemma_row_precedes_total(pv, bv);
                        if row_precedes(pv, bv) {
                            lemma_row_precedes_transitive(xv, pv, bv);
                        }
                    }
                    lemma_row_precedes_irreflexive(xv, bv);
                } else {
                    assert(idx[a] == old_idx[a - 1] && idx[b] == old_idx[b - 1]);
                    assert(out@[a] == before[a - 1] && out@[b] == before[b - 1]);
                }
            }
        }
    }
    assert(rows_sorted(iv, out@, idx));
    out
}

/// The rows of the directories `subdirs`, each with its measured size (zero
/// where none was measured), before sorting.
pub open spec fn unsorted_rows(subdirs: Seq<String>, sizes: Map<Seq<Comp>, u64>) -> Seq<(Seq<char>, u64, bool)> {
    Seq::new(subdirs.len(), |i: int| (subdirs[i]@, size_or_zero(sizes, components(subdirs[i]@)), true))
}

/// The rows of the directories `subdirs` with their measured sizes, largest
/// first, then by path.
pub fn directory_rows(subdirs: &Vec<String>, sizes: &DirectorySizes) -> (r: Vec<SizedEntry>)
    ensures
        exists|idx: Seq<int>| #[trigger] rows_sorted(unsorted_rows(subdirs@, sizes@), r@, idx),
{
    proof {
        use_type_invariant(sizes);
    }
    let mut rows: Vec<SizedEntry> = Vec::new();
    let mut i: usize = 0;
    while i < subdirs.len()
        invariant
            i <= subdirs.len(),
            sizes.wf(),
            rows@.len() == i,
            forall|k: int| 0 <= k < i ==> row_view(#[trigger] rows@[k]) == unsorted_rows(subdirs@, sizes@)[k],
        decreases subdirs.len() - i,
    {
        let size = sizes.size_of(subdirs[i].as_str());
        rows.push(SizedEntry { path: subdirs[i].clone(), size, is_dir: true });
        i = i + 1;
    }
    let ghost rv = rows@;
    let r = sort_rows(rows);
    assert(rows_of(rv) =~= unsorted_rows(subdirs@, sizes@));
    r
}

/// A directory the scan could not read, and why.
#[derive(Debug, Clone)]
pub struct ReadError {
    pub path: String,
    pub error: String,
}

/// How far a drive scan has come.
#[derive(Debug, Clone, Copy, PartialEq, Eq)]
pub struct ScanProgress {
    pub bytes_scanned: u64,
    pub files_scanned: u64,
    pub directories_scanned: u64,
}

/// What a drive scan measured.
pub struct ScanResult {
    pub root: String,
    pub bytes_scanned: u64,
    pub files_scanned: u64,
    pub directories_scanned: u64,
    pub directory_sizes: DirectorySizes,
    pub categories: Vec<CategoryUsage>,
    pub read_errors: Vec<ReadError>,
}

impl ScanResult {
    /// The bytes the scan counted.
    pub fn total_bytes(&self) -> (r: u64)
        ensures
            r == self.bytes_scanned,
    {
        self.bytes_scanned
    }

    /// The result of a scan of `root` that has measured nothing yet.
    pub fn started(root: String) -> (r: Self)
        ensures
            r.root@ == root@,
            r.bytes_scanned == 0,
            r.files_scanned == 0,
            r.directories_scanned == 0,
            r.directory_sizes.wf(),
            r.directory_sizes@ == Map::<Seq<Comp>, u64>::empty(),
            r.categories@.len() == 0,
            r.read_errors@.len() == 0,
    {
        ScanResult {
            root,
            bytes_scanned: 0,
            files_scanned: 0,
            directories_scanned: 0,
            directory_sizes: DirectorySizes::new(),
            categories: Vec::new(),
            read_errors: Vec::new(),
        }
    }
}

/// Which screen the browser shows.
#[derive(Debug, Clone, Copy, PartialEq, Eq, Structural)]
pub enum Screen {
    SelectDrive,
    Results,
    ErrorLog,
}

/// The path of the row that stands for space the scan could not see.
pub open spec fn hidden_space_path_spec() -> Seq<char> {
    "HIDDEN_SPACE_VIRTUAL_NODE"@
}

/// The path of the row that stands for space the scan could not see.
pub fn hidden_space_path() -> (r: String)
    ensures
        r@ == hidden_space_path_spec(),
{
    "HIDDEN_SPACE_VIRTUAL_NODE".to_owned()
}

/// The least gap between a drive's used space and a scan's total that is
/// shown as hidden space.
pub const HIDDEN_SPACE_MIN_GAP: u64 = 1_000_000;

/// The hidden space of a drive: the part of its used space that the scan did
/// not count, where that is more than `HIDDEN_SPACE_MIN_GAP`.
pub open spec fn hidden_space_size(used: u64, total: u64) -> Option<u64> {
    if used > total + HIDDEN_SPACE_MIN_GAP {
        Some((used - total) as u64)
    } else {
        None
    }
}

/// The hidden space of a drive whose used space is `used`, for a scan that
/// counted `total` bytes (`hidden_space_size`).
pub fn hidden_space(used: u64, total: u64) -> (r: Option<u64>)
    ensures
        r == hidden_space_size(used, total),
{
    if used > total && used - total > HIDDEN_SPACE_MIN_GAP {
        Some(used - total)
    } else {
        None
    }
}

/// The first drive mounted at `root` (as a path), if any.
pub open spec fn first_drive_at(drives: Seq<Drive>, root: Seq<char>) -> Option<int>
    decreases drives.len(),
{
    if drives.len() == 0 {
        None
    } else {
        match first_drive_at(drives.drop_last(), root) {
            Some(i) => Some(i),
            None => if path_eq_spec(drives.last().mount_point@, root) {
                Some(drives.len() - 1)
            } else {
                None
            },
        }
    }
}

proof fn lemma_first_drive_extends(s: Seq<Drive>, root: Seq<char>, k: int)
    requires
        0 <= k <= s.len(),
        first_drive_at(s.take(k), root) is Some,
    ensures
        first_drive_at(s, root) == first_drive_at(s.take(k), root),
    decreases s.len() - k,
{
    if k < s.len() {
        assert(s.drop_last().take(k) =~= s.take(k));
        lemma_first_drive_extends(s.drop_last(), root, k);
    } else {
        assert(s.take(k) =~= s);
    }
}

fn find_drive_at(drives: &Vec<Drive>, root: &str) -> (r: Option<usize>)
    ensures
        match r {
            Some(i) => first_drive_at(drives@, root@) == Some(i as int) && i < drives.len(),
            None => first_drive_at(drives@, root@) is None,
        },
{
    let mut i: usize = 0;
    while i < drives.len()
        invariant
            i <= drives.len(),
            first_drive_at(drives@.take(i as int), root@) is None,
        decreases drives.len() - i,
    {
        proof {
            assert(drives@.take(i + 1).drop_last() =~= drives@.take(i as int));
        }
        if path_eq(drives[i].mount_point.as_str(), root) {
            proof {
                lemma_first_drive_extends(drives@, root@, i + 1);
            }
            return Some(i);
        }
        i = i + 1;
    }
    assert(drives@.take(drives.len() as int) =~= drives@);
    None
}

/// std's `Path::parent`: the path without its final component. Its
/// documentation says it is `None` where the path ends in a root or is
/// empty; the components of the result are those of the path but the last.
#[verifier::external_body]
fn path_parent(path: &str) -> (r: Option<String>)
    ensures
        match r {
            None => components(path@).len() == 0 || components(path@).last() == Comp::RootDir,
            Some(q) => components(path@).len() > 0 && components(path@).last() != Comp::RootDir
                && components(q@) == components(path@).drop_last(),
        },
{
    std::path::Path::new(path).parent().map(|p| p.to_string_lossy().into_owned())
}

/// Where entering the selected row leads.
#[derive(Debug)]
pub enum EnterTarget {
    Stay,
    ErrorLog,
    Directory(String),
}

/// The browser of the terminal front end: the drives, the scan being shown,
/// the directory being browsed and the selected row.
pub struct App {
    pub drives: Vec<Drive>,
    pub selected_drive: usize,
    pub screen: Screen,
    pub progress: Option<ScanProgress>,
    pub result: Option<ScanResult>,
    pub result_path: Option<String>,
    pub current_subdirs: Option<Vec<String>>,
    pub selected_result_entry: usize,
    pub error_scroll: usize,
    pub rescan_focused_path: Option<String>,
    pub should_quit: bool,
    pub error_message: Option<String>,
}

/// The browser is at the scan's root: no directory is chosen, or the one
/// chosen is the root.
pub open spec fn at_scan_root(result_path: Option<String>, root: Seq<char>) -> bool {
    match result_path {
        None => true,
        Some(p) => path_eq_spec(p@, root),
    }
}

impl App {
    /// Every browser is well formed (`wf`): the recorded sizes keep one entry
    /// per directory, as every `DirectorySizes` does.
    fn sizes_are_well_formed(&self)
        ensures
            self.wf(),
    {
        if let Some(res) = &self.result {
            proof {
                use_type_invariant(&res.directory_sizes);
            }
        }
    }

    /// The recorded sizes are well formed.
    pub open spec fn wf(&self) -> bool {
        self.result matches Some(res) ==> res.directory_sizes.wf()
    }

    /// The hidden-space row shown at the scan's root, if any: where the scan
    /// reported unreadable directories and a drive is mounted at the root,
    /// the drive's hidden space (`hidden_space_size`).
    pub open spec fn hidden_row(&self) -> Option<u64> {
        match self.result {
            Some(res) => if at_scan_root(self.result_path, res.root@) && res.read_errors@.len() > 0 {
                match first_drive_at(self.drives@, res.root@) {
                    Some(i) => hidden_space_size(
                        sat_sub(self.drives@[i].total_space, self.drives@[i].available_space),
                        res.bytes_scanned,
                    ),
                    None => None,
                }
            } else {
                None
            },
            None => None,
        }
    }

    /// The rows of the directory being browsed: without a scan or a listing,
    /// none; otherwise its subdirectories sorted (`directory_rows`), then the
    /// hidden-space row, if any.
    pub open spec fn rows_are(&self, r: Seq<SizedEntry>) -> bool {
        match (self.result, self.current_subdirs) {
            (Some(res), Some(subdirs)) => {
                let n = subdirs@.len();
                &&& exists|idx: Seq<int>|
                    #[trigger] rows_sorted(unsorted_rows(subdirs@, res.directory_sizes@), r.take(n as int), idx)
                &&& match self.hidden_row() {
                    Some(size) => r.len() == n + 1 && r[n as int].path@ == hidden_space_path_spec()
                        && r[n as int].size == size && r[n as int].is_dir,
                    None => r.len() == n,
                }
            },
            _ => r.len() == 0,
        }
    }

    /// A browser over `drives`, showing the drive list with the first drive
    /// selected.
    pub fn new(drives: Vec<Drive>) -> (r: Self)
        ensures
            r.wf(),
            r.drives@ == drives@,
            r.selected_drive == 0,
            r.screen == Screen::SelectDrive,
            r.progress is None,
            r.result is None,
            r.result_path is None,
            r.current_subdirs is None,
            r.selected_result_entry == 0,
            r.error_scroll == 0,
            r.rescan_focused_path is None,
            !r.should_quit,
            r.error_message is None,
    {
        App {
            drives,
            selected_drive: 0,
            screen: Screen::SelectDrive,
            progress: None,
            result: None,
            result_path: None,
            current_subdirs: None,
            selected_result_entry: 0,
            error_scroll: 0,
            rescan_focused_path: None,
            should_quit: false,
            error_message: None,
        }
    }

    /// Selects the next drive, from the last back to the first.
    pub fn next_drive(&mut self)
        requires
            old(self).selected_drive < usize::MAX,
        ensures
            final(self).selected_drive == (if old(self).drives@.len() == 0 {
                old(self).selected_drive as int
            } else {
                (old(self).selected_drive + 1) % (old(self).drives@.len() as int)
            }),
            final(self).drives == old(self).drives,
            final(self).screen == old(self).screen,
            final(self).result == old(self).result,
    {
        if self.drives.len() > 0 {
            self.selected_drive = (self.selected_drive + 1) % self.drives.len();
        }
    }

    /// Selects the previous drive, from the first back to the last.
    pub fn previous_drive(&mut self)
        ensures
            final(self).selected_drive == (if old(self).drives@.len() == 0 {
                old(self).selected_drive as int
            } else if old(self).selected_drive == 0 {
                old(self).drives@.len() - 1
            } else {
                old(self).selected_drive - 1
            }),
            final(self).drives == old(self).drives,
            final(self).screen == old(self).screen,
            final(self).result == old(self).result,
    {
        if self.drives.len() > 0 {
            if self.selected_drive == 0 {
                self.selected_drive = self.drives.len() - 1;
            } else {
                self.selected_drive = self.selected_drive - 1;
            }
        }
    }

    /// The selected drive, if the selection names one.
    pub fn selected_drive(&self) -> (r: Option<&Drive>)
        ensures
            match r {
                Some(d) => self.selected_drive < self.drives@.len() && *d == self.drives@[self.selected_drive as int],
                None => self.selected_drive >= self.drives@.len(),
            },
    {
        if self.selected_drive < self.drives.len() {
            Some(&self.drives[self.selected_drive])
        } else {
            None
        }
    }

    /// The directory being browsed.
    pub fn current_result_path(&self) -> (r: Option<&String>)
        ensures
            match r {
                Some(p) => self.result_path == Some(*p),
                None => self.result_path is None,
            },
    {
        match &self.result_path {
            Some(p) => Some(p),
            None => None,
        }
    }

    /// The rows of the directory being browsed (`rows_are`).
    pub fn current_directory_entries(&self) -> (r: Vec<SizedEntry>)
        ensures
            self.rows_are(r@),
    {
        self.sizes_are_well_formed();
        let result = match &self.result {
            Some(res) => res,
            None => return Vec::new(),
        };
        let subdirs = match &self.current_subdirs {
            Some(s) => s,
            None => return Vec::new(),
        };
        let mut rows = directory_rows(subdirs, &result.directory_sizes);
        let ghost sorted = rows@;
        let at_root = match &self.result_path {
            None => true,
            Some(p) => path_eq(p.as_str(), result.root.as_str()),
        };
        if at_root && result.read_errors.len() > 0 {
            match find_drive_at(&self.drives, result.root.as_str()) {
                Some(i) => {
                    let used = self.drives[i].used_space();
                    match hidden_space(used, result.total_bytes()) {
                        Some(size) => rows.push(SizedEntry { path: hidden_space_path(), size, is_dir: true }),
                        None => {},
                    }
                },
                None => {},
            }
        }
        assert(rows@.take(subdirs@.len() as int) =~= sorted);
        rows
    }

    /// Selects the next row, from the last back to the first; with no rows,
    /// the first.
    pub fn next_result_entry(&mut self)
        ensures
            final(self).wf(),
            exists|rows: Seq<SizedEntry>|
                #[trigger] old(self).rows_are(rows) && final(self).selected_result_entry == (if rows.len() == 0 {
                    0
                } else {
                    (old(self).selected_result_entry + 1) % (rows.len() as int)
                }),
            final(self).result == old(self).result,
            final(self).current_subdirs == old(self).current_subdirs,
            final(self).result_path == old(self).result_path,
    {
        self.sizes_are_well_formed();
        let entries = self.current_directory_entries();
        if entries.len() == 0 {
            self.selected_result_entry = 0;
            return;
        }
        self.selected_result_entry = ((self.selected_result_entry as u128 + 1) % (entries.len() as u128)) as usize;
    }

    /// Selects the previous row, from the first back to the last; with no
    /// rows, the first.
    pub fn previous_result_entry(&mut self)
        ensures
            final(self).wf(),
            exists|rows: Seq<SizedEntry>|
                #[trigger] old(self).rows_are(rows) && final(self).selected_result_entry == (if rows.len() == 0 {
                    0
                } else if old(self).selected_result_entry == 0 {
                    rows.len() - 1
                } else {
                    old(self).selected_result_entry - 1
                }),
            final(self).result == old(self).result,
            final(self).current_subdirs == old(self).current_subdirs,
            final(self).result_path == old(self).result_path,
    {
        self.sizes_are_well_formed();
        let entries = self.current_directory_entries();
        if entries.len() == 0 {
            self.selected_result_entry = 0;
            return;
        }
        if self.selected_result_entry == 0 {
            self.selected_result_entry = entries.len() - 1;
        } else {
            self.selected_result_entry = self.selected_result_entry - 1;
        }
    }

    /// Returns to the drive list with the drives listed anew: the selection
    /// is kept where it still names a drive, else moved to the last one; the
    /// error log and message are cleared.
    pub fn back_to_selection(&mut self, drives: Vec<Drive>)
        ensures
            final(self).drives@ == drives@,
            final(self).selected_drive == (if old(self).selected_drive < sat_sub_usize(drives@.len(), 1) {
                old(self).selected_drive as int
            } else {
                sat_sub_usize(drives@.len(), 1) as int
            }),
            final(self).error_scroll == 0,
            final(self).error_message is None,
            final(self).screen == Screen::SelectDrive,
            final(self).result == old(self).result,
    {
        let last = drives.len().saturating_sub(1);
        self.drives = drives;
        if self.selected_drive > last {
            self.selected_drive = last;
        }
        self.error_scroll = 0;
        self.error_message = None;
        self.screen = Screen::SelectDrive;
    }

    /// Starts a scan of the selected drive: with no drive selected, reports
    /// that none was found; where the shown scan is of that drive's mount
    /// point already, shows it; otherwise returns the mount point to scan
    /// (then `begin_scan`).
    pub fn start_scan(&mut self) -> (r: Option<String>)
        ensures
            final(self).wf(),
            old(self).selected_drive >= old(self).drives@.len() ==> r is None && (final(self).error_message
                matches Some(m) && m@ == "No drives were detected on this machine."@) && final(self).screen
                == old(self).screen,
            old(self).selected_drive < old(self).drives@.len() ==> {
                let root = old(self).drives@[old(self).selected_drive as int].mount_point@;
                if old(self).result matches Some(res) && path_eq_spec(res.root@, root) {
                    r is None && final(self).screen == Screen::Results && final(self).error_message == old(self).error_message
                } else {
                    r matches Some(x) && x@ == root && final(self).screen == old(self).screen
                        && final(self).error_message == old(self).error_message
                }
            },
            final(self).result == old(self).result,
            final(self).drives == old(self).drives,
    {
        self.sizes_are_well_formed();
        if self.selected_drive >= self.drives.len() {
            self.error_message = Some("No drives were detected on this machine.".to_owned());
            return None;
        }
        let root = self.drives[self.selected_drive].mount_point.clone();
        match &self.result {
            Some(existing) => {
                if path_eq(existing.root.as_str(), root.as_str()) {
                    self.screen = Screen::Results;
                    return None;
                }
            },
            None => {},
        }
        Some(root)
    }

    /// Shows a scan of `root` that has just started, with the directories
    /// directly under the root listed.
    pub fn begin_scan(&mut self, root: String, subdirs: Vec<String>)
        ensures
            final(self).wf(),
            final(self).progress == Some(ScanProgress { bytes_scanned: 0, files_scanned: 0, directories_scanned: 0 }),
            final(self).result matches Some(res) && res.root@ == root@ && res.bytes_scanned == 0
                && res.directory_sizes@ == Map::<Seq<Comp>, u64>::empty() && res.read_errors@.len() == 0,
            final(self).result_path matches Some(p) && p@ == root@,
            final(self).current_subdirs == Some(subdirs),
            final(self).selected_result_entry == 0,
            final(self).error_message is None,
            final(self).screen == Screen::Results,
            final(self).drives == old(self).drives,
    {
        self.progress = Some(ScanProgress { bytes_scanned: 0, files_scanned: 0, directories_scanned: 0 });
        let path = root.clone();
        self.result = Some(ScanResult::started(root));
        self.result_path = Some(path);
        self.current_subdirs = Some(subdirs);
        self.selected_result_entry = 0;
        self.error_message = None;
        self.screen = Screen::Results;
    }

    /// Picks the selected row for a rescan: returns its path and remembers it
    /// to be selected again once the rescan is in; with no such row, nothing
    /// changes.
    pub fn rescan(&mut self) -> (r: Option<String>)
        ensures
            final(self).wf(),
            exists|rows: Seq<SizedEntry>|
                #[trigger] old(self).rows_are(rows) && if old(self).selected_result_entry < rows.len() {
                    (r matches Some(p) && p@ == rows[old(self).selected_result_entry as int].path@)
                        && (final(self).rescan_focused_path matches Some(f) && f@ == rows[old(self).selected_result_entry as int].path@)
                } else {
                    r is None && final(self).rescan_focused_path == old(self).rescan_focused_path
                },
            final(self).result == old(self).result,
            final(self).current_subdirs == old(self).current_subdirs,
            final(self).result_path == old(self).result_path,
            final(self).selected_result_entry == old(self).selected_result_entry,
    {
        self.sizes_are_well_formed();
        let entries = self.current_directory_entries();
        if self.selected_result_entry >= entries.len() {
            return None;
        }
        let path = entries[self.selected_result_entry].path.clone();
        self.rescan_focused_path = Some(path.clone());
        Some(path)
    }

    /// Where entering the selected row leads: nowhere without such a row;
    /// to the error log for the hidden-space row; otherwise to the row's
    /// directory (then `open_directory` with its subdirectories).
    pub fn enter_target(&self) -> (r: EnterTarget)
        ensures
            exists|rows: Seq<SizedEntry>|
                #[trigger] self.rows_are(rows) && if self.selected_result_entry < rows.len() {
                    let row = rows[self.selected_result_entry as int];
                    if row.path@ == hidden_space_path_spec() {
                        r is ErrorLog
                    } else {
                        r matches EnterTarget::Directory(p) && p@ == row.path@
                    }
                } else {
                    r is Stay
                },
    {
        self.sizes_are_well_formed();
        let entries = self.current_directory_entries();
        if self.selected_result_entry >= entries.len() {
            return EnterTarget::Stay;
        }
        let path = entries[self.selected_result_entry].path.clone();
        let hidden = hidden_space_path();
        if crate::text::str_equal(path.as_str(), hidden.as_str()) {
            EnterTarget::ErrorLog
        } else {
            EnterTarget::Directory(path)
        }
    }

    /// Shows the error log from its top.
    pub fn show_error_log(&mut self)
        ensures
            final(self).screen == Screen::ErrorLog,
            final(self).error_scroll == 0,
            final(self).result == old(self).result,
            final(self).result_path == old(self).result_path,
    {
        self.screen = Screen::ErrorLog;
        self.error_scroll = 0;
    }

    /// Browses into `path`, whose subdirectories are `subdirs`; a directory
    /// without subdirectories is not entered.
    pub fn open_directory(&mut self, path: String, subdirs: Vec<String>)
        ensures
            subdirs@.len() == 0 ==> *final(self) == *old(self),
            subdirs@.len() > 0 ==> final(self).result_path == Some(path) && final(self).current_subdirs == Some(
                subdirs,
            ) && final(self).selected_result_entry == 0 && final(self).result == old(self).result,
    {
        if subdirs.len() == 0 {
            return;
        }
        self.show_directory(path, subdirs);
    }

    /// Browses `path`, whose subdirectories are `subdirs`, from its first row.
    pub fn show_directory(&mut self, path: String, subdirs: Vec<String>)
        ensures
            final(self).result_path == Some(path),
            final(self).current_subdirs == Some(subdirs),
            final(self).selected_result_entry == 0,
            final(self).result == old(self).result,
            final(self).drives == old(self).drives,
            final(self).screen == old(self).screen,
    {
        self.result_path = Some(path);
        self.current_subdirs = Some(subdirs);
        self.selected_result_entry = 0;
    }

    /// The directory above the one being browsed: none without a scan, a
    /// chosen directory, or at the scan's root; otherwise its parent
    /// (`Path::parent`), or the root where it has none (then
    /// `show_directory`).
    pub fn parent_target(&self) -> (r: Option<String>)
        ensures
            match (self.result, self.result_path) {
                (Some(res), Some(p)) => if path_eq_spec(p@, res.root@) {
                    r is None
                } else if components(p@).len() == 0 || components(p@).last() == Comp::RootDir {
                    r matches Some(x) && x@ == res.root@
                } else {
                    r matches Some(x) && components(x@) == components(p@).drop_last()
                },
                _ => r is None,
            },
    {
        let result = match &self.result {
            Some(res) => res,
            None => return None,
        };
        let current = match &self.result_path {
            Some(p) => p,
            None => return None,
        };
        if path_eq(current.as_str(), result.root.as_str()) {
            return None;
        }
        match path_parent(current.as_str()) {
            Some(parent) => Some(parent),
            None => Some(result.root.clone()),
        }
    }
}

/// `n - 1`, held at zero.
pub open spec fn sat_sub_usize(n: nat, m: nat) -> nat {
    if n >= m {
        (n - m) as nat
    } else {
        0
    }
}

/// A message from a running drive scan.
pub enum ScanUpdate {
    Snapshot { progress: ScanProgress, directory_sizes: DirectorySizes, categories: Vec<(FileKind, u64)> },
    Finished(Result<ScanResult, String>),
    PartialFinished(Result<ScanResult, String>),
}

/// The index of the last snapshot among `u`.
pub open spec fn last_snapshot(u: Seq<ScanUpdate>) -> Option<int>
    decreases u.len(),
{
    if u.len() == 0 {
        None
    } else if u.last() is Snapshot {
        Some(u.len() - 1)
    } else {
        last_snapshot(u.drop_last())
    }
}

/// The index of the last update among `u` that ends a scan.
pub open spec fn last_finish(u: Seq<ScanUpdate>) -> Option<int>
    decreases u.len(),
{
    if u.len() == 0 {
        None
    } else if u.last() is Snapshot {
        last_finish(u.drop_last())
    } else {
        Some(u.len() - 1)
    }
}

/// Some update among `u` ends a rescan.
pub open spec fn any_partial(u: Seq<ScanUpdate>) -> bool
    decreases u.len(),
{
    if u.len() == 0 {
        false
    } else {
        u.last() is PartialFinished || any_partial(u.drop_last())
    }
}

proof fn lemma_last_snapshot(u: Seq<ScanUpdate>)
    ensures
        last_snapshot(u) matches Some(i) ==> 0 <= i < u.len() && u[i] is Snapshot,
    decreases u.len(),
{
    if u.len() > 0 {
        lemma_last_snapshot(u.drop_last());
        if let Some(i) = last_snapshot(u.drop_last()) {
            assert(u.drop_last()[i] == u[i]);
        }
    }
}

proof fn lemma_last_finish(u: Seq<ScanUpdate>)
    ensures
        last_finish(u) matches Some(i) ==> 0 <= i < u.len() && !(u[i] is Snapshot) && (u[i] is PartialFinished
            ==> any_partial(u)),
    decreases u.len(),
{
    if u.len() > 0 {
        lemma_last_finish(u.drop_last());
        if let Some(i) = last_finish(u.drop_last()) {
            assert(u.drop_last()[i] == u[i]);
        }
    }
}

/// The outcome carried by an update that ends a scan.
pub open spec fn outcome_of(u: ScanUpdate) -> Result<ScanResult, String> {
    match u {
        ScanUpdate::Finished(r) => r,
        ScanUpdate::PartialFinished(r) => r,
        ScanUpdate::Snapshot { .. } => Err(arbitrary()),
    }
}

/// Two browsers agree on everything a scan update does not touch.
pub open spec fn same_browsing(a: App, b: App) -> bool {
    &&& a.drives == b.drives
    &&& a.selected_drive == b.selected_drive
    &&& a.error_scroll == b.error_scroll
    &&& a.should_quit == b.should_quit
}

/// `after` is `before` with a snapshot applied: the progress is the
/// snapshot's, and a shown scan takes its counts, sizes and usage by kind
/// (sorted by `collect_categories`).
pub open spec fn snapshot_applied(
    before: App,
    after: App,
    progress: ScanProgress,
    sizes: Map<Seq<Comp>, u64>,
    categories: Seq<(FileKind, u64)>,
) -> bool {
    &&& same_browsing(before, after)
    &&& after.screen == before.screen
    &&& after.result_path == before.result_path
    &&& after.current_subdirs == before.current_subdirs
    &&& after.selected_result_entry == before.selected_result_entry
    &&& after.rescan_focused_path == before.rescan_focused_path
    &&& after.error_message == before.error_message
    &&& after.progress == Some(progress)
    &&& match before.result {
        None => after.result is None,
        Some(b) => after.result matches Some(a) && a.root == b.root && a.bytes_scanned == progress.bytes_scanned
            && a.files_scanned == progress.files_scanned && a.directories_scanned == progress.directories_scanned
            && a.directory_sizes.wf() && a.directory_sizes@ == sizes && usages_sorted(a.categories@)
            && Seq::new(a.categories@.len(), |i: int| (a.categories@[i].kind, a.categories@[i].size)).to_multiset()
            == categories.to_multiset() && a.read_errors == b.read_errors,
    }
}

/// `after` is `before` with the end of a scan applied.
/// - A failed scan leaves its message; a failed full scan also returns to
///   the drive list and drops the progress.
/// - A finished rescan is folded into the shown scan (`rescanned_sizes`,
///   under the shown scan's root, with the change of the rescanned
///   directory's size), whose total moves by the same change.
/// - A finished full scan becomes the shown scan, the progress is dropped
///   and the results are shown; where no directory was chosen, its root is
///   chosen with `root_subdirs` listed and the first row selected.
pub open spec fn finish_applied(
    before: App,
    after: App,
    outcome: Result<ScanResult, String>,
    partial: bool,
    root_subdirs: Option<Vec<String>>,
) -> bool {
    &&& same_browsing(before, after)
    &&& after.rescan_focused_path == before.rescan_focused_path
    &&& match outcome {
        Err(e) => {
            &&& after.error_message == Some(e)
            &&& after.result == before.result
            &&& after.result_path == before.result_path
            &&& after.current_subdirs == before.current_subdirs
            &&& after.selected_result_entry == before.selected_result_entry
            &&& if partial {
                after.screen == before.screen && after.progress == before.progress
            } else {
                after.screen == Screen::SelectDrive && after.progress is None
            }
        },
        Ok(f) => if partial {
            &&& after.error_message == before.error_message
            &&& after.screen == before.screen
            &&& after.progress == before.progress
            &&& after.result_path == before.result_path
            &&& after.current_subdirs == before.current_subdirs
            &&& after.selected_result_entry == before.selected_result_entry
            &&& match before.result {
                None => after.result is None,
                Some(b) => {
                    let delta = f.bytes_scanned - size_or_zero(b.directory_sizes@, components(f.root@));
                    after.result matches Some(a) && a.root == b.root && a.directory_sizes.wf()
                        && a.directory_sizes@ == rescanned_sizes(
                        b.directory_sizes@,
                        f.directory_sizes@,
                        components(f.root@),
                        components(b.root@),
                        delta,
                    ) && a.bytes_scanned == clamp_add(b.bytes_scanned, delta) && a.files_scanned
                        == b.files_scanned && a.directories_scanned == b.directories_scanned
                        && a.categories == b.categories && a.read_errors == b.read_errors
                },
            }
        } else {
            &&& after.error_message == before.error_message
            &&& after.result == Some(f)
            &&& after.progress is None
            &&& after.screen == Screen::Results
            &&& match before.result_path {
                Some(p) => after.result_path == Some(p) && after.current_subdirs == before.current_subdirs
                    && after.selected_result_entry == before.selected_result_entry,
                None => (after.result_path matches Some(p) && p@ == f.root@) && (after.current_subdirs matches Some(
                    v,
                ) && v@ == match root_subdirs {
                    Some(w) => w@,
                    None => Seq::<String>::empty(),
                }) && after.selected_result_entry == 0,
            }
        },
    }
}

/// `after` is `before` with the row picked for a rescan selected again: the
/// remembered path is forgotten, and the first row with that path, if any,
/// is selected.
pub open spec fn refocused(before: App, after: App) -> bool {
    &&& same_browsing(before, after)
    &&& after.screen == before.screen
    &&& after.progress == before.progress
    &&& after.result == before.result
    &&& after.result_path == before.result_path
    &&& after.current_subdirs == before.current_subdirs
    &&& after.error_message == before.error_message
    &&& match before.rescan_focused_path {
        None => after.rescan_focused_path is None && after.selected_result_entry == before.selected_result_entry,
        Some(f) => after.rescan_focused_path is None && exists|rows: Seq<SizedEntry>|
            #[trigger] before.rows_are(rows) && match first_row_at(rows, f@) {
                Some(i) => after.selected_result_entry == i,
                None => after.selected_result_entry == before.selected_result_entry,
            },
    }
}

/// The first row whose path is `p` (as a path), if any.
pub open spec fn first_row_at(rows: Seq<SizedEntry>, p: Seq<char>) -> Option<int>
    decreases rows.len(),
{
    if rows.len() == 0 {
        None
    } else {
        match first_row_at(rows.drop_last(), p) {
            Some(i) => Some(i),
            None => if path_eq_spec(rows.last().path@, p) {
                Some(rows.len() - 1)
            } else {
                None
            },
        }
    }
}

proof fn lemma_first_row_extends(s: Seq<SizedEntry>, p: Seq<char>, k: int)
    requires
        0 <= k <= s.len(),
        first_row_at(s.take(k), p) is Some,
    ensures
        first_row_at(s, p) == first_row_at(s.take(k), p),
    decreases s.len() - k,
{
    if k < s.len() {
        assert(s.drop_last().take(k) =~= s.take(k));
        lemma_first_row_extends(s.drop_last(), p, k);
    } else {
        assert(s.take(k) =~= s);
    }
}

fn find_row_at(rows: &Vec<SizedEntry>, p: &str) -> (r: Option<usize>)
    ensures
        match r {
            Some(i) => first_row_at(rows@, p@) == Some(i as int),
            None => first_row_at(rows@, p@) is None,
        },
{
    let mut i: usize = 0;
    while i < rows.len()
        invariant
            i <= rows.len(),
            first_row_at(rows@.take(i as int), p@) is None,
        decreases rows.len() - i,
    {
        proof {
            assert(rows@.take(i + 1).drop_last() =~= rows@.take(i as int));
        }
        if path_eq(rows[i].path.as_str(), p) {
            proof {
                lemma_first_row_extends(rows@, p@, i + 1);
            }
            return Some(i);
        }
        i = i + 1;
    }
    assert(rows@.take(rows.len() as int) =~= rows@);
    None
}

/// The steps of a poll: `before` takes the last snapshot of `updates` (to
/// `mid`), then the last update that ends the scan (to `mid2`), then selects
/// again the row picked for a rescan (to `after`).
pub open spec fn poll_steps(
    before: App,
    mid: App,
    mid2: App,
    after: App,
    updates: Seq<ScanUpdate>,
    root_subdirs: Option<Vec<String>>,
) -> bool {
    &&& match last_snapshot(updates) {
        Some(i) => updates[i] matches ScanUpdate::Snapshot { progress, directory_sizes, categories }
            && snapshot_applied(before, mid, progress, directory_sizes@, categories@),
        None => mid == before,
    }
    &&& match last_finish(updates) {
        Some(i) => finish_applied(mid, mid2, outcome_of(updates[i]), any_partial(updates), root_subdirs)
            && refocused(mid2, after),
        None => after == mid,
    }
}

impl App {
    /// Applies a scan snapshot (`snapshot_applied`).
    pub fn apply_snapshot(&mut self, progress: ScanProgress, directory_sizes: DirectorySizes, categories: Vec<(FileKind, u64)>)
        ensures
            snapshot_applied(*old(self), *final(self), progress, directory_sizes@, categories@),
    {
        proof {
            use_type_invariant(&directory_sizes);
        }
        self.progress = Some(progress);
        match self.result.take() {
            Some(mut res) => {
                res.bytes_scanned = progress.bytes_scanned;
                res.files_scanned = progress.files_scanned;
                res.directories_scanned = progress.directories_scanned;
                res.directory_sizes = directory_sizes;
                res.categories = collect_categories(categories);
                self.result = Some(res);
            },
            None => {},
        }
    }

    /// Applies the end of a scan (`finish_applied`).
    pub fn apply_finish(&mut self, outcome: Result<ScanResult, String>, partial: bool, root_subdirs: Option<Vec<String>>)
        ensures
            final(self).wf(),
            finish_applied(*old(self), *final(self), outcome, partial, root_subdirs),
    {
        if let Ok(f) = &outcome {
            proof {
                use_type_invariant(&f.directory_sizes);
            }
        }
        self.sizes_are_well_formed();
        match outcome {
            Ok(finished) => {
                if partial {
                    match self.result.take() {
                        Some(mut existing) => {
                            let total = existing.directory_sizes.merge_rescan(
                                existing.root.as_str(),
                                finished.root.as_str(),
                                &finished.directory_sizes,
                                finished.bytes_scanned,
                                existing.bytes_scanned,
                            );
                            existing.bytes_scanned = total;
                            self.result = Some(existing);
                        },
                        None => {},
                    }
                } else {
                    if self.result_path.is_none() {
                        self.result_path = Some(finished.root.clone());
                        self.current_subdirs = Some(
                            match root_subdirs {
                                Some(v) => v,
                                None => Vec::new(),
                            },
                        );
                        self.selected_result_entry = 0;
                    }
                    self.result = Some(finished);
                    self.progress = None;
                    self.screen = Screen::Results;
                }
            },
            Err(error) => {
                self.error_message = Some(error);
                if !partial {
                    self.screen = Screen::SelectDrive;
                    self.progress = None;
                }
            },
        }
    }

    /// Selects again the row picked for a rescan (`refocused`).
    pub fn refocus(&mut self)
        ensures
            final(self).wf(),
            refocused(*old(self), *final(self)),
    {
        self.sizes_are_well_formed();
        match self.rescan_focused_path.take() {
            Some(focused) => {
                let entries = self.current_directory_entries();
                assert(old(self).rows_are(entries@));
                match find_row_at(&entries, focused.as_str()) {
                    Some(i) => {
                        self.selected_result_entry = i;
                    },
                    None => {},
                }
            },
            None => {},
        }
    }

    /// The root whose subdirectories `poll_scanner` needs for `updates`: that
    /// of a full scan that finished well while no directory is chosen.
    pub fn root_to_list(&self, updates: &Vec<ScanUpdate>) -> (r: Option<String>)
        ensures
            match last_finish(updates@) {
                Some(i) => if !any_partial(updates@) && self.result_path is None && outcome_of(updates@[i]) is Ok {
                    r matches Some(p) && p@ == outcome_of(updates@[i])->Ok_0.root@
                } else {
                    r is None
                },
                None => r is None,
            },
    {
        if self.result_path.is_some() {
            return None;
        }
        let mut found: Option<usize> = None;
        let mut partial = false;
        let mut k: usize = 0;
        while k < updates.len()
            invariant
                k <= updates.len(),
                partial == any_partial(updates@.take(k as int)),
                match found {
                    Some(i) => last_finish(updates@.take(k as int)) == Some(i as int) && i < k,
                    None => last_finish(updates@.take(k as int)) is None,
                },
            decreases updates.len() - k,
        {
            proof {
                assert(updates@.take(k + 1).drop_last() =~= updates@.take(k as int));
            }
            match &updates[k] {
                ScanUpdate::Snapshot { .. } => {},
                ScanUpdate::Finished(_) => {
                    found = Some(k);
                },
                ScanUpdate::PartialFinished(_) => {
                    found = Some(k);
                    partial = true;
                },
            }
            k = k + 1;
        }
        assert(updates@.take(updates.len() as int) =~= updates@);
        proof {
            lemma_last_finish(updates@);
        }
        if partial {
            return None;
        }
        match found {
            Some(i) => match &updates[i] {
                ScanUpdate::Finished(Ok(f)) => Some(f.root.clone()),
                _ => None,
            },
            None => None,
        }
    }

    /// Takes in what a running scan sent since the last poll, in order: the
    /// last snapshot is applied (`snapshot_applied`), then the last update
    /// that ends the scan (`finish_applied`, as a rescan where any update
    /// ended a rescan), after which the row picked for a rescan is selected
    /// again (`refocused`). `root_subdirs` lists the root named by
    /// `root_to_list`. Returns whether the scan is still running.
    pub fn poll_scanner(&mut self, updates: Vec<ScanUpdate>, root_subdirs: Option<Vec<String>>) -> (r: bool)
        ensures
            final(self).wf(),
            r == (last_finish(updates@) is None),
            exists|mid: App, mid2: App| #[trigger] poll_steps(*old(self), mid, mid2, *final(self), updates@, root_subdirs),
    {
        self.sizes_are_well_formed();
        let ghost u = updates@;
        let mut snapshot: Option<(ScanProgress, DirectorySizes, Vec<(FileKind, u64)>)> = None;
        let mut finished: Option<Result<ScanResult, String>> = None;
        let mut partial = false;
        for update in it: updates.into_iter()
            invariant
                it.seq() == u,
                partial == any_partial(u.take(it.index() as int)),
                match last_snapshot(u.take(it.index() as int)) {
                    Some(i) => snapshot matches Some(s) && u[i] matches ScanUpdate::Snapshot { progress, directory_sizes, categories }
                        && s.0 == progress && s.1 == directory_sizes && s.2 == categories,
                    None => snapshot is None,
                },
                match last_finish(u.take(it.index() as int)) {
                    Some(i) => finished == Some(outcome_of(u[i])),
                    None => finished is None,
                },
        {
            proof {
                assert(u.take(it.index() + 1).drop_last() =~= u.take(it.index() as int));
            }
            match update {
                ScanUpdate::Snapshot { progress, directory_sizes, categories } => {
                    snapshot = Some((progress, directory_sizes, categories));
                },
                ScanUpdate::Finished(outcome) => {
                    finished = Some(outcome);
                },
                ScanUpdate::PartialFinished(outcome) => {
                    finished = Some(outcome);
                    partial = true;
                },
            }
        }
        assert(u.take(u.len() as int) =~= u);
        proof {
            lemma_last_snapshot(u);
            lemma_last_finish(u);
        }
        match snapshot {
            Some((progress, directory_sizes, categories)) => {
                self.apply_snapshot(progress, directory_sizes, categories);
            },
            None => {},
        }
        let ghost mid = *self;
        match finished {
            Some(outcome) => {
                self.apply_finish(outcome, partial, root_subdirs);
                let ghost mid2 = *self;
                self.refocus();
                assert(poll_steps(*old(self), mid, mid2, *self, u, root_subdirs));
                false
            },
            None => {
                assert(poll_steps(*old(self), mid, mid, *self, u, root_subdirs));
                true
            },
        }
    }
}

/// A key pressed in the terminal front end.
#[derive(Debug, Clone, Copy, PartialEq, Eq, Structural)]
pub enum Key {
    Char(char),
    Up,
    Down,
    Left,
    Right,
    Enter,
    Esc,
    Backspace,
    Other,
}

/// What a key asks of the browser.
#[derive(Debug, Clone, Copy, PartialEq, Eq, Structural)]
pub enum Command {
    Nothing,
    Quit,
    NextDrive,
    PreviousDrive,
    StartScan,
    DismissError,
    NextEntry,
    PreviousEntry,
    EnterDirectory,
    GoToParent,
    Rescan,
    BackToSelection,
    CloseErrorLog,
    ScrollErrorsDown,
    ScrollErrorsUp,
}

/// The command a key stands for on each screen: `q` quits everywhere;
/// `j`/Down and `k`/Up move the selection (or scroll the error log); on the
/// drive list Enter scans and Esc dismisses the message; on the results
/// Enter/Right/`l` enters, Backspace/Left/`h` goes up, `r` rescans, `s`
/// returns to the drive list and Esc dismisses the message; on the error
/// log Esc/Backspace/Left/`h` closes it.
pub open spec fn key_command_spec(screen: Screen, key: Key) -> Command {
    if key == Key::Char('q') {
        Command::Quit
    } else {
        match screen {
            Screen::SelectDrive => match key {
                Key::Down | Key::Char('j') => Command::NextDrive,
                Key::Up | Key::Char('k') => Command::PreviousDrive,
                Key::Enter => Command::StartScan,
                Key::Esc => Command::DismissError,
                _ => Command::Nothing,
            },
            Screen::Results => match key {
                Key::Down | Key::Char('j') => Command::NextEntry,
                Key::Up | Key::Char('k') => Command::PreviousEntry,
                Key::Enter | Key::Right | Key::Char('l') => Command::EnterDirectory,
                Key::Backspace | Key::Left | Key::Char('h') => Command::GoToParent,
                Key::Char('r') => Command::Rescan,
                Key::Char('s') => Command::BackToSelection,
                Key::Esc => Command::DismissError,
                _ => Command::Nothing,
            },
            Screen::ErrorLog => match key {
                Key::Esc | Key::Backspace | Key::Left | Key::Char('h') => Command::CloseErrorLog,
                Key::Down | Key::Char('j') => Command::ScrollErrorsDown,
                Key::Up | Key::Char('k') => Command::ScrollErrorsUp,
                _ => Command::Nothing,
            },
        }
    }
}

/// The command a key stands for on a screen (`key_command_spec`).
pub fn key_command(screen: Screen, key: Key) -> (r: Command)
    ensures
        r == key_command_spec(screen, key),
{
    if key == Key::Char('q') {
        return Command::Quit;
    }
    match screen {
        Screen::SelectDrive => match key {
            Key::Down | Key::Char('j') => Command::NextDrive,
            Key::Up | Key::Char('k') => Command::PreviousDrive,
            Key::Enter => Command::StartScan,
            Key::Esc => Command::DismissError,
            _ => Command::Nothing,
        },
        Screen::Results => match key {
            Key::Down | Key::Char('j') => Command::NextEntry,
            Key::Up | Key::Char('k') => Command::PreviousEntry,
            Key::Enter | Key::Right | Key::Char('l') => Command::EnterDirectory,
            Key::Backspace | Key::Left | Key::Char('h') => Command::GoToParent,
            Key::Char('r') => Command::Rescan,
            Key::Char('s') => Command::BackToSelection,
            Key::Esc => Command::DismissError,
            _ => Command::Nothing,
        },
        Screen::ErrorLog => match key {
            Key::Esc | Key::Backspace | Key::Left | Key::Char('h') => Command::CloseErrorLog,
            Key::Down | Key::Char('j') => Command::ScrollErrorsDown,
            Key::Up | Key::Char('k') => Command::ScrollErrorsUp,
            _ => Command::Nothing,
        },
    }
}

impl App {
    /// Asks the front end to stop.
    pub fn quit(&mut self)
        ensures
            final(self).should_quit,
            final(self).screen == old(self).screen,
            final(self).result == old(self).result,
    {
        self.should_quit = true;
    }

    /// Clears the message shown.
    pub fn dismiss_error(&mut self)
        ensures
            final(self).error_message is None,
            final(self).screen == old(self).screen,
            final(self).result == old(self).result,
    {
        self.error_message = None;
    }

    /// Leaves the error log for the results.
    pub fn close_error_log(&mut self)
        ensures
            final(self).screen == Screen::Results,
            final(self).error_scroll == old(self).error_scroll,
            final(self).result == old(self).result,
    {
        self.screen = Screen::Results;
    }

    /// Scrolls the error log down by one, no further than its last line;
    /// nothing happens without a scan or errors.
    pub fn scroll_errors_down(&mut self)
        ensures
            match old(self).result {
                Some(res) if res.read_errors@.len() > 0 => final(self).error_scroll == (if old(self).error_scroll
                    + 1 < res.read_errors@.len() - 1 {
                    old(self).error_scroll + 1
                } else {
                    res.read_errors@.len() - 1
                }),
                _ => final(self).error_scroll == old(self).error_scroll,
            },
            final(self).screen == old(self).screen,
            final(self).result == old(self).result,
    {
        match &self.result {
            Some(res) => {
                let n = res.read_errors.len();
                if n > 0 {
                    if self.error_scroll >= n - 1 {
                        self.error_scroll = n - 1;
                    } else {
                        self.error_scroll = self.error_scroll + 1;
                    }
                }
            },
            None => {},
        }
    }

    /// Scrolls the error log up by one, no further than its first line.
    pub fn scroll_errors_up(&mut self)
        ensures
            final(self).error_scroll == (if old(self).error_scroll > 0 {
                old(self).error_scroll - 1
            } else {
                0
            }),
            final(self).screen == old(self).screen,
            final(self).result == old(self).result,
    {
        self.error_scroll = self.error_scroll.saturating_sub(1);
    }
}

/// The keys of the terminal browser. `q` quits on every screen. On the
/// drive list, Down and `j` move to the next drive, Up and `k` to the
/// previous one, Enter starts a scan and Esc dismisses the message. On the
/// results, Down and `j` select the next row and Up and `k` the previous
/// one, Enter, Right and `l` enter the selected directory, Backspace, Left and
/// `h` go to the parent, `r` rescans, `s` goes back to the drive list and Esc
/// dismisses the message. In the error log, Down and `j` scroll down, Up and
/// `k` scroll up, and Esc, Backspace, Left and `h` close it. Any other key
/// does nothing.
pub proof fn key_bindings(screen: Screen, key: Key)
    ensures
        key == Key::Char('q') ==> key_command_spec(screen, key) == Command::Quit,
        screen == Screen::SelectDrive ==> {
            &&& (key == Key::Down || key == Key::Char('j')) ==> key_command_spec(screen, key) == Command::NextDrive
            &&& (key == Key::Up || key == Key::Char('k')) ==> key_command_spec(screen, key) == Command::PreviousDrive
            &&& key == Key::Enter ==> key_command_spec(screen, key) == Command::StartScan
            &&& key == Key::Esc ==> key_command_spec(screen, key) == Command::DismissError
            &&& !(key == Key::Char('q') || key == Key::Down || key == Key::Char('j') || key == Key::Up
                || key == Key::Char('k') || key == Key::Enter || key == Key::Esc) ==> key_command_spec(screen, key)
                == Command::Nothing
        },
        screen == Screen::Results ==> {
            &&& (key == Key::Down || key == Key::Char('j')) ==> key_command_spec(screen, key) == Command::NextEntry
            &&& (key == Key::Up || key == Key::Char('k')) ==> key_command_spec(screen, key) == Command::PreviousEntry
            &&& (key == Key::Enter || key == Key::Right || key == Key::Char('l')) ==> key_command_spec(screen, key)
                == Command::EnterDirectory
            &&& (key == Key::Backspace || key == Key::Left || key == Key::Char('h')) ==> key_command_spec(
                screen,
                key,
            ) == Command::GoToParent
            &&& key == Key::Char('r') ==> key_command_spec(screen, key) == Command::Rescan
            &&& key == Key::Char('s') ==> key_command_spec(screen, key) == Command::BackToSelection
            &&& key == Key::Esc ==> key_command_spec(screen, key) == Command::DismissError
            &&& !(key == Key::Char('q') || key == Key::Down || key == Key::Char('j') || key == Key::Up
                || key == Key::Char('k') || key == Key::Enter || key == Key::Right || key == Key::Char('l')
                || key == Key::Backspace || key == Key::Left || key == Key::Char('h') || key == Key::Char('r')
                || key == Key::Char('s') || key == Key::Esc) ==> key_command_spec(screen, key) == Command::Nothing
        },
        screen == Screen::ErrorLog ==> {
            &&& (key == Key::Down || key == Key::Char('j')) ==> key_command_spec(screen, key)
                == Command::ScrollErrorsDown
            &&& (key == Key::Up || key == Key::Char('k')) ==> key_command_spec(screen, key) == Command::ScrollErrorsUp
            &&& (key == Key::Esc || key == Key::Backspace || key == Key::Left || key == Key::Char('h'))
                ==> key_command_spec(screen, key) == Command::CloseErrorLog
            &&& !(key == Key::Char('q') || key == Key::Down || key == Key::Char('j') || key == Key::Up
                || key == Key::Char('k') || key == Key::Esc || key == Key::Backspace || key == Key::Left
                || key == Key::Char('h')) ==> key_command_spec(screen, key) == Command::Nothing
        },
{
}

} // verus!

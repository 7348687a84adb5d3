//! Unix path syntax: splitting a path into components, comparing, joining
//! and normalizing paths without touching the filesystem.
use vstd::prelude::*;

use crate::text::{chars_equal, chars_of, push_char, push_chars, string_of};

verus! {

/// The mathematical view of one path component.
pub enum Comp {
    RootDir,
    CurDir,
    ParentDir,
    Normal(Seq<char>),
}

/// One component of a path, as std's `Component` on Unix.
#[derive(Debug, Clone, PartialEq, Eq)]
pub enum PathComponent {
    RootDir,
    CurDir,
    ParentDir,
    Normal(Vec<char>),
}

impl View for PathComponent {
    type V = Comp;

    open spec fn view(&self) -> Comp {
        match self {
            PathComponent::RootDir => Comp::RootDir,
            PathComponent::CurDir => Comp::CurDir,
            PathComponent::ParentDir => Comp::ParentDir,
            PathComponent::Normal(v) => Comp::Normal(v@),
        }
    }
}

/// The component views of a vector of components.
pub open spec fn comps_view(v: Seq<PathComponent>) -> Seq<Comp> {
    Seq::new(v.len(), |i: int| v[i]@)
}

/// The pieces of `s` between separators, from left to right (empty pieces included).
pub open spec fn segments(s: Seq<char>) -> Seq<Seq<char>>
    decreases s.len(),
{
    if s.len() == 0 {
        seq![Seq::<char>::empty()]
    } else {
        let prev = segments(s.drop_last());
        if s.last() == '/' {
            prev.push(Seq::<char>::empty())
        } else {
            prev.update(prev.len() - 1, prev.last().push(s.last()))
        }
    }
}

/// What one piece between separators contributes: nothing for an empty piece or `.`.
pub open spec fn segment_component(seg: Seq<char>) -> Seq<Comp> {
    if seg.len() == 0 || seg == seq!['.'] {
        seq![]
    } else if seg == seq!['.', '.'] {
        seq![Comp::ParentDir]
    } else {
        seq![Comp::Normal(seg)]
    }
}

/// The components contributed by a sequence of pieces.
pub open spec fn segments_components(segs: Seq<Seq<char>>) -> Seq<Comp>
    decreases segs.len(),
{
    if segs.len() == 0 {
        seq![]
    } else {
        segments_components(segs.drop_last()) + segment_component(segs.last())
    }
}

/// Whether the path is absolute (starts with a separator).
pub open spec fn has_root(s: Seq<char>) -> bool {
    s.len() > 0 && s[0] == '/'
}

/// Whether a relative path starts with a `.` component, which std keeps.
pub open spec fn starts_with_cur_dir(s: Seq<char>) -> bool {
    s.len() > 0 && s[0] == '.' && (s.len() == 1 || s[1] == '/')
}

/// The components of a path as std's `Path::components` yields them on Unix:
/// a leading root, a leading `.` of a relative path, then every non-empty
/// piece between separators except `.`.
pub open spec fn components(s: Seq<char>) -> Seq<Comp> {
    (if has_root(s) {
        seq![Comp::RootDir]
    } else {
        seq![]
    }) + (if starts_with_cur_dir(s) {
        seq![Comp::CurDir]
    } else {
        seq![]
    }) + segments_components(segments(s))
}

/// `base` is a component-wise prefix of `path`.
pub open spec fn comps_prefix(base: Seq<Comp>, path: Seq<Comp>) -> bool {
    base.len() <= path.len() && path.take(base.len() as int) == base
}

/// std's `Path::starts_with`: the components of `base` begin those of `path`.
pub open spec fn path_starts_with_spec(path: Seq<char>, base: Seq<char>) -> bool {
    comps_prefix(components(base), components(path))
}

/// std's `Path` equality: equal components.
pub open spec fn path_eq_spec(a: Seq<char>, b: Seq<char>) -> bool {
    components(a) == components(b)
}

proof fn lemma_segments_nonempty(s: Seq<char>)
    ensures
        segments(s).len() >= 1,
    decreases s.len(),
{
    if s.len() > 0 {
        lemma_segments_nonempty(s.drop_last());
    }
}

fn segment_to_component(seg: &Vec<char>, out: &mut Vec<PathComponent>)
    ensures
        comps_view(final(out)@) == comps_view(old(out)@) + segment_component(seg@),
{
    let ghost before = comps_view(out@);
    if seg.len() == 0 {
        assert(comps_view(out@) =~= before + segment_component(seg@));
        return ;
    }
    if seg.len() == 1 && seg[0] == '.' {
        assert(seg@ =~= seq!['.']);
        assert(comps_view(out@) =~= before + segment_component(seg@));
        return ;
    }
    if seg.len() == 2 && seg[0] == '.' && seg[1] == '.' {
        assert(seg@ =~= seq!['.', '.']);
        out.push(PathComponent::ParentDir);
        assert(comps_view(out@) =~= before + segment_component(seg@));
        return ;
    }
    assert(seg@ != seq!['.']) by {
        if seg@ == seq!['.'] {
            assert(seg@.len() == 1);
        }
    }
    assert(seg@ != seq!['.', '.']) by {
        if seg@ == seq!['.', '.'] {
            assert(seg@.len() == 2);
        }
    }
    out.push(PathComponent::Normal(seg.clone()));
    assert(comps_view(out@) =~= before + segment_component(seg@));
}

/// Splits a path into its components, as std's `Path::components` does on Unix.
pub fn path_components(path: &str) -> (out: Vec<PathComponent>)
    ensures
        comps_view(out@) == components(path@),
{
    let s = chars_of(path);
    let mut out: Vec<PathComponent> = Vec::new();
    let root = s.len() > 0 && s[0] == '/';
    let cur = s.len() > 0 && s[0] == '.' && (s.len() == 1 || s[1] == '/');
    if root {
        out.push(PathComponent::RootDir);
    }
    if cur {
        out.push(PathComponent::CurDir);
    }
    let ghost prefix = comps_view(out@);
    assert(prefix =~= (if has_root(s@) {
        seq![Comp::RootDir]
    } else {
        seq![]
    }) + (if starts_with_cur_dir(s@) {
        seq![Comp::CurDir]
    } else {
        seq![]
    }));
    let mut seg: Vec<char> = Vec::new();
    let mut i: usize = 0;
    assert(s@.take(0) =~= Seq::<char>::empty());
    while i < s.len()
        invariant
            i <= s.len(),
            segments(s@.take(i as int)).len() >= 1,
            seg@ == segments(s@.take(i as int)).last(),
            comps_view(out@) == prefix + segments_components(
                segments(s@.take(i as int)).drop_last(),
            ),
        decreases s.len() - i,
    {
        let c = s[i];
        let ghost old_segs = segments(s@.take(i as int));
        assert(s@.take(i + 1).drop_last() =~= s@.take(i as int));
        if c == '/' {
            segment_to_component(&seg, &mut out);
            assert(old_segs =~= old_segs.drop_last().push(old_segs.last()));
            assert(segments(s@.take(i + 1)) == old_segs.push(Seq::<char>::empty()));
            assert(segments(s@.take(i + 1)).drop_last() =~= old_segs);
            seg = Vec::new();
            assert(seg@ =~= Seq::<char>::empty());
        } else {
            seg.push(c);
            let ghost new_segs = segments(s@.take(i + 1));
            assert(new_segs == old_segs.update(old_segs.len() - 1, old_segs.last().push(c)));
            assert(new_segs.drop_last() =~= old_segs.drop_last());
        }
        i = i + 1;
        proof {
            lemma_segments_nonempty(s@.take(i as int));
        }
    }
    assert(s@.take(s.len() as int) =~= s@);
    let ghost segs = segments(s@);
    segment_to_component(&seg, &mut out);
    assert(segs =~= segs.drop_last().push(segs.last()));
    assert(segments_components(segs) == segments_components(segs.drop_last())
        + segment_component(segs.last()));
    assert(comps_view(out@) =~= components(path@));
    out
}

/// A copy of a component.
pub fn copy_component(c: &PathComponent) -> (r: PathComponent)
    ensures
        r@ == c@,
{
    match c {
        PathComponent::RootDir => PathComponent::RootDir,
        PathComponent::CurDir => PathComponent::CurDir,
        PathComponent::ParentDir => PathComponent::ParentDir,
        PathComponent::Normal(v) => PathComponent::Normal(v.clone()),
    }
}

fn component_equal(a: &PathComponent, b: &PathComponent) -> (r: bool)
    ensures
        r == (a@ == b@),
{
    match (a, b) {
        (PathComponent::RootDir, PathComponent::RootDir) => true,
        (PathComponent::CurDir, PathComponent::CurDir) => true,
        (PathComponent::ParentDir, PathComponent::ParentDir) => true,
        (PathComponent::Normal(x), PathComponent::Normal(y)) => chars_equal(x, y),
        _ => false,
    }
}

/// Whether `base` is a component-wise prefix of `path`.
pub fn components_prefix(base: &Vec<PathComponent>, path: &Vec<PathComponent>) -> (r: bool)
    ensures
        r == comps_prefix(comps_view(base@), comps_view(path@)),
{
    if base.len() > path.len() {
        return false;
    }
    let mut i: usize = 0;
    while i < base.len()
        invariant
            i <= base.len(),
            base.len() <= path.len(),
            forall|j: int| 0 <= j < i ==> base@[j]@ == path@[j]@,
        decreases base.len() - i,
    {
        if !component_equal(&base[i], &path[i]) {
            assert(comps_view(path@).take(base.len() as int)[i as int] != comps_view(
                base@,
            )[i as int]);
            return false;
        }
        i = i + 1;
    }
    assert(comps_view(path@).take(base.len() as int) =~= comps_view(base@));
    true
}

/// Whether two component vectors are equal.
pub fn components_equal(a: &Vec<PathComponent>, b: &Vec<PathComponent>) -> (r: bool)
    ensures
        r == (comps_view(a@) == comps_view(b@)),
{
    if a.len() != b.len() {
        assert(comps_view(a@).len() != comps_view(b@).len());
        return false;
    }
    let r = components_prefix(a, b);
    if r {
        assert(comps_view(b@).take(a.len() as int) =~= comps_view(b@));
    } else {
        assert(comps_view(b@).take(a.len() as int) =~= comps_view(b@));
    }
    r
}

/// std's `Path::starts_with` on Unix paths.
pub fn path_starts_with(path: &str, base: &str) -> (r: bool)
    ensures
        r == path_starts_with_spec(path@, base@),
{
    let p = path_components(path);
    let b = path_components(base);
    components_prefix(&b, &p)
}

/// std's `Path` equality on Unix paths.
pub fn path_eq(a: &str, b: &str) -> (r: bool)
    ensures
        r == path_eq_spec(a@, b@),
{
    let x = path_components(a);
    let y = path_components(b);
    components_equal(&x, &y)
}


/// The names of a path joined by separators.
pub open spec fn join_names(names: Seq<Seq<char>>) -> Seq<char>
    decreases names.len(),
{
    if names.len() == 0 {
        seq![]
    } else if names.len() == 1 {
        names[0]
    } else {
        join_names(names.drop_last()) + seq!['/'] + names.last()
    }
}

/// The text of a path made of an optional root followed by names.
pub open spec fn render(root: bool, names: Seq<Seq<char>>) -> Seq<char> {
    if root {
        seq!['/'] + join_names(names)
    } else {
        join_names(names)
    }
}

/// Lexical normalization of components, as pushing them one by one onto an
/// empty `PathBuf` does: a root starts over at `/`, `.` is dropped, a name is
/// appended and `..` removes the last name; `None` when `..` has no name to remove.
pub open spec fn normalize_comps(comps: Seq<Comp>) -> Option<(bool, Seq<Seq<char>>)>
    decreases comps.len(),
{
    if comps.len() == 0 {
        Some((false, seq![]))
    } else {
        match normalize_comps(comps.drop_last()) {
            None => None,
            Some((root, names)) => match comps.last() {
                Comp::RootDir => Some((true, seq![])),
                Comp::CurDir => Some((root, names)),
                Comp::Normal(p) => Some((root, names.push(p))),
                Comp::ParentDir => if names.len() > 0 {
                    Some((root, names.drop_last()))
                } else {
                    None
                },
            },
        }
    }
}

/// The normalized text of a path, `None` when a `..` escapes its root.
pub open spec fn normalize_spec(path: Seq<char>) -> Option<Seq<char>> {
    match normalize_comps(components(path)) {
        Some((root, names)) => Some(render(root, names)),
        None => None,
    }
}

/// The views of a vector of names.
pub open spec fn names_view(v: Seq<Vec<char>>) -> Seq<Seq<char>> {
    Seq::new(v.len(), |i: int| v[i]@)
}

/// Builds the text of a path from an optional root and names.
pub fn render_path(root: bool, names: &Vec<Vec<char>>) -> (s: String)
    ensures
        s@ == render(root, names_view(names@)),
{
    let mut s = String::new();
    if root {
        push_char(&mut s, '/');
    }
    let ghost start = s@;
    let mut i: usize = 0;
    while i < names.len()
        invariant
            i <= names.len(),
            start == (if root {
                seq!['/']
            } else {
                Seq::<char>::empty()
            }),
            s@ == start + join_names(names_view(names@).take(i as int)),
        decreases names.len() - i,
    {
        let ghost prev = names_view(names@).take(i as int);
        let ghost next = names_view(names@).take(i + 1);
        assert(next.drop_last() =~= prev);
        if i > 0 {
            push_char(&mut s, '/');
        }
        push_chars(&mut s, &names[i]);
        assert(next.last() == names@[i as int]@);
        if i == 0 {
            assert(next =~= seq![names@[0]@]);
        }
        assert(s@ =~= start + join_names(next));
        i = i + 1;
    }
    assert(names_view(names@).take(names.len() as int) =~= names_view(names@));
    assert(s@ =~= render(root, names_view(names@)));
    s
}

/// Lexically normalizes a path: `.` components are dropped and each `..`
/// removes the name before it. `None` when a `..` would climb above the start.
pub fn normalize_lexically(path: &str) -> (r: Option<String>)
    ensures
        match r {
            Some(s) => normalize_spec(path@) == Some(s@),
            None => normalize_spec(path@) is None,
        },
{
    let comps = path_components(path);
    let mut root = false;
    let mut names: Vec<Vec<char>> = Vec::new();
    let mut i: usize = 0;
    assert(comps_view(comps@).take(0) =~= Seq::<Comp>::empty());
    while i < comps.len()
        invariant
            i <= comps.len(),
            comps_view(comps@) == components(path@),
            normalize_comps(comps_view(comps@).take(i as int)) == Some(
                (root, names_view(names@)),
            ),
        decreases comps.len() - i,
    {
        let ghost prefix = comps_view(comps@).take(i + 1);
        assert(prefix.drop_last() =~= comps_view(comps@).take(i as int));
        assert(prefix.last() == comps@[i as int]@);
        match &comps[i] {
            PathComponent::RootDir => {
                root = true;
                names = Vec::new();
                assert(names_view(names@) =~= Seq::<Seq<char>>::empty());
            },
            PathComponent::CurDir => {},
            PathComponent::Normal(p) => {
                let ghost old_names = names_view(names@);
                names.push(p.clone());
                assert(names_view(names@) =~= old_names.push(p@));
            },
            PathComponent::ParentDir => {
                if names.len() == 0 {
                    assert(normalize_comps(prefix) is None);
                    proof {
                        lemma_normalize_none_extends(comps_view(comps@), i as int + 1);
                    }
                    assert(comps_view(comps@).take(comps.len() as int) =~= comps_view(comps@));
                    return None;
                }
                let ghost old_names = names_view(names@);
                names.pop();
                assert(names_view(names@) =~= old_names.drop_last());
            },
        }
        i = i + 1;
    }
    assert(comps_view(comps@).take(comps.len() as int) =~= comps_view(comps@));
    Some(render_path(root, &names))
}

/// Once normalization fails on a prefix it fails on every longer prefix.
proof fn lemma_normalize_none_extends(comps: Seq<Comp>, k: int)
    requires
        0 <= k <= comps.len(),
        normalize_comps(comps.take(k)) is None,
    ensures
        normalize_comps(comps) is None,
    decreases comps.len() - k,
{
    if k < comps.len() {
        assert(comps.take(k + 1).drop_last() =~= comps.take(k));
        lemma_normalize_none_extends(comps, k + 1);
    } else {
        assert(comps.take(k) =~= comps);
    }
}

/// Two paths are the same path, or lexically normalize to the same path.
pub open spec fn equivalent_paths_spec(left: Seq<char>, right: Seq<char>) -> bool {
    path_eq_spec(left, right) || match (normalize_spec(left), normalize_spec(right)) {
        (Some(l), Some(r)) => path_eq_spec(l, r),
        _ => false,
    }
}

/// Whether two paths are equal, either as given or after lexical normalization.
pub fn equivalent_paths(left: &str, right: &str) -> (r: bool)
    ensures
        r == equivalent_paths_spec(left@, right@),
{
    if path_eq(left, right) {
        return true;
    }
    match (normalize_lexically(left), normalize_lexically(right)) {
        (Some(l), Some(r)) => path_eq(&l, &r),
        _ => false,
    }
}

/// std's `Path::strip_prefix`, as components: what follows `base` in `path`.
pub open spec fn strip_prefix_spec(path: Seq<char>, base: Seq<char>) -> Option<Seq<Comp>> {
    if path_starts_with_spec(path, base) {
        Some(components(path).skip(components(base).len() as int))
    } else {
        None
    }
}

/// The components of `path` that follow `base`, when `base` is a prefix of `path`.
pub fn strip_prefix_components(path: &str, base: &str) -> (r: Option<Vec<PathComponent>>)
    ensures
        match r {
            Some(v) => strip_prefix_spec(path@, base@) == Some(comps_view(v@)),
            None => strip_prefix_spec(path@, base@) is None,
        },
{
    let p = path_components(path);
    let b = path_components(base);
    if !components_prefix(&b, &p) {
        return None;
    }
    let mut rest: Vec<PathComponent> = Vec::new();
    let mut i: usize = b.len();
    while i < p.len()
        invariant
            b.len() <= i <= p.len(),
            comps_view(rest@) == comps_view(p@).subrange(b.len() as int, i as int),
        decreases p.len() - i,
    {
        let ghost before = comps_view(rest@);
        let c = copy_component(&p[i]);
        rest.push(c);
        assert(comps_view(rest@) =~= before.push(p@[i as int]@));
        assert(comps_view(p@).subrange(b.len() as int, i + 1) =~= comps_view(p@).subrange(
            b.len() as int,
            i as int,
        ).push(p@[i as int]@));
        i = i + 1;
    }
    assert(comps_view(p@).subrange(b.len() as int, p.len() as int) =~= comps_view(p@).skip(
        b.len() as int,
    ));
    Some(rest)
}

/// std's `PathBuf::push` on Unix: an absolute `rel` replaces `base`; otherwise
/// `rel` is appended, with a separator unless `base` is empty or ends with one.
pub open spec fn join_spec(base: Seq<char>, rel: Seq<char>) -> Seq<char> {
    if has_root(rel) {
        rel
    } else if base.len() == 0 || base.last() == '/' {
        base + rel
    } else {
        base + seq!['/'] + rel
    }
}

/// Joins two paths as std's `Path::join` does on Unix.
pub fn join_path(base: &str, rel: &str) -> (s: String)
    ensures
        s@ == join_spec(base@, rel@),
{
    let b = chars_of(base);
    let r = chars_of(rel);
    if r.len() > 0 && r[0] == '/' {
        return string_of(&r);
    }
    let mut s = string_of(&b);
    if b.len() > 0 && b[b.len() - 1] != '/' {
        push_char(&mut s, '/');
    }
    push_chars(&mut s, &r);
    s
}

/// The text of one component.
pub open spec fn comp_text(c: Comp) -> Seq<char> {
    match c {
        Comp::RootDir => seq!['/'],
        Comp::CurDir => seq!['.'],
        Comp::ParentDir => seq!['.', '.'],
        Comp::Normal(p) => p,
    }
}

/// The text of a sequence of components, as pushing each onto an empty path
/// builds it.
pub open spec fn comps_text(cs: Seq<Comp>) -> Seq<char>
    decreases cs.len(),
{
    if cs.len() == 0 {
        seq![]
    } else {
        join_spec(comps_text(cs.drop_last()), comp_text(cs.last()))
    }
}

/// Builds the text of a sequence of components.
pub fn components_text(cs: &Vec<PathComponent>) -> (s: String)
    ensures
        s@ == comps_text(comps_view(cs@)),
{
    let mut s = String::new();
    let mut i: usize = 0;
    while i < cs.len()
        invariant
            i <= cs.len(),
            s@ == comps_text(comps_view(cs@).take(i as int)),
        decreases cs.len() - i,
    {
        let piece = match &cs[i] {
            PathComponent::RootDir => string_of(&vec!['/']),
            PathComponent::CurDir => string_of(&vec!['.']),
            PathComponent::ParentDir => string_of(&vec!['.', '.']),
            PathComponent::Normal(p) => string_of(p),
        };
        proof {
            assert(comps_view(cs@).take(i + 1).drop_last() =~= comps_view(cs@).take(i as int));
            assert(comps_view(cs@).take(i + 1).last() == cs@[i as int]@);
        }
        assert(piece@ == comp_text(cs@[i as int]@)) by {
            if cs@[i as int] is RootDir {
                assert(piece@ =~= seq!['/']);
            } else if cs@[i as int] is CurDir {
                assert(piece@ =~= seq!['.']);
            } else if cs@[i as int] is ParentDir {
                assert(piece@ =~= seq!['.', '.']);
            }
        }
        s = join_path(&s, &piece);
        i = i + 1;
    }
    assert(comps_view(cs@).take(cs.len() as int) =~= comps_view(cs@));
    s
}

/// The final name of a path (std's `Path::file_name`): its last component when
/// that is a name.
pub open spec fn file_name_spec(path: Seq<char>) -> Option<Seq<char>> {
    let comps = components(path);
    if comps.len() > 0 && comps.last() is Normal {
        Some(comps.last()->Normal_0)
    } else {
        None
    }
}

/// The final name of a path, when its last component is a name.
pub fn file_name(path: &str) -> (r: Option<Vec<char>>)
    ensures
        match r {
            Some(v) => file_name_spec(path@) == Some(v@),
            None => file_name_spec(path@) is None,
        },
{
    let comps = path_components(path);
    if comps.len() == 0 {
        return None;
    }
    match &comps[comps.len() - 1] {
        PathComponent::Normal(p) => Some(p.clone()),
        _ => None,
    }
}

/// Whether `name` holds a `.` after its first character, at position `k` or later.
pub open spec fn last_dot(name: Seq<char>) -> int
    decreases name.len(),
{
    if name.len() == 0 {
        -1
    } else if name.last() == '.' {
        name.len() - 1
    } else {
        last_dot(name.drop_last())
    }
}

/// std's `Path::extension`: what follows the last `.` of the final name, unless
/// that `.` starts the name.
pub open spec fn extension_spec(path: Seq<char>) -> Option<Seq<char>> {
    match file_name_spec(path) {
        Some(name) => if last_dot(name) > 0 {
            Some(name.skip(last_dot(name) + 1))
        } else {
            None
        },
        None => None,
    }
}

proof fn lemma_last_dot_bounds(name: Seq<char>)
    ensures
        -1 <= last_dot(name) < name.len(),
        last_dot(name) >= 0 ==> name[last_dot(name)] == '.',
        forall|j: int| last_dot(name) < j < name.len() ==> name[j] != '.',
    decreases name.len(),
{
    if name.len() > 0 && name.last() != '.' {
        let prev = name.drop_last();
        lemma_last_dot_bounds(prev);
        assert forall|j: int| last_dot(name) < j < name.len() implies name[j] != '.' by {
            if j < name.len() - 1 {
                assert(prev[j] == name[j]);
            }
        }
    }
}

/// The extension of a path's final name.
pub fn extension(path: &str) -> (r: Option<Vec<char>>)
    ensures
        match r {
            Some(v) => extension_spec(path@) == Some(v@),
            None => extension_spec(path@) is None,
        },
{
    let name = match file_name(path) {
        Some(n) => n,
        None => return None,
    };
    let ghost nv = name@;
    let mut k: usize = name.len();
    while k > 0 && name[k - 1] != '.'
        invariant
            k <= name.len(),
            forall|j: int| k <= j < name.len() ==> name@[j] != '.',
        decreases k,
    {
        k = k - 1;
    }
    proof {
        lemma_last_dot_bounds(nv);
        lemma_last_dot_is_max(nv, k as int);
    }
    if k <= 1 {
        return None;
    }
    let mut ext: Vec<char> = Vec::new();
    let mut j: usize = k;
    while j < name.len()
        invariant
            k <= j <= name.len(),
            ext@ == name@.subrange(k as int, j as int),
        decreases name.len() - j,
    {
        ext.push(name[j]);
        j = j + 1;
        assert(ext@ =~= name@.subrange(k as int, j as int));
    }
    assert(name@.subrange(k as int, name.len() as int) =~= name@.skip(k as int));
    Some(ext)
}

/// The position of the last `.` found by scanning back from the end.
proof fn lemma_last_dot_is_max(name: Seq<char>, k: int)
    requires
        0 <= k <= name.len(),
        forall|j: int| k <= j < name.len() ==> name[j] != '.',
        k == 0 || name[k - 1] == '.',
    ensures
        last_dot(name) == k - 1,
    decreases name.len(),
{
    if name.len() > 0 {
        if name.len() == k {
        } else {
            assert(name.last() != '.');
            lemma_last_dot_is_max(name.drop_last(), k);
        }
    }
}


/// Strict lexicographic order of character sequences, by code point.
pub open spec fn chars_lt(a: Seq<char>, b: Seq<char>) -> bool
    decreases a.len(),
{
    if a.len() == 0 {
        b.len() > 0
    } else if b.len() == 0 {
        false
    } else if a[0] != b[0] {
        a[0] < b[0]
    } else {
        chars_lt(a.skip(1), b.skip(1))
    }
}

/// The position of a component kind in std's component order.
pub open spec fn comp_rank(c: Comp) -> nat {
    match c {
        Comp::RootDir => 0,
        Comp::CurDir => 1,
        Comp::ParentDir => 2,
        Comp::Normal(_) => 3,
    }
}

/// std's order of components: by kind, then names by their text.
pub open spec fn comp_lt(x: Comp, y: Comp) -> bool {
    if comp_rank(x) != comp_rank(y) {
        comp_rank(x) < comp_rank(y)
    } else {
        match (x, y) {
            (Comp::Normal(a), Comp::Normal(b)) => chars_lt(a, b),
            _ => false,
        }
    }
}

/// std's order of paths: lexicographic over their components.
pub open spec fn comps_lt(a: Seq<Comp>, b: Seq<Comp>) -> bool
    decreases a.len(),
{
    if a.len() == 0 {
        b.len() > 0
    } else if b.len() == 0 {
        false
    } else if a[0] != b[0] {
        comp_lt(a[0], b[0])
    } else {
        comps_lt(a.skip(1), b.skip(1))
    }
}

/// Path `a` sorts before path `b`.
pub open spec fn path_lt(a: Seq<char>, b: Seq<char>) -> bool {
    comps_lt(components(a), components(b))
}

/// No text sorts before itself.
pub proof fn lemma_chars_lt_irreflexive(a: Seq<char>)
    ensures
        !chars_lt(a, a),
    decreases a.len(),
{
    if a.len() > 0 {
        lemma_chars_lt_irreflexive(a.skip(1));
    }
}

/// The text order is transitive.
pub proof fn lemma_chars_lt_transitive(a: Seq<char>, b: Seq<char>, c: Seq<char>)
    requires
        chars_lt(a, b),
        chars_lt(b, c),
    ensures
        chars_lt(a, c),
    decreases a.len(),
{
    if a.len() > 0 && b.len() > 0 && c.len() > 0 {
        if a[0] == b[0] && b[0] == c[0] {
            lemma_chars_lt_transitive(a.skip(1), b.skip(1), c.skip(1));
        }
    }
}

/// Two different texts are ordered one way or the other.
pub proof fn lemma_chars_lt_total(a: Seq<char>, b: Seq<char>)
    requires
        a != b,
    ensures
        chars_lt(a, b) || chars_lt(b, a),
    decreases a.len(),
{
    if a.len() > 0 && b.len() > 0 && a[0] == b[0] {
        if a.skip(1) == b.skip(1) {
            assert(a =~= seq![a[0]] + a.skip(1));
            assert(b =~= seq![b[0]] + b.skip(1));
        }
        lemma_chars_lt_total(a.skip(1), b.skip(1));
    }
    if a.len() == 0 && b.len() == 0 {
        assert(a =~= b);
    }
}

proof fn lemma_comp_lt_irreflexive(x: Comp)
    ensures
        !comp_lt(x, x),
{
    if let Comp::Normal(a) = x {
        lemma_chars_lt_irreflexive(a);
    }
}

proof fn lemma_comp_lt_transitive(x: Comp, y: Comp, z: Comp)
    requires
        comp_lt(x, y),
        comp_lt(y, z),
    ensures
        comp_lt(x, z),
{
    if let (Comp::Normal(a), Comp::Normal(b), Comp::Normal(c)) = (x, y, z) {
        lemma_chars_lt_transitive(a, b, c);
    }
}

proof fn lemma_comp_lt_total(x: Comp, y: Comp)
    requires
        x != y,
    ensures
        comp_lt(x, y) || comp_lt(y, x),
{
    if let (Comp::Normal(a), Comp::Normal(b)) = (x, y) {
        lemma_chars_lt_total(a, b);
    }
}

/// No path sorts before itself.
pub proof fn lemma_comps_lt_irreflexive(a: Seq<Comp>)
    ensures
        !comps_lt(a, a),
    decreases a.len(),
{
    if a.len() > 0 {
        lemma_comps_lt_irreflexive(a.skip(1));
    }
}

/// The path order is transitive.
pub proof fn lemma_comps_lt_transitive(a: Seq<Comp>, b: Seq<Comp>, c: Seq<Comp>)
    requires
        comps_lt(a, b),
        comps_lt(b, c),
    ensures
        comps_lt(a, c),
    decreases a.len(),
{
    if a.len() > 0 && b.len() > 0 && c.len() > 0 {
        if a[0] == b[0] && b[0] == c[0] {
            lemma_comps_lt_transitive(a.skip(1), b.skip(1), c.skip(1));
        } else if a[0] == b[0] {
        } else if b[0] == c[0] {
        } else {
            lemma_comp_lt_transitive(a[0], b[0], c[0]);
            if a[0] == c[0] {
                lemma_comp_lt_irreflexive(a[0]);
                assert(comp_lt(c[0], b[0]));
                lemma_comp_lt_transitive(b[0], c[0], b[0]);
                lemma_comp_lt_irreflexive(b[0]);
            }
        }
    }
}

/// Two different paths are ordered one way or the other.
pub proof fn lemma_comps_lt_total(a: Seq<Comp>, b: Seq<Comp>)
    requires
        a != b,
    ensures
        comps_lt(a, b) || comps_lt(b, a),
    decreases a.len(),
{
    if a.len() > 0 && b.len() > 0 {
        if a[0] == b[0] {
            if a.skip(1) == b.skip(1) {
                assert(a =~= seq![a[0]] + a.skip(1));
                assert(b =~= seq![b[0]] + b.skip(1));
            }
            lemma_comps_lt_total(a.skip(1), b.skip(1));
        } else {
            lemma_comp_lt_total(a[0], b[0]);
        }
    }
    if a.len() == 0 && b.len() == 0 {
        assert(a =~= b);
    }
}

/// Whether text `a` sorts before text `b`, character by character.
pub fn chars_less(a: &Vec<char>, b: &Vec<char>) -> (r: bool)
    ensures
        r == chars_lt(a@, b@),
{
    let mut i: usize = 0;
    assert(a@.skip(0) =~= a@);
    assert(b@.skip(0) =~= b@);
    while i < a.len() && i < b.len() && a[i] == b[i]
        invariant
            i <= a.len(),
            i <= b.len(),
            chars_lt(a@, b@) == chars_lt(a@.skip(i as int), b@.skip(i as int)),
        decreases a.len() - i,
    {
        let ghost sa = a@.skip(i as int);
        let ghost sb = b@.skip(i as int);
        assert(sa.skip(1) =~= a@.skip(i + 1));
        assert(sb.skip(1) =~= b@.skip(i + 1));
        i = i + 1;
    }
    assert(a@.skip(0) =~= a@);
    assert(b@.skip(0) =~= b@);
    if i == a.len() {
        i < b.len()
    } else if i == b.len() {
        false
    } else {
        a[i] < b[i]
    }
}

fn comp_less(x: &PathComponent, y: &PathComponent) -> (r: bool)
    ensures
        r == comp_lt(x@, y@),
{
    let rx: u8 = match x {
        PathComponent::RootDir => 0,
        PathComponent::CurDir => 1,
        PathComponent::ParentDir => 2,
        PathComponent::Normal(_) => 3,
    };
    let ry: u8 = match y {
        PathComponent::RootDir => 0,
        PathComponent::CurDir => 1,
        PathComponent::ParentDir => 2,
        PathComponent::Normal(_) => 3,
    };
    if rx != ry {
        return rx < ry;
    }
    match (x, y) {
        (PathComponent::Normal(a), PathComponent::Normal(b)) => chars_less(a, b),
        _ => false,
    }
}

/// Whether path `a` sorts before path `b`, by components.
pub fn components_less(a: &Vec<PathComponent>, b: &Vec<PathComponent>) -> (r: bool)
    ensures
        r == comps_lt(comps_view(a@), comps_view(b@)),
{
    let ghost va = comps_view(a@);
    let ghost vb = comps_view(b@);
    let mut i: usize = 0;
    assert(va.skip(0) =~= va);
    assert(vb.skip(0) =~= vb);
    while i < a.len() && i < b.len() && component_equal(&a[i], &b[i])
        invariant
            i <= a.len(),
            i <= b.len(),
            va == comps_view(a@),
            vb == comps_view(b@),
            comps_lt(va, vb) == comps_lt(va.skip(i as int), vb.skip(i as int)),
        decreases a.len() - i,
    {
        let ghost sa = va.skip(i as int);
        let ghost sb = vb.skip(i as int);
        assert(sa.skip(1) =~= va.skip(i + 1));
        assert(sb.skip(1) =~= vb.skip(i + 1));
        i = i + 1;
    }
    assert(va.skip(0) =~= va);
    assert(vb.skip(0) =~= vb);
    if i == a.len() {
        i < b.len()
    } else if i == b.len() {
        false
    } else {
        comp_less(&a[i], &b[i])
    }
}

} // verus!

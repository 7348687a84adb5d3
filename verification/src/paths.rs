//! How sizes and paths are written for the user.
use vstd::prelude::*;

use crate::lexical::{
    join_names, path_eq, path_eq_spec, strip_prefix_components, strip_prefix_spec, Comp,
    PathComponent,
};
use crate::text::{push_char, push_str};

verus! {

/// The text humansize gives a byte count in decimal units (`format_size` with
/// `DECIMAL`).
pub uninterp spec fn decimal_size_text(size: u64) -> Seq<char>;

/// Formats a byte count with humansize's `format_size` and its `DECIMAL`
/// options; the text is named `decimal_size_text`.
#[verifier::external_body]
fn humansize_decimal(size: u64) -> (r: String)
    ensures
        r@ == decimal_size_text(size),
{
    humansize::format_size(size, humansize::DECIMAL)
}

/// A byte count in decimal units, as humansize writes it.
pub fn format_bytes(size: u64) -> (r: String)
    ensures
        r@ == decimal_size_text(size),
{
    humansize_decimal(size)
}

/// The names shown for the components below a root: each name, and a
/// separator for a root; other components are left out.
pub open spec fn compact_names(rest: Seq<Comp>) -> Seq<Seq<char>>
    decreases rest.len(),
{
    if rest.len() == 0 {
        seq![]
    } else {
        let prev = compact_names(rest.drop_last());
        match rest.last() {
            Comp::Normal(name) => prev.push(name),
            Comp::RootDir => prev.push(seq!['/']),
            _ => prev,
        }
    }
}

/// A path written relative to the root it lies under: the root is the root's
/// text; a path under it is the root's text, a separator and the names below
/// joined by separators; another path is its own text.
pub open spec fn compact_path_spec(path: Seq<char>, root: Seq<char>) -> Seq<char> {
    if path_eq_spec(path, root) {
        root
    } else {
        match strip_prefix_spec(path, root) {
            Some(rest) => if compact_names(rest).len() == 0 {
                root
            } else {
                root + seq!['/'] + join_names(compact_names(rest))
            },
            None => path,
        }
    }
}

/// Writes `path` relative to `root` (see `compact_path_spec`).
pub fn compact_path(path: &str, root: &str) -> (r: String)
    ensures
        r@ == compact_path_spec(path@, root@),
{
    if path_eq(path, root) {
        return root.to_owned();
    }
    let rest = match strip_prefix_components(path, root) {
        Some(rest) => rest,
        None => return path.to_owned(),
    };
    let ghost rest_view = crate::lexical::comps_view(rest@);
    let mut names: Vec<Vec<char>> = Vec::new();
    let mut i: usize = 0;
    while i < rest.len()
        invariant
            i <= rest@.len(),
            rest_view == crate::lexical::comps_view(rest@),
            crate::lexical::names_view(names@) == compact_names(rest_view.take(i as int)),
        decreases rest.len() - i,
    {
        proof {
            assert(rest_view.take(i + 1).drop_last() =~= rest_view.take(i as int));
            assert(rest_view.take(i + 1).last() == rest@[i as int]@);
        }
        let ghost before = crate::lexical::names_view(names@);
        match &rest[i] {
            PathComponent::Normal(name) => {
                names.push(name.clone());
                assert(crate::lexical::names_view(names@) =~= before.push(name@));
            },
            PathComponent::RootDir => {
                let mut sep: Vec<char> = Vec::new();
                sep.push('/');
                assert(sep@ =~= seq!['/']);
                names.push(sep);
                assert(crate::lexical::names_view(names@) =~= before.push(seq!['/']));
            },
            _ => {
                assert(crate::lexical::names_view(names@) =~= before);
            },
        }
        i = i + 1;
    }
    assert(rest_view.take(rest.len() as int) =~= rest_view);
    if names.len() == 0 {
        return root.to_owned();
    }
    let mut out = root.to_owned();
    push_char(&mut out, '/');
    let joined = crate::lexical::render_path(false, &names);
    push_str(&mut out, &joined);
    assert(out@ =~= root@ + seq!['/'] + join_names(compact_names(rest_view)));
    out
}

} // verus!

//! File kinds by extension and the per-kind usage summary.
use vstd::prelude::*;

use crate::lexical::{extension, extension_spec};
use crate::text::{eq_lit, string_of};

verus! {

broadcast use vstd::seq_lib::group_to_multiset_ensures;

/// The broad kind of a file.
#[derive(Debug, Clone, Copy, PartialEq, Eq, Hash, PartialOrd, Ord, Structural)]
pub enum FileKind {
    Video,
    Audio,
    Images,
    Archives,
    Apps,
    Documents,
    Code,
    Other,
}

/// The position of a kind in declaration order, which is how kinds are ordered.
pub open spec fn kind_rank(kind: FileKind) -> nat {
    match kind {
        FileKind::Video => 0,
        FileKind::Audio => 1,
        FileKind::Images => 2,
        FileKind::Archives => 3,
        FileKind::Apps => 4,
        FileKind::Documents => 5,
        FileKind::Code => 6,
        FileKind::Other => 7,
    }
}

pub(crate) fn rank_of(kind: FileKind) -> (r: u8)
    ensures
        r as nat == kind_rank(kind),
{
    match kind {
        FileKind::Video => 0,
        FileKind::Audio => 1,
        FileKind::Images => 2,
        FileKind::Archives => 3,
        FileKind::Apps => 4,
        FileKind::Documents => 5,
        FileKind::Code => 6,
        FileKind::Other => 7,
    }
}

/// The label shown for a kind.
pub open spec fn kind_label(kind: FileKind) -> Seq<char> {
    match kind {
        FileKind::Video => seq!['V', 'i', 'd', 'e', 'o'],
        FileKind::Audio => seq!['A', 'u', 'd', 'i', 'o'],
        FileKind::Images => seq!['I', 'm', 'a', 'g', 'e', 's'],
        FileKind::Archives => seq!['A', 'r', 'c', 'h', 'i', 'v', 'e', 's'],
        FileKind::Apps => seq!['A', 'p', 'p', 's'],
        FileKind::Documents => seq!['D', 'o', 'c', 's'],
        FileKind::Code => seq!['C', 'o', 'd', 'e'],
        FileKind::Other => seq!['O', 't', 'h', 'e', 'r'],
    }
}

impl FileKind {
    /// Every kind, in order.
    pub fn all() -> (r: [FileKind; 8])
        ensures
            forall|i: int| 0 <= i < 8 ==> kind_rank(#[trigger] r@[i]) == i,
    {
        [
            FileKind::Video,
            FileKind::Audio,
            FileKind::Images,
            FileKind::Archives,
            FileKind::Apps,
            FileKind::Documents,
            FileKind::Code,
            FileKind::Other,
        ]
    }

    /// The label shown for this kind.
    pub fn label(self) -> (r: String)
        ensures
            r@ == kind_label(self),
    {
        let v: Vec<char> = match self {
            FileKind::Video => vec!['V', 'i', 'd', 'e', 'o'],
            FileKind::Audio => vec!['A', 'u', 'd', 'i', 'o'],
            FileKind::Images => vec!['I', 'm', 'a', 'g', 'e', 's'],
            FileKind::Archives => vec!['A', 'r', 'c', 'h', 'i', 'v', 'e', 's'],
            FileKind::Apps => vec!['A', 'p', 'p', 's'],
            FileKind::Documents => vec!['D', 'o', 'c', 's'],
            FileKind::Code => vec!['C', 'o', 'd', 'e'],
            FileKind::Other => vec!['O', 't', 'h', 'e', 'r'],
        };
        assert(v@ =~= kind_label(self));
        string_of(&v)
    }
}

/// How many bytes files of one kind use.
#[derive(Debug, Clone, Copy, PartialEq, Eq, Structural)]
pub struct CategoryUsage {
    pub kind: FileKind,
    pub size: u64,
}

/// Extensions of video files.
pub open spec fn is_video_extension(e: Seq<char>) -> bool {
    e == seq!['m', 'p', '4']
        || e == seq!['m', 'k', 'v']
        || e == seq!['m', 'o', 'v']
        || e == seq!['a', 'v', 'i']
        || e == seq!['m', '4', 'v']
        || e == seq!['w', 'e', 'b', 'm']
        || e == seq!['f', 'l', 'v']
        || e == seq!['m', 'p', 'g']
        || e == seq!['m', 'p', 'e', 'g']
        || e == seq!['w', 'm', 'v']
        || e == seq!['t', 's']
}

fn video_extension(e: &Vec<char>) -> (r: bool)
    ensures
        r == is_video_extension(e@),
{
    eq_lit(e, &['m', 'p', '4'])
        || eq_lit(e, &['m', 'k', 'v'])
        || eq_lit(e, &['m', 'o', 'v'])
        || eq_lit(e, &['a', 'v', 'i'])
        || eq_lit(e, &['m', '4', 'v'])
        || eq_lit(e, &['w', 'e', 'b', 'm'])
        || eq_lit(e, &['f', 'l', 'v'])
        || eq_lit(e, &['m', 'p', 'g'])
        || eq_lit(e, &['m', 'p', 'e', 'g'])
        || eq_lit(e, &['w', 'm', 'v'])
        || eq_lit(e, &['t', 's'])
}

/// Extensions of audio files.
pub open spec fn is_audio_extension(e: Seq<char>) -> bool {
    e == seq!['m', 'p', '3']
        || e == seq!['w', 'a', 'v']
        || e == seq!['f', 'l', 'a', 'c']
        || e == seq!['m', '4', 'a']
        || e == seq!['a', 'a', 'c']
        || e == seq!['o', 'g', 'g']
        || e == seq!['o', 'p', 'u', 's']
        || e == seq!['a', 'l', 'a', 'c']
        || e == seq!['a', 'i', 'f', 'f']
        || e == seq!['w', 'm', 'a']
}

fn audio_extension(e: &Vec<char>) -> (r: bool)
    ensures
        r == is_audio_extension(e@),
{
    eq_lit(e, &['m', 'p', '3'])
        || eq_lit(e, &['w', 'a', 'v'])
        || eq_lit(e, &['f', 'l', 'a', 'c'])
        || eq_lit(e, &['m', '4', 'a'])
        || eq_lit(e, &['a', 'a', 'c'])
        || eq_lit(e, &['o', 'g', 'g'])
        || eq_lit(e, &['o', 'p', 'u', 's'])
        || eq_lit(e, &['a', 'l', 'a', 'c'])
        || eq_lit(e, &['a', 'i', 'f', 'f'])
        || eq_lit(e, &['w', 'm', 'a'])
}

/// Extensions of images files.
pub open spec fn is_image_extension(e: Seq<char>) -> bool {
    e == seq!['j', 'p', 'g']
        || e == seq!['j', 'p', 'e', 'g']
        || e == seq!['p', 'n', 'g']
        || e == seq!['g', 'i', 'f']
        || e == seq!['w', 'e', 'b', 'p']
        || e == seq!['b', 'm', 'p']
        || e == seq!['h', 'e', 'i', 'c']
        || e == seq!['t', 'i', 'f']
        || e == seq!['t', 'i', 'f', 'f']
        || e == seq!['r', 'a', 'w']
        || e == seq!['s', 'v', 'g']
        || e == seq!['p', 's', 'd']
}

fn image_extension(e: &Vec<char>) -> (r: bool)
    ensures
        r == is_image_extension(e@),
{
    eq_lit(e, &['j', 'p', 'g'])
        || eq_lit(e, &['j', 'p', 'e', 'g'])
        || eq_lit(e, &['p', 'n', 'g'])
        || eq_lit(e, &['g', 'i', 'f'])
        || eq_lit(e, &['w', 'e', 'b', 'p'])
        || eq_lit(e, &['b', 'm', 'p'])
        || eq_lit(e, &['h', 'e', 'i', 'c'])
        || eq_lit(e, &['t', 'i', 'f'])
        || eq_lit(e, &['t', 'i', 'f', 'f'])
        || eq_lit(e, &['r', 'a', 'w'])
        || eq_lit(e, &['s', 'v', 'g'])
        || eq_lit(e, &['p', 's', 'd'])
}

/// Extensions of archives files.
pub open spec fn is_archive_extension(e: Seq<char>) -> bool {
    e == seq!['z', 'i', 'p']
        || e == seq!['r', 'a', 'r']
        || e == seq!['7', 'z']
        || e == seq!['t', 'a', 'r']
        || e == seq!['g', 'z']
        || e == seq!['b', 'z', '2']
        || e == seq!['x', 'z']
        || e == seq!['t', 'g', 'z']
        || e == seq!['t', 'b', 'z']
        || e == seq!['i', 's', 'o']
        || e == seq!['d', 'm', 'g']
}

fn archive_extension(e: &Vec<char>) -> (r: bool)
    ensures
        r == is_archive_extension(e@),
{
    eq_lit(e, &['z', 'i', 'p'])
        || eq_lit(e, &['r', 'a', 'r'])
        || eq_lit(e, &['7', 'z'])
        || eq_lit(e, &['t', 'a', 'r'])
        || eq_lit(e, &['g', 'z'])
        || eq_lit(e, &['b', 'z', '2'])
        || eq_lit(e, &['x', 'z'])
        || eq_lit(e, &['t', 'g', 'z'])
        || eq_lit(e, &['t', 'b', 'z'])
        || eq_lit(e, &['i', 's', 'o'])
        || eq_lit(e, &['d', 'm', 'g'])
}

/// Extensions of apps files.
pub open spec fn is_app_extension(e: Seq<char>) -> bool {
    e == seq!['a', 'p', 'p']
        || e == seq!['p', 'k', 'g']
        || e == seq!['e', 'x', 'e']
        || e == seq!['m', 's', 'i']
        || e == seq!['a', 'p', 'p', 'i', 'm', 'a', 'g', 'e']
        || e == seq!['d', 'y', 'l', 'i', 'b']
        || e == seq!['d', 'l', 'l']
        || e == seq!['s', 'o']
        || e == seq!['d', 'e', 'b']
        || e == seq!['r', 'p', 'm']
}

fn app_extension(e: &Vec<char>) -> (r: bool)
    ensures
        r == is_app_extension(e@),
{
    eq_lit(e, &['a', 'p', 'p'])
        || eq_lit(e, &['p', 'k', 'g'])
        || eq_lit(e, &['e', 'x', 'e'])
        || eq_lit(e, &['m', 's', 'i'])
        || eq_lit(e, &['a', 'p', 'p', 'i', 'm', 'a', 'g', 'e'])
        || eq_lit(e, &['d', 'y', 'l', 'i', 'b'])
        || eq_lit(e, &['d', 'l', 'l'])
        || eq_lit(e, &['s', 'o'])
        || eq_lit(e, &['d', 'e', 'b'])
        || eq_lit(e, &['r', 'p', 'm'])
}

/// Extensions of documents files.
pub open spec fn is_document_extension(e: Seq<char>) -> bool {
    e == seq!['p', 'd', 'f']
        || e == seq!['d', 'o', 'c']
        || e == seq!['d', 'o', 'c', 'x']
        || e == seq!['p', 'p', 't']
        || e == seq!['p', 'p', 't', 'x']
        || e == seq!['x', 'l', 's']
        || e == seq!['x', 'l', 's', 'x']
        || e == seq!['p', 'a', 'g', 'e', 's']
        || e == seq!['n', 'u', 'm', 'b', 'e', 'r', 's']
        || e == seq!['k', 'e', 'y']
        || e == seq!['t', 'x', 't']
        || e == seq!['r', 't', 'f']
        || e == seq!['m', 'd']
        || e == seq!['o', 'd', 't']
        || e == seq!['e', 'p', 'u', 'b']
}

fn document_extension(e: &Vec<char>) -> (r: bool)
    ensures
        r == is_document_extension(e@),
{
    eq_lit(e, &['p', 'd', 'f'])
        || eq_lit(e, &['d', 'o', 'c'])
        || eq_lit(e, &['d', 'o', 'c', 'x'])
        || eq_lit(e, &['p', 'p', 't'])
        || eq_lit(e, &['p', 'p', 't', 'x'])
        || eq_lit(e, &['x', 'l', 's'])
        || eq_lit(e, &['x', 'l', 's', 'x'])
        || eq_lit(e, &['p', 'a', 'g', 'e', 's'])
        || eq_lit(e, &['n', 'u', 'm', 'b', 'e', 'r', 's'])
        || eq_lit(e, &['k', 'e', 'y'])
        || eq_lit(e, &['t', 'x', 't'])
        || eq_lit(e, &['r', 't', 'f'])
        || eq_lit(e, &['m', 'd'])
        || eq_lit(e, &['o', 'd', 't'])
        || eq_lit(e, &['e', 'p', 'u', 'b'])
}

/// Extensions of code files.
pub open spec fn is_code_extension(e: Seq<char>) -> bool {
    e == seq!['r', 's']
        || e == seq!['g', 'o']
        || e == seq!['p', 'y']
        || e == seq!['j', 's']
        || e == seq!['t', 's', 'x']
        || e == seq!['j', 's', 'x']
        || e == seq!['j', 'a', 'v', 'a']
        || e == seq!['k', 't']
        || e == seq!['s', 'w', 'i', 'f', 't']
        || e == seq!['c']
        || e == seq!['c', 'c']
        || e == seq!['c', 'p', 'p']
        || e == seq!['h']
        || e == seq!['h', 'p', 'p']
        || e == seq!['c', 's']
        || e == seq!['p', 'h', 'p']
        || e == seq!['r', 'b']
        || e == seq!['l', 'u', 'a']
        || e == seq!['t', 'o', 'm', 'l']
        || e == seq!['y', 'a', 'm', 'l']
        || e == seq!['y', 'm', 'l']
        || e == seq!['j', 's', 'o', 'n']
        || e == seq!['x', 'm', 'l']
        || e == seq!['s', 'q', 'l']
        || e == seq!['s', 'h']
        || e == seq!['z', 's', 'h']
        || e == seq!['b', 'a', 's', 'h']
}

fn code_extension(e: &Vec<char>) -> (r: bool)
    ensures
        r == is_code_extension(e@),
{
    eq_lit(e, &['r', 's'])
        || eq_lit(e, &['g', 'o'])
        || eq_lit(e, &['p', 'y'])
        || eq_lit(e, &['j', 's'])
        || eq_lit(e, &['t', 's', 'x'])
        || eq_lit(e, &['j', 's', 'x'])
        || eq_lit(e, &['j', 'a', 'v', 'a'])
        || eq_lit(e, &['k', 't'])
        || eq_lit(e, &['s', 'w', 'i', 'f', 't'])
        || eq_one(e, 'c')
        || eq_lit(e, &['c', 'c'])
        || eq_lit(e, &['c', 'p', 'p'])
        || eq_one(e, 'h')
        || eq_lit(e, &['h', 'p', 'p'])
        || eq_lit(e, &['c', 's'])
        || eq_lit(e, &['p', 'h', 'p'])
        || eq_lit(e, &['r', 'b'])
        || eq_lit(e, &['l', 'u', 'a'])
        || eq_lit(e, &['t', 'o', 'm', 'l'])
        || eq_lit(e, &['y', 'a', 'm', 'l'])
        || eq_lit(e, &['y', 'm', 'l'])
        || eq_lit(e, &['j', 's', 'o', 'n'])
        || eq_lit(e, &['x', 'm', 'l'])
        || eq_lit(e, &['s', 'q', 'l'])
        || eq_lit(e, &['s', 'h'])
        || eq_lit(e, &['z', 's', 'h'])
        || eq_lit(e, &['b', 'a', 's', 'h'])
}


fn eq_one(e: &Vec<char>, c: char) -> (r: bool)
    ensures
        r == (e@ == seq![c]),
{
    if e.len() == 1 && e[0] == c {
        assert(e@ =~= seq![c]);
        true
    } else {
        assert(e@ != seq![c]) by {
            if e@ == seq![c] {
                assert(e@.len() == 1 && e@[0] == c);
            }
        }
        false
    }
}

/// The kind for a (lower-case) extension.
pub open spec fn kind_for_extension(e: Seq<char>) -> FileKind {
    if is_video_extension(e) {
        FileKind::Video
    } else if is_audio_extension(e) {
        FileKind::Audio
    } else if is_image_extension(e) {
        FileKind::Images
    } else if is_archive_extension(e) {
        FileKind::Archives
    } else if is_app_extension(e) {
        FileKind::Apps
    } else if is_document_extension(e) {
        FileKind::Documents
    } else if is_code_extension(e) {
        FileKind::Code
    } else {
        FileKind::Other
    }
}

/// ASCII upper-case letters become lower-case; other characters stay.
pub open spec fn ascii_lower(c: char) -> char {
    if 'A' <= c && c <= 'Z' {
        ((c as u32) + 32) as char
    } else {
        c
    }
}

/// A character sequence with ASCII letters in lower case.
pub open spec fn ascii_lower_seq(s: Seq<char>) -> Seq<char> {
    Seq::new(s.len(), |i: int| ascii_lower(s[i]))
}

/// The extension of a path's final name, in ASCII lower case.
pub open spec fn normalized_extension_spec(path: Seq<char>) -> Option<Seq<char>> {
    match extension_spec(path) {
        Some(e) => Some(ascii_lower_seq(e)),
        None => None,
    }
}

fn lower_char(c: char) -> (r: char)
    ensures
        r == ascii_lower(c),
{
    if 'A' <= c && c <= 'Z' {
        ((c as u8) + 32) as char
    } else {
        c
    }
}

fn lower_chars(v: &Vec<char>) -> (r: Vec<char>)
    ensures
        r@ == ascii_lower_seq(v@),
{
    let mut r: Vec<char> = Vec::new();
    let mut i: usize = 0;
    while i < v.len()
        invariant
            i <= v.len(),
            r@ == ascii_lower_seq(v@).take(i as int),
        decreases v.len() - i,
    {
        r.push(lower_char(v[i]));
        i = i + 1;
        assert(r@ =~= ascii_lower_seq(v@).take(i as int));
    }
    assert(ascii_lower_seq(v@).take(v.len() as int) =~= ascii_lower_seq(v@));
    r
}

/// The extension of a path's final name, in ASCII lower case.
pub fn normalized_extension(path: &str) -> (r: Option<String>)
    ensures
        match r {
            Some(s) => normalized_extension_spec(path@) == Some(s@),
            None => normalized_extension_spec(path@) is None,
        },
{
    match extension(path) {
        Some(e) => {
            let lower = lower_chars(&e);
            Some(string_of(&lower))
        },
        None => None,
    }
}

fn kind_for(e: &Vec<char>) -> (r: FileKind)
    ensures
        r == kind_for_extension(e@),
{
    if video_extension(e) {
        FileKind::Video
    } else if audio_extension(e) {
        FileKind::Audio
    } else if image_extension(e) {
        FileKind::Images
    } else if archive_extension(e) {
        FileKind::Archives
    } else if app_extension(e) {
        FileKind::Apps
    } else if document_extension(e) {
        FileKind::Documents
    } else if code_extension(e) {
        FileKind::Code
    } else {
        FileKind::Other
    }
}

/// The kind of a file: by its lower-cased extension, or, without one, `Apps`
/// when the file is probably executable and `Other` when not.
pub open spec fn detect_file_kind_spec(path: Seq<char>, probably_executable: bool) -> FileKind {
    match normalized_extension_spec(path) {
        Some(e) => kind_for_extension(e),
        None => if probably_executable {
            FileKind::Apps
        } else {
            FileKind::Other
        },
    }
}

/// The kind of a file. `probably_executable` tells whether the platform marks
/// the file executable; it only matters for a file without an extension.
pub fn detect_file_kind(path: &str, probably_executable: bool) -> (r: FileKind)
    ensures
        r == detect_file_kind_spec(path@, probably_executable),
{
    match extension(path) {
        Some(e) => {
            let lower = lower_chars(&e);
            kind_for(&lower)
        },
        None => if probably_executable {
            FileKind::Apps
        } else {
            FileKind::Other
        },
    }
}

/// `a` comes no later than `b`: larger sizes first, equal sizes by kind.
pub open spec fn usage_before(a: CategoryUsage, b: CategoryUsage) -> bool {
    a.size > b.size || (a.size == b.size && kind_rank(a.kind) <= kind_rank(b.kind))
}

/// Usages in order: larger first, then by kind.
pub open spec fn usages_sorted(s: Seq<CategoryUsage>) -> bool {
    forall|i: int, j: int| 0 <= i < j < s.len() ==> usage_before(s[i], s[j])
}

fn before(a: &CategoryUsage, b: &CategoryUsage) -> (r: bool)
    ensures
        r == usage_before(*a, *b),
{
    a.size > b.size || (a.size == b.size && rank_of(a.kind) <= rank_of(b.kind))
}

/// The usage of each kind, largest first and, at equal size, in kind order.
/// The result holds exactly the given (kind, size) pairs.
pub fn collect_categories(categories: Vec<(FileKind, u64)>) -> (r: Vec<CategoryUsage>)
    ensures
        usages_sorted(r@),
        Seq::new(r@.len(), |i: int| (r@[i].kind, r@[i].size)).to_multiset()
            == categories@.to_multiset(),
{
    let mut out: Vec<CategoryUsage> = Vec::new();
    let mut n: usize = 0;
    while n < categories.len()
        invariant
            n <= categories.len(),
            usages_sorted(out@),
            Seq::new(out@.len(), |i: int| (out@[i].kind, out@[i].size)).to_multiset()
                == categories@.take(n as int).to_multiset(),
        decreases categories.len() - n,
    {
        let (kind, size) = categories[n];
        let item = CategoryUsage { kind, size };
        let mut k: usize = 0;
        while k < out.len() && before(&out[k], &item)
            invariant
                k <= out.len(),
                forall|j: int| 0 <= j < k ==> usage_before(out@[j], item),
            decreases out.len() - k,
        {
            k = k + 1;
        }
        let ghost old_out = out@;
        out.insert(k, item);
        assert(out@ =~= old_out.insert(k as int, item));
        assert(usages_sorted(out@)) by {
            assert forall|i: int, j: int| 0 <= i < j < out@.len() implies usage_before(
                out@[i],
                out@[j],
            ) by {
                if k < old_out.len() {
                    assert(!usage_before(old_out[k as int], item));
                    assert(usage_before(item, old_out[k as int]));
                }
                if j < k {
                    assert(out@[i] == old_out[i] && out@[j] == old_out[j]);
                } else if j == k {
                    assert(out@[j] == item && out@[i] == old_out[i]);
                } else if i < k {
                    assert(out@[i] == old_out[i] && out@[j] == old_out[j - 1]);
                    assert(usage_before(old_out[i], item));
                    if k < j - 1 {
                        assert(usage_before(old_out[k as int], old_out[j - 1]));
                    }
                } else if i == k {
                    assert(out@[i] == item && out@[j] == old_out[j - 1]);
                    if k < j - 1 {
                        assert(usage_before(old_out[k as int], old_out[j - 1]));
                    }
                } else {
                    assert(out@[i] == old_out[i - 1] && out@[j] == old_out[j - 1]);
                }
            }
        }
        let ghost old_pairs = Seq::new(old_out.len(), |i: int| (old_out[i].kind, old_out[i].size));
        let ghost new_pairs = Seq::new(out@.len(), |i: int| (out@[i].kind, out@[i].size));
        assert(new_pairs =~= old_pairs.insert(k as int, (kind, size)));
        proof {
            vstd::seq_lib::to_multiset_insert(old_pairs, k as int, (kind, size));
            vstd::seq_lib::to_multiset_build(categories@.take(n as int), (kind, size));
        }
        assert(categories@.take(n + 1) =~= categories@.take(n as int).push((kind, size)));
        n = n + 1;
    }
    assert(categories@.take(categories.len() as int) =~= categories@);
    out
}

/// The usage summary is ordered: a larger usage never follows a smaller one.
pub proof fn larger_usage_comes_first(s: Seq<CategoryUsage>, i: int, j: int)
    requires
        usages_sorted(s),
        0 <= i < j < s.len(),
    ensures
        s[i].size >= s[j].size,
{
    assert(usage_before(s[i], s[j]));
}

/// Every video extension (mp4, mkv, mov, avi, m4v, webm, flv, mpg, mpeg, wmv, ts), in any ASCII letter
/// case, makes a file `Video`, whatever else is known of the file.
pub proof fn video_extensions_are_video(path: Seq<char>, probably_executable: bool, e: Seq<char>)
    requires
        normalized_extension_spec(path) == Some(e),
        e == seq!['m', 'p', '4']
            || e == seq!['m', 'k', 'v']
            || e == seq!['m', 'o', 'v']
            || e == seq!['a', 'v', 'i']
            || e == seq!['m', '4', 'v']
            || e == seq!['w', 'e', 'b', 'm']
            || e == seq!['f', 'l', 'v']
            || e == seq!['m', 'p', 'g']
            || e == seq!['m', 'p', 'e', 'g']
            || e == seq!['w', 'm', 'v']
            || e == seq!['t', 's'],
    ensures
        detect_file_kind_spec(path, probably_executable) == FileKind::Video,
{
}

/// Every audio extension (mp3, wav, flac, m4a, aac, ogg, opus, alac, aiff, wma), in any ASCII letter
/// case, makes a file `Audio`, whatever else is known of the file.
pub proof fn audio_extensions_are_audio(path: Seq<char>, probably_executable: bool, e: Seq<char>)
    requires
        normalized_extension_spec(path) == Some(e),
        e == seq!['m', 'p', '3']
            || e == seq!['w', 'a', 'v']
            || e == seq!['f', 'l', 'a', 'c']
            || e == seq!['m', '4', 'a']
            || e == seq!['a', 'a', 'c']
            || e == seq!['o', 'g', 'g']
            || e == seq!['o', 'p', 'u', 's']
            || e == seq!['a', 'l', 'a', 'c']
            || e == seq!['a', 'i', 'f', 'f']
            || e == seq!['w', 'm', 'a'],
    ensures
        detect_file_kind_spec(path, probably_executable) == FileKind::Audio,
{
}

/// Every image extension (jpg, jpeg, png, gif, webp, bmp, heic, tif, tiff, raw, svg, psd), in any ASCII letter
/// case, makes a file `Images`, whatever else is known of the file.
pub proof fn image_extensions_are_images(path: Seq<char>, probably_executable: bool, e: Seq<char>)
    requires
        normalized_extension_spec(path) == Some(e),
        e == seq!['j', 'p', 'g']
            || e == seq!['j', 'p', 'e', 'g']
            || e == seq!['p', 'n', 'g']
            || e == seq!['g', 'i', 'f']
            || e == seq!['w', 'e', 'b', 'p']
            || e == seq!['b', 'm', 'p']
            || e == seq!['h', 'e', 'i', 'c']
            || e == seq!['t', 'i', 'f']
            || e == seq!['t', 'i', 'f', 'f']
            || e == seq!['r', 'a', 'w']
            || e == seq!['s', 'v', 'g']
            || e == seq!['p', 's', 'd'],
    ensures
        detect_file_kind_spec(path, probably_executable) == FileKind::Images,
{
}

/// Every archive extension (zip, rar, 7z, tar, gz, bz2, xz, tgz, tbz, iso, dmg), in any ASCII letter
/// case, makes a file `Archives`, whatever else is known of the file.
pub proof fn archive_extensions_are_archives(path: Seq<char>, probably_executable: bool, e: Seq<char>)
    requires
        normalized_extension_spec(path) == Some(e),
        e == seq!['z', 'i', 'p']
            || e == seq!['r', 'a', 'r']
            || e == seq!['7', 'z']
            || e == seq!['t', 'a', 'r']
            || e == seq!['g', 'z']
            || e == seq!['b', 'z', '2']
            || e == seq!['x', 'z']
            || e == seq!['t', 'g', 'z']
            || e == seq!['t', 'b', 'z']
            || e == seq!['i', 's', 'o']
            || e == seq!['d', 'm', 'g'],
    ensures
        detect_file_kind_spec(path, probably_executable) == FileKind::Archives,
{
}

/// Every app extension (app, pkg, exe, msi, appimage, dylib, dll, so, deb, rpm), in any ASCII letter
/// case, makes a file `Apps`, whatever else is known of the file.
pub proof fn app_extensions_are_apps(path: Seq<char>, probably_executable: bool, e: Seq<char>)
    requires
        normalized_extension_spec(path) == Some(e),
        e == seq!['a', 'p', 'p']
            || e == seq!['p', 'k', 'g']
            || e == seq!['e', 'x', 'e']
            || e == seq!['m', 's', 'i']
            || e == seq!['a', 'p', 'p', 'i', 'm', 'a', 'g', 'e']
            || e == seq!['d', 'y', 'l', 'i', 'b']
            || e == seq!['d', 'l', 'l']
            || e == seq!['s', 'o']
            || e == seq!['d', 'e', 'b']
            || e == seq!['r', 'p', 'm'],
    ensures
        detect_file_kind_spec(path, probably_executable) == FileKind::Apps,
{
}

/// Every document extension (pdf, doc, docx, ppt, pptx, xls, xlsx, pages, numbers, key, txt, rtf, md, odt, epub), in any ASCII letter
/// case, makes a file `Documents`, whatever else is known of the file.
pub proof fn document_extensions_are_documents(path: Seq<char>, probably_executable: bool, e: Seq<char>)
    requires
        normalized_extension_spec(path) == Some(e),
        e == seq!['p', 'd', 'f']
            || e == seq!['d', 'o', 'c']
            || e == seq!['d', 'o', 'c', 'x']
            || e == seq!['p', 'p', 't']
            || e == seq!['p', 'p', 't', 'x']
            || e == seq!['x', 'l', 's']
            || e == seq!['x', 'l', 's', 'x']
            || e == seq!['p', 'a', 'g', 'e', 's']
            || e == seq!['n', 'u', 'm', 'b', 'e', 'r', 's']
            || e == seq!['k', 'e', 'y']
            || e == seq!['t', 'x', 't']
            || e == seq!['r', 't', 'f']
            || e == seq!['m', 'd']
            || e == seq!['o', 'd', 't']
            || e == seq!['e', 'p', 'u', 'b'],
    ensures
        detect_file_kind_spec(path, probably_executable) == FileKind::Documents,
{
}

/// Every code extension (rs, go, py, js, tsx, jsx, java, kt, swift, c, cc, cpp, h, hpp, cs, php, rb, lua, toml, yaml, yml, json, xml, sql, sh, zsh, bash), in any ASCII letter
/// case, makes a file `Code`, whatever else is known of the file.
pub proof fn code_extensions_are_code(path: Seq<char>, probably_executable: bool, e: Seq<char>)
    requires
        normalized_extension_spec(path) == Some(e),
        e == seq!['r', 's']
            || e == seq!['g', 'o']
            || e == seq!['p', 'y']
            || e == seq!['j', 's']
            || e == seq!['t', 's', 'x']
            || e == seq!['j', 's', 'x']
            || e == seq!['j', 'a', 'v', 'a']
            || e == seq!['k', 't']
            || e == seq!['s', 'w', 'i', 'f', 't']
            || e == seq!['c']
            || e == seq!['c', 'c']
            || e == seq!['c', 'p', 'p']
            || e == seq!['h']
            || e == seq!['h', 'p', 'p']
            || e == seq!['c', 's']
            || e == seq!['p', 'h', 'p']
            || e == seq!['r', 'b']
            || e == seq!['l', 'u', 'a']
            || e == seq!['t', 'o', 'm', 'l']
            || e == seq!['y', 'a', 'm', 'l']
            || e == seq!['y', 'm', 'l']
            || e == seq!['j', 's', 'o', 'n']
            || e == seq!['x', 'm', 'l']
            || e == seq!['s', 'q', 'l']
            || e == seq!['s', 'h']
            || e == seq!['z', 's', 'h']
            || e == seq!['b', 'a', 's', 'h'],
    ensures
        detect_file_kind_spec(path, probably_executable) == FileKind::Code,
{
    if e == seq!['r', 's'] {
        assert(e.len() == 2);
        assert(e[0] == 'r');
        assert(e[1] == 's');
    }
    if e == seq!['g', 'o'] {
        assert(e.len() == 2);
        assert(e[0] == 'g');
        assert(e[1] == 'o');
    }
    if e == seq!['p', 'y'] {
        assert(e.len() == 2);
        assert(e[0] == 'p');
        assert(e[1] == 'y');
    }
    if e == seq!['j', 's'] {
        assert(e.len() == 2);
        assert(e[0] == 'j');
        assert(e[1] == 's');
    }
    if e == seq!['t', 's', 'x'] {
        assert(e.len() == 3);
        assert(e[0] == 't');
        assert(e[1] == 's');
        assert(e[2] == 'x');
    }
    if e == seq!['j', 's', 'x'] {
        assert(e.len() == 3);
        assert(e[0] == 'j');
        assert(e[1] == 's');
        assert(e[2] == 'x');
    }
    if e == seq!['j', 'a', 'v', 'a'] {
        assert(e.len() == 4);
        assert(e[0] == 'j');
        assert(e[1] == 'a');
        assert(e[2] == 'v');
        assert(e[3] == 'a');
    }
    if e == seq!['k', 't'] {
        assert(e.len() == 2);
        assert(e[0] == 'k');
        assert(e[1] == 't');
    }
    if e == seq!['s', 'w', 'i', 'f', 't'] {
        assert(e.len() == 5);
        assert(e[0] == 's');
        assert(e[1] == 'w');
        assert(e[2] == 'i');
        assert(e[3] == 'f');
        assert(e[4] == 't');
    }
    if e == seq!['c'] {
        assert(e.len() == 1);
        assert(e[0] == 'c');
    }
    if e == seq!['c', 'c'] {
        assert(e.len() == 2);
        assert(e[0] == 'c');
        assert(e[1] == 'c');
    }
    if e == seq!['c', 'p', 'p'] {
        assert(e.len() == 3);
        assert(e[0] == 'c');
        assert(e[1] == 'p');
        assert(e[2] == 'p');
    }
    if e == seq!['h'] {
        assert(e.len() == 1);
        assert(e[0] == 'h');
    }
    if e == seq!['h', 'p', 'p'] {
        assert(e.len() == 3);
        assert(e[0] == 'h');
        assert(e[1] == 'p');
        assert(e[2] == 'p');
    }
    if e == seq!['c', 's'] {
        assert(e.len() == 2);
        assert(e[0] == 'c');
        assert(e[1] == 's');
    }
    if e == seq!['p', 'h', 'p'] {
        assert(e.len() == 3);
        assert(e[0] == 'p');
        assert(e[1] == 'h');
        assert(e[2] == 'p');
    }
    if e == seq!['r', 'b'] {
        assert(e.len() == 2);
        assert(e[0] == 'r');
        assert(e[1] == 'b');
    }
    if e == seq!['l', 'u', 'a'] {
        assert(e.len() == 3);
        assert(e[0] == 'l');
        assert(e[1] == 'u');
        assert(e[2] == 'a');
    }
    if e == seq!['t', 'o', 'm', 'l'] {
        assert(e.len() == 4);
        assert(e[0] == 't');
        assert(e[1] == 'o');
        assert(e[2] == 'm');
        assert(e[3] == 'l');
    }
    if e == seq!['y', 'a', 'm', 'l'] {
        assert(e.len() == 4);
        assert(e[0] == 'y');
        assert(e[1] == 'a');
        assert(e[2] == 'm');
        assert(e[3] == 'l');
    }
    if e == seq!['y', 'm', 'l'] {
        assert(e.len() == 3);
        assert(e[0] == 'y');
        assert(e[1] == 'm');
        assert(e[2] == 'l');
    }
    if e == seq!['j', 's', 'o', 'n'] {
        assert(e.len() == 4);
        assert(e[0] == 'j');
        assert(e[1] == 's');
        assert(e[2] == 'o');
        assert(e[3] == 'n');
    }
    if e == seq!['x', 'm', 'l'] {
        assert(e.len() == 3);
        assert(e[0] == 'x');
        assert(e[1] == 'm');
        assert(e[2] == 'l');
    }
    if e == seq!['s', 'q', 'l'] {
        assert(e.len() == 3);
        assert(e[0] == 's');
        assert(e[1] == 'q');
        assert(e[2] == 'l');
    }
    if e == seq!['s', 'h'] {
        assert(e.len() == 2);
        assert(e[0] == 's');
        assert(e[1] == 'h');
    }
    if e == seq!['z', 's', 'h'] {
        assert(e.len() == 3);
        assert(e[0] == 'z');
        assert(e[1] == 's');
        assert(e[2] == 'h');
    }
    if e == seq!['b', 'a', 's', 'h'] {
        assert(e.len() == 4);
        assert(e[0] == 'b');
        assert(e[1] == 'a');
        assert(e[2] == 's');
        assert(e[3] == 'h');
    }
}

/// A file without an extension is `Apps` exactly when it is probably
/// executable, and `Other` otherwise.
pub proof fn extensionless_files_are_apps_when_executable(path: Seq<char>, probably_executable: bool)
    requires
        normalized_extension_spec(path) is None,
    ensures
        probably_executable ==> detect_file_kind_spec(path, probably_executable) == FileKind::Apps,
        !probably_executable ==> detect_file_kind_spec(path, probably_executable) == FileKind::Other,
{
}

/// Extensions are matched whatever their ASCII letter case: a file whose
/// extension is `MP4`, `Mp4` or `MKV` is `Video`, one whose extension is
/// `JPG` is `Images`, and one whose extension is `PDF` is `Documents`.
pub proof fn extension_case_is_ignored(path: Seq<char>, probably_executable: bool, e: Seq<char>)
    requires
        crate::lexical::extension_spec(path) == Some(e),
    ensures
        e == seq!['M', 'P', '4'] || e == seq!['M', 'p', '4'] || e == seq!['M', 'K', 'V'] ==> detect_file_kind_spec(
            path,
            probably_executable,
        ) == FileKind::Video,
        e == seq!['J', 'P', 'G'] ==> detect_file_kind_spec(path, probably_executable) == FileKind::Images,
        e == seq!['P', 'D', 'F'] ==> detect_file_kind_spec(path, probably_executable) == FileKind::Documents,
{
    let lower = ascii_lower_seq(e);
    if e == seq!['M', 'P', '4'] || e == seq!['M', 'p', '4'] {
        assert(lower =~= seq!['m', 'p', '4']);
    }
    if e == seq!['M', 'K', 'V'] {
        assert(lower =~= seq!['m', 'k', 'v']);
    }
    if e == seq!['J', 'P', 'G'] {
        assert(lower =~= seq!['j', 'p', 'g']);
        assert(lower.len() == 3 && lower[0] == 'j' && lower[1] == 'p' && lower[2] == 'g');
    }
    if e == seq!['P', 'D', 'F'] {
        assert(lower =~= seq!['p', 'd', 'f']);
        assert(lower.len() == 3 && lower[0] == 'p' && lower[1] == 'd' && lower[2] == 'f');
    }
}

} // verus!

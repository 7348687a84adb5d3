//! Checks that the desktop commands make on the paths they are handed.
use vstd::prelude::*;

use crate::dto::{CommandError, CommandErrorCode};
use crate::lexical::has_root;
use crate::text::{chars_of, push_str, string_of};

verus! {

/// Whether a character has Unicode's `White_Space` property (the property
/// std's `char::is_whitespace` tests): tab, line feed, vertical tab, form
/// feed, carriage return, space, next line, no-break space, Ogham space mark,
/// the spaces from en quad to hair space, the line and paragraph separators,
/// the narrow no-break space, the medium mathematical space and the
/// ideographic space.
pub open spec fn unicode_white_space(c: char) -> bool {
    let n = c as u32;
    ||| 0x9 <= n <= 0xD
    ||| n == 0x20
    ||| n == 0x85
    ||| n == 0xA0
    ||| n == 0x1680
    ||| 0x2000 <= n <= 0x200A
    ||| n == 0x2028
    ||| n == 0x2029
    ||| n == 0x202F
    ||| n == 0x205F
    ||| n == 0x3000
}

/// Whether a character is white space (`unicode_white_space`).
fn char_is_whitespace(c: char) -> (r: bool)
    ensures
        r == unicode_white_space(c),
{
    let n = c as u32;
    (0x9 <= n && n <= 0xD) || n == 0x20 || n == 0x85 || n == 0xA0 || n == 0x1680 || (0x2000 <= n && n
        <= 0x200A) || n == 0x2028 || n == 0x2029 || n == 0x202F || n == 0x205F || n == 0x3000
}

/// `s` without its leading white space.
pub open spec fn trim_start_spec(s: Seq<char>) -> Seq<char>
    decreases s.len(),
{
    if s.len() > 0 && unicode_white_space(s[0]) {
        trim_start_spec(s.drop_first())
    } else {
        s
    }
}

/// `s` without its trailing white space.
pub open spec fn trim_end_spec(s: Seq<char>) -> Seq<char>
    decreases s.len(),
{
    if s.len() > 0 && unicode_white_space(s.last()) {
        trim_end_spec(s.drop_last())
    } else {
        s
    }
}

/// `s` without leading and trailing white space.
pub open spec fn trim_spec(s: Seq<char>) -> Seq<char> {
    trim_end_spec(trim_start_spec(s))
}

proof fn lemma_trim_start_skip(s: Seq<char>, i: int)
    requires
        0 <= i <= s.len(),
        forall|k: int| 0 <= k < i ==> unicode_white_space(#[trigger] s[k]),
    ensures
        trim_start_spec(s) == trim_start_spec(s.subrange(i, s.len() as int)),
    decreases i,
{
    if i > 0 {
        assert(unicode_white_space(s[0]));
        let t = s.drop_first();
        assert forall|k: int| 0 <= k < i - 1 implies unicode_white_space(#[trigger] t[k]) by {
            assert(t[k] == s[k + 1]);
        }
        lemma_trim_start_skip(t, i - 1);
        assert(t.subrange(i - 1, t.len() as int) =~= s.subrange(i, s.len() as int));
    } else {
        assert(s.subrange(0, s.len() as int) =~= s);
    }
}

proof fn lemma_trim_end_skip(s: Seq<char>, j: int)
    requires
        0 <= j <= s.len(),
        forall|k: int| j <= k < s.len() ==> unicode_white_space(#[trigger] s[k]),
    ensures
        trim_end_spec(s) == trim_end_spec(s.subrange(0, j)),
    decreases s.len() - j,
{
    if j < s.len() {
        assert(unicode_white_space(s.last()));
        let t = s.drop_last();
        assert forall|k: int| j <= k < t.len() implies unicode_white_space(#[trigger] t[k]) by {
            assert(t[k] == s[k]);
        }
        lemma_trim_end_skip(t, j);
        assert(t.subrange(0, j) =~= s.subrange(0, j));
    } else {
        assert(s.subrange(0, j) =~= s);
    }
}

/// A string without leading and trailing white space (std `str::trim`).
pub fn trim(s: &str) -> (r: String)
    ensures
        r@ == trim_spec(s@),
{
    let chars = chars_of(s);
    let n = chars.len();
    let mut i: usize = 0;
    while i < n && char_is_whitespace(chars[i])
        invariant
            i <= n,
            n == chars@.len(),
            forall|k: int| 0 <= k < i ==> unicode_white_space(#[trigger] chars@[k]),
        decreases n - i,
    {
        i = i + 1;
    }
    proof {
        lemma_trim_start_skip(chars@, i as int);
    }
    let ghost rest = chars@.subrange(i as int, n as int);
    assert(rest.len() == 0 || !unicode_white_space(rest[0]));
    assert(trim_start_spec(rest) == rest);
    let mut j: usize = n;
    while j > i && char_is_whitespace(chars[j - 1])
        invariant
            i <= j <= n,
            n == chars@.len(),
            forall|k: int| j <= k < n ==> unicode_white_space(#[trigger] chars@[k]),
        decreases j,
    {
        j = j - 1;
    }
    proof {
        let ghost rest_k = chars@.subrange(i as int, n as int);
        assert forall|k: int| j - i <= k < rest_k.len() implies unicode_white_space(
            #[trigger] rest_k[k],
        ) by {
            assert(rest_k[k] == chars@[k + i]);
        }
        lemma_trim_end_skip(rest_k, j - i);
        assert(rest_k.subrange(0, j - i) =~= chars@.subrange(i as int, j as int));
        let ghost kept = chars@.subrange(i as int, j as int);
        if kept.len() > 0 {
            assert(kept.last() == chars@[j - 1]);
        }
    }
    let mut out: Vec<char> = Vec::new();
    let mut k: usize = i;
    while k < j
        invariant
            i <= k <= j <= n,
            n == chars@.len(),
            out@ == chars@.subrange(i as int, k as int),
        decreases j - k,
    {
        out.push(chars[k]);
        k = k + 1;
        assert(out@ =~= chars@.subrange(i as int, k as int));
    }
    string_of(&out)
}

/// The message for a path that is not absolute.
pub open spec fn not_absolute_message(path: Seq<char>) -> Seq<char> {
    "Path must be absolute: "@ + path
}

/// What a command makes of the path it is handed before it looks at the
/// filesystem: the path without surrounding white space, which must be
/// neither empty nor relative.
pub open spec fn absolute_path_check(path: Seq<char>) -> Result<Seq<char>, (CommandErrorCode, Seq<char>)> {
    let trimmed = trim_spec(path);
    if trimmed.len() == 0 {
        Err((CommandErrorCode::InvalidRoot, "Path cannot be empty."@))
    } else if !has_root(trimmed) {
        Err((CommandErrorCode::InvalidRoot, not_absolute_message(trimmed)))
    } else {
        Ok(trimmed)
    }
}

/// `r` is what `absolute_path_check` gives.
pub open spec fn checked_as(r: Result<String, CommandError>, expected: Result<Seq<char>, (CommandErrorCode, Seq<char>)>) -> bool {
    match (r, expected) {
        (Ok(p), Ok(q)) => p@ == q,
        (Err(e), Err((code, message))) => e.code == code && e.message@ == message,
        _ => false,
    }
}

/// The path a command was handed, trimmed, and refused where it is empty
/// (`InvalidRoot`, "Path cannot be empty.") or not absolute (`InvalidRoot`,
/// "Path must be absolute: " and the path).
pub fn existing_absolute_path(path: &str) -> (r: Result<String, CommandError>)
    ensures
        checked_as(r, absolute_path_check(path@)),
{
    let trimmed = trim(path);
    let chars = chars_of(trimmed.as_str());
    if chars.len() == 0 {
        proof {
            reveal_strlit("Path cannot be empty.");
        }
        return Err(CommandError::new(CommandErrorCode::InvalidRoot, "Path cannot be empty.".to_owned()));
    }
    if !(chars[0] == '/') {
        let mut message = "Path must be absolute: ".to_owned();
        push_str(&mut message, trimmed.as_str());
        return Err(CommandError::new(CommandErrorCode::InvalidRoot, message));
    }
    Ok(trimmed)
}

/// The message for a path the filesystem refused, before the operating
/// system's text.
pub open spec fn access_message_prefix(path: Seq<char>) -> Seq<char> {
    "Cannot access "@ + path + ": "@
}

/// The outcome of resolving a checked path on the filesystem: the resolved
/// path, or an `OpenItemFailed` error whose message names the path and then
/// gives the operating system's text.
pub fn accessible_path(requested: &String, resolved: std::io::Result<String>) -> (r: Result<String, CommandError>)
    ensures
        match resolved {
            Ok(p) => r == Ok::<String, CommandError>(p),
            Err(_) => r is Err && r->Err_0.code == CommandErrorCode::OpenItemFailed
                && access_message_prefix(requested@).is_prefix_of(r->Err_0.message@),
        },
{
    match resolved {
        Ok(p) => Ok(p),
        Err(error) => {
            let mut message = "Cannot access ".to_owned();
            push_str(&mut message, requested.as_str());
            push_str(&mut message, ": ");
            let ghost prefix = message@;
            assert(prefix =~= access_message_prefix(requested@));
            let text = crate::driver::io_error_text(&error);
            push_str(&mut message, text.as_str());
            assert(prefix.is_prefix_of(message@)) by {
                assert(message@.subrange(0, prefix.len() as int) =~= prefix);
            }
            Err(CommandError::new(CommandErrorCode::OpenItemFailed, message))
        },
    }
}

} // verus!

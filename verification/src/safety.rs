//! How safe it would be to delete a path, from facts the platform reports.
use vstd::prelude::*;

use crate::driver::{DeleteSafetyClassification, DeleteSafetyFlag, PathDeleteSafety};
use crate::lexical::{
    comps_prefix, comps_view, components, components_prefix, join_path, join_spec,
    path_components, Comp, PathComponent,
};
use crate::text::string_of;

verus! {

/// The user immutable flag.
pub const USER_IMMUTABLE: u32 = 0x0000_0002;

/// The user append-only flag.
pub const USER_APPEND_ONLY: u32 = 0x0000_0004;

/// The system immutable flag.
pub const SYSTEM_IMMUTABLE: u32 = 0x0002_0000;

/// The system append-only flag.
pub const SYSTEM_APPEND_ONLY: u32 = 0x0004_0000;

/// What the platform reports of a path: its owner and group, its file flags,
/// whether its parent is writable, whether the platform says it can be deleted
/// now, and whether it is read-only. The home directory is what `HOME` holds.
#[derive(Debug, Clone, Default, PartialEq, Eq)]
pub struct PathSafetyFacts {
    pub uid: Option<u32>,
    pub gid: Option<u32>,
    pub flags: u32,
    pub parent_writable: Option<bool>,
    pub can_delete_now: Option<bool>,
    pub readonly: bool,
    pub home: Option<String>,
}

/// The components of `/System/Volumes/Data`.
pub open spec fn data_volume() -> Seq<Comp> {
    seq![
        Comp::RootDir,
        Comp::Normal(seq!['S', 'y', 's', 't', 'e', 'm']),
        Comp::Normal(seq!['V', 'o', 'l', 'u', 'm', 'e', 's']),
        Comp::Normal(seq!['D', 'a', 't', 'a']),
    ]
}

/// The path that the safety rules look at: a path on the data volume is seen
/// as the same path from `/`.
pub open spec fn policy_comps(path: Seq<char>) -> Seq<Comp> {
    let comps = components(path);
    if comps_prefix(data_volume(), comps) {
        seq![Comp::RootDir] + comps.skip(4)
    } else {
        comps
    }
}

/// `/name`.
pub open spec fn top(name: Seq<char>) -> Seq<Comp> {
    seq![Comp::RootDir, Comp::Normal(name)]
}

/// `/a/b`.
pub open spec fn top2(a: Seq<char>, b: Seq<char>) -> Seq<Comp> {
    seq![Comp::RootDir, Comp::Normal(a), Comp::Normal(b)]
}

/// Paths that the system integrity protection guards: `/System`, `/bin`,
/// `/sbin` and `/usr` with everything under them except `/usr/local`.
pub open spec fn is_sip_protected(p: Seq<Comp>) -> bool {
    comps_prefix(top(seq!['S', 'y', 's', 't', 'e', 'm']), p) || comps_prefix(
        top(seq!['b', 'i', 'n']),
        p,
    ) || comps_prefix(top(seq!['s', 'b', 'i', 'n']), p) || (comps_prefix(
        top(seq!['u', 's', 'r']),
        p,
    ) && !comps_prefix(top2(seq!['u', 's', 'r'], seq!['l', 'o', 'c', 'a', 'l']), p))
}

/// A name that marks a sensitive location.
pub open spec fn is_sensitive_name(c: Comp) -> bool {
    c == Comp::Normal(
        seq![
            'A', 'p', 'p', 'l', 'i', 'c', 'a', 't', 'i', 'o', 'n', ' ', 'S', 'u', 'p', 'p', 'o', 'r', 't',
        ],
    ) || c == Comp::Normal(seq!['K', 'e', 'y', 'c', 'h', 'a', 'i', 'n', 's']) || c == Comp::Normal(
        seq!['M', 'a', 'i', 'l'],
    )
}

/// Locations where deleting needs review: `/Applications`, `/Library`,
/// `/private/var/db`, `/var/db`, and any path through an `Application Support`,
/// `Keychains` or `Mail` folder.
pub open spec fn is_review_required(p: Seq<Comp>) -> bool {
    comps_prefix(
        top(seq!['A', 'p', 'p', 'l', 'i', 'c', 'a', 't', 'i', 'o', 'n', 's']),
        p,
    ) || comps_prefix(top(seq!['L', 'i', 'b', 'r', 'a', 'r', 'y']), p) || comps_prefix(
        seq![
            Comp::RootDir,
            Comp::Normal(seq!['p', 'r', 'i', 'v', 'a', 't', 'e']),
            Comp::Normal(seq!['v', 'a', 'r']),
            Comp::Normal(seq!['d', 'b']),
        ],
        p,
    ) || comps_prefix(top2(seq!['v', 'a', 'r'], seq!['d', 'b']), p) || exists|i: int|
        0 <= i < p.len() && is_sensitive_name(#[trigger] p[i])
}

/// `Library/Caches`.
pub open spec fn caches_dir() -> Seq<char> {
    seq!['L', 'i', 'b', 'r', 'a', 'r', 'y', '/', 'C', 'a', 'c', 'h', 'e', 's']
}

/// `Library/Logs`.
pub open spec fn logs_dir() -> Seq<char> {
    seq!['L', 'i', 'b', 'r', 'a', 'r', 'y', '/', 'L', 'o', 'g', 's']
}

/// Caches and logs under the home directory are safe to delete.
pub open spec fn is_safe_junk(p: Seq<Comp>, home: Option<Seq<char>>) -> bool {
    match home {
        None => false,
        Some(h) => comps_prefix(components(join_spec(h, caches_dir())), p) || comps_prefix(
            components(join_spec(h, logs_dir())),
            p,
        ),
    }
}

/// Owned by root, by the wheel group, or by a system account (uid below 500).
pub open spec fn is_system_owned(facts: PathSafetyFacts) -> bool {
    facts.uid == Some(0u32) || facts.gid == Some(0u32) || (facts.uid is Some && facts.uid->0
        < 500)
}

/// Whether the path can be deleted now when the platform does not say: it is
/// not read-only nor immutable, and its parent is known to be writable.
pub open spec fn fallback_can_delete(facts: PathSafetyFacts) -> bool {
    if facts.readonly || facts.flags & (USER_IMMUTABLE | SYSTEM_IMMUTABLE) != 0 {
        false
    } else {
        facts.parent_writable == Some(true)
    }
}

/// Whether the path can be deleted now: the platform's answer, else the fallback.
pub open spec fn can_delete_spec(facts: PathSafetyFacts) -> bool {
    match facts.can_delete_now {
        Some(b) => b,
        None => fallback_can_delete(facts),
    }
}

/// The flag, when its condition holds.
pub open spec fn flag_if(cond: bool, flag: DeleteSafetyFlag) -> Seq<DeleteSafetyFlag> {
    if cond {
        seq![flag]
    } else {
        seq![]
    }
}

/// The home directory's view, if any.
pub open spec fn home_view(facts: PathSafetyFacts) -> Option<Seq<char>> {
    match facts.home {
        Some(h) => Some(h@),
        None => None,
    }
}

/// The flags of a path, in a fixed order.
pub open spec fn safety_flags(path: Seq<char>, facts: PathSafetyFacts) -> Seq<DeleteSafetyFlag> {
    let p = policy_comps(path);
    flag_if(is_system_owned(facts), DeleteSafetyFlag::SystemOwned) + flag_if(
        is_sip_protected(p),
        DeleteSafetyFlag::SipProtected,
    ) + flag_if(
        facts.flags & (USER_IMMUTABLE | SYSTEM_IMMUTABLE) != 0,
        DeleteSafetyFlag::Immutable,
    ) + flag_if(
        facts.flags & (USER_APPEND_ONLY | SYSTEM_APPEND_ONLY) != 0,
        DeleteSafetyFlag::AppendOnly,
    ) + flag_if(facts.parent_writable == Some(false), DeleteSafetyFlag::ParentNotWritable)
        + flag_if(!can_delete_spec(facts), DeleteSafetyFlag::NotDeletableNow) + flag_if(
        is_safe_junk(p, home_view(facts)),
        DeleteSafetyFlag::SafeJunkRule,
    )
}

/// The classification, by the first rule that applies: system-protected paths
/// (or system-immutable files), then what cannot be deleted now, then safe
/// junk, then system-owned or sensitive locations, else user content.
pub open spec fn classification_spec(path: Seq<char>, facts: PathSafetyFacts) -> DeleteSafetyClassification {
    let p = policy_comps(path);
    if is_sip_protected(p) || facts.flags & SYSTEM_IMMUTABLE != 0 {
        DeleteSafetyClassification::ProtectedSystem
    } else if facts.flags & (USER_IMMUTABLE | SYSTEM_IMMUTABLE) != 0 || facts.flags & (
    USER_APPEND_ONLY | SYSTEM_APPEND_ONLY) != 0 || !can_delete_spec(facts) {
        DeleteSafetyClassification::NotDeletableNow
    } else if is_safe_junk(p, home_view(facts)) {
        DeleteSafetyClassification::SafeJunk
    } else if is_system_owned(facts) || is_review_required(p) {
        DeleteSafetyClassification::ReviewRequired
    } else {
        DeleteSafetyClassification::UserContent
    }
}

/// The reason shown for a classification.
pub open spec fn reason_spec(c: DeleteSafetyClassification) -> Seq<char> {
    match c {
        DeleteSafetyClassification::ProtectedSystem => seq![
            'P', 'r', 'o', 't', 'e', 'c', 't', 'e', 'd', ' ', 's', 'y', 's', 't', 'e', 'm', ' ',
            'p', 'a', 't', 'h',
        ],
        DeleteSafetyClassification::NotDeletableNow => seq![
            'N', 'o', 't', ' ', 'd', 'e', 'l', 'e', 't', 'a', 'b', 'l', 'e', ' ', 'b', 'y', ' ',
            't', 'h', 'e', ' ', 'c', 'u', 'r', 'r', 'e', 'n', 't', ' ', 'a', 'p', 'p',
        ],
        DeleteSafetyClassification::SafeJunk => seq![
            'M', 'a', 't', 'c', 'h', 'e', 'd', ' ', 's', 'a', 'f', 'e', ' ', 'j', 'u', 'n', 'k',
            ' ', 'r', 'u', 'l', 'e',
        ],
        DeleteSafetyClassification::ReviewRequired => seq![
            'S', 'y', 's', 't', 'e', 'm', '-', 'o', 'w', 'n', 'e', 'd', ' ', 'o', 'r', ' ', 's',
            'e', 'n', 's', 'i', 't', 'i', 'v', 'e', ' ', 'l', 'o', 'c', 'a', 't', 'i', 'o', 'n',
        ],
        DeleteSafetyClassification::UserContent => seq![
            'U', 's', 'e', 'r', ' ', 'c', 'o', 'n', 't', 'e', 'n', 't',
        ],
    }
}

fn normal(chars: &[char]) -> (r: PathComponent)
    ensures
        r@ == Comp::Normal(chars@),
{
    let mut v: Vec<char> = Vec::new();
    let mut i: usize = 0;
    while i < chars.len()
        invariant
            i <= chars.len(),
            v@ == chars@.take(i as int),
        decreases chars.len() - i,
    {
        v.push(chars[i]);
        i = i + 1;
        assert(v@ =~= chars@.take(i as int));
    }
    assert(chars@.take(chars.len() as int) =~= chars@);
    PathComponent::Normal(v)
}

fn top_comps(name: &[char]) -> (r: Vec<PathComponent>)
    ensures
        comps_view(r@) == top(name@),
{
    let mut r = Vec::new();
    r.push(PathComponent::RootDir);
    r.push(normal(name));
    assert(comps_view(r@) =~= top(name@));
    r
}

fn top2_comps(a: &[char], b: &[char]) -> (r: Vec<PathComponent>)
    ensures
        comps_view(r@) == top2(a@, b@),
{
    let mut r = Vec::new();
    r.push(PathComponent::RootDir);
    r.push(normal(a));
    r.push(normal(b));
    assert(comps_view(r@) =~= top2(a@, b@));
    r
}

/// The components that the safety rules look at for `path`.
pub fn policy_path(path: &str) -> (r: Vec<PathComponent>)
    ensures
        comps_view(r@) == policy_comps(path@),
{
    let mut base: Vec<PathComponent> = Vec::new();
    base.push(PathComponent::RootDir);
    base.push(normal(&['S', 'y', 's', 't', 'e', 'm']));
    base.push(normal(&['V', 'o', 'l', 'u', 'm', 'e', 's']));
    base.push(normal(&['D', 'a', 't', 'a']));
    assert(comps_view(base@) =~= data_volume());
    let comps = path_components(path);
    if components_prefix(&base, &comps) {
        let mut out: Vec<PathComponent> = Vec::new();
        out.push(PathComponent::RootDir);
        let mut i: usize = 4;
        while i < comps.len()
            invariant
                4 <= i <= comps.len(),
                comps_view(out@) == seq![Comp::RootDir] + comps_view(comps@).subrange(4, i as int),
            decreases comps.len() - i,
        {
            let ghost before = comps_view(out@);
            out.push(crate::lexical::copy_component(&comps[i]));
            assert(comps_view(out@) =~= before.push(comps@[i as int]@));
            assert(comps_view(comps@).subrange(4, i + 1) =~= comps_view(comps@).subrange(
                4,
                i as int,
            ).push(comps@[i as int]@));
            i = i + 1;
        }
        assert(comps_view(comps@).subrange(4, comps.len() as int) =~= comps_view(comps@).skip(4));
        out
    } else {
        comps
    }
}

/// Whether the system integrity protection guards the path.
pub fn is_sip_protected_path(p: &Vec<PathComponent>) -> (r: bool)
    ensures
        r == is_sip_protected(comps_view(p@)),
{
    components_prefix(&top_comps(&['S', 'y', 's', 't', 'e', 'm']), p) || components_prefix(
        &top_comps(&['b', 'i', 'n']),
        p,
    ) || components_prefix(&top_comps(&['s', 'b', 'i', 'n']), p) || (components_prefix(
        &top_comps(&['u', 's', 'r']),
        p,
    ) && !components_prefix(&top2_comps(&['u', 's', 'r'], &['l', 'o', 'c', 'a', 'l']), p))
}

fn sensitive_name(c: &PathComponent) -> (r: bool)
    ensures
        r == is_sensitive_name(c@),
{
    match c {
        PathComponent::Normal(v) => {
            let r = crate::text::eq_lit(
                v,
                &[
                    'A', 'p', 'p', 'l', 'i', 'c', 'a', 't', 'i', 'o', 'n', ' ', 'S', 'u', 'p', 'p',
                    'o', 'r', 't',
                ],
            ) || crate::text::eq_lit(v, &['K', 'e', 'y', 'c', 'h', 'a', 'i', 'n', 's'])
                || crate::text::eq_lit(v, &['M', 'a', 'i', 'l']);
            r
        },
        _ => false,
    }
}

/// Whether deleting the path needs review.
pub fn is_review_required_path(p: &Vec<PathComponent>) -> (r: bool)
    ensures
        r == is_review_required(comps_view(p@)),
{
    if components_prefix(
        &top_comps(&['A', 'p', 'p', 'l', 'i', 'c', 'a', 't', 'i', 'o', 'n', 's']),
        p,
    ) || components_prefix(&top_comps(&['L', 'i', 'b', 'r', 'a', 'r', 'y']), p) {
        return true;
    }
    let mut pvd: Vec<PathComponent> = Vec::new();
    pvd.push(PathComponent::RootDir);
    pvd.push(normal(&['p', 'r', 'i', 'v', 'a', 't', 'e']));
    pvd.push(normal(&['v', 'a', 'r']));
    pvd.push(normal(&['d', 'b']));
    assert(comps_view(pvd@) =~= seq![
        Comp::RootDir,
        Comp::Normal(seq!['p', 'r', 'i', 'v', 'a', 't', 'e']),
        Comp::Normal(seq!['v', 'a', 'r']),
        Comp::Normal(seq!['d', 'b']),
    ]);
    if components_prefix(&pvd, p) || components_prefix(&top2_comps(&['v', 'a', 'r'], &['d', 'b']), p) {
        return true;
    }
    let mut i: usize = 0;
    while i < p.len()
        invariant
            i <= p.len(),
            forall|j: int| 0 <= j < i ==> !is_sensitive_name(#[trigger] comps_view(p@)[j]),
        decreases p.len() - i,
    {
        if sensitive_name(&p[i]) {
            assert(is_sensitive_name(comps_view(p@)[i as int]));
            return true;
        }
        i = i + 1;
    }
    false
}

/// Whether the path holds caches or logs under the home directory.
pub fn is_safe_junk_path(p: &Vec<PathComponent>, home: &Option<String>) -> (r: bool)
    ensures
        r == is_safe_junk(
            comps_view(p@),
            match home {
                Some(h) => Some(h@),
                None => None,
            },
        ),
{
    match home {
        None => false,
        Some(h) => {
            let caches_chars: Vec<char> = vec![
                'L', 'i', 'b', 'r', 'a', 'r', 'y', '/', 'C', 'a', 'c', 'h', 'e', 's',
            ];
            let logs_chars: Vec<char> = vec!['L', 'i', 'b', 'r', 'a', 'r', 'y', '/', 'L', 'o', 'g', 's'];
            let caches = string_of(&caches_chars);
            let logs = string_of(&logs_chars);
            assert(caches@ =~= caches_dir());
            assert(logs@ =~= logs_dir());
            let caches_path = join_path(h, &caches);
            let logs_path = join_path(h, &logs);
            components_prefix(&path_components(&caches_path), p) || components_prefix(
                &path_components(&logs_path),
                p,
            )
        },
    }
}

/// Whether the path belongs to the system.
pub fn is_system_owned_facts(facts: &PathSafetyFacts) -> (r: bool)
    ensures
        r == is_system_owned(*facts),
{
    facts.uid == Some(0u32) || facts.gid == Some(0u32) || match facts.uid {
        Some(uid) => uid < 500,
        None => false,
    }
}

/// Whether the path can be deleted now when the platform does not say.
pub fn fallback_can_delete_now(facts: &PathSafetyFacts) -> (r: bool)
    ensures
        r == fallback_can_delete(*facts),
{
    if facts.readonly || facts.flags & (USER_IMMUTABLE | SYSTEM_IMMUTABLE) != 0 {
        return false;
    }
    match facts.parent_writable {
        Some(b) => b,
        None => false,
    }
}

fn push_flag_if(flags: &mut Vec<DeleteSafetyFlag>, cond: bool, flag: DeleteSafetyFlag)
    ensures
        final(flags)@ == old(flags)@ + flag_if(cond, flag),
{
    if cond {
        flags.push(flag);
    }
    assert(flags@ =~= old(flags)@ + flag_if(cond, flag));
}

/// Classifies how safe deleting `path` would be, from the facts the platform
/// reports about it.
pub fn classify_path_safety_from_facts(path: &str, facts: PathSafetyFacts) -> (r: PathDeleteSafety)
    ensures
        r.classification == classification_spec(path@, facts),
        r.can_delete_now == can_delete_spec(facts),
        r.flags@ == safety_flags(path@, facts),
        r.reason@ == reason_spec(r.classification),
{
    let policy = policy_path(path);
    let sip_protected = is_sip_protected_path(&policy);
    let system_owned = is_system_owned_facts(&facts);
    let immutable = facts.flags & (USER_IMMUTABLE | SYSTEM_IMMUTABLE) != 0;
    let append_only = facts.flags & (USER_APPEND_ONLY | SYSTEM_APPEND_ONLY) != 0;
    let safe_junk = is_safe_junk_path(&policy, &facts.home);
    let review_path = is_review_required_path(&policy);
    let can_delete_now = match facts.can_delete_now {
        Some(b) => b,
        None => fallback_can_delete_now(&facts),
    };
    let mut flags: Vec<DeleteSafetyFlag> = Vec::new();
    push_flag_if(&mut flags, system_owned, DeleteSafetyFlag::SystemOwned);
    push_flag_if(&mut flags, sip_protected, DeleteSafetyFlag::SipProtected);
    push_flag_if(&mut flags, immutable, DeleteSafetyFlag::Immutable);
    push_flag_if(&mut flags, append_only, DeleteSafetyFlag::AppendOnly);
    push_flag_if(
        &mut flags,
        facts.parent_writable == Some(false),
        DeleteSafetyFlag::ParentNotWritable,
    );
    push_flag_if(&mut flags, !can_delete_now, DeleteSafetyFlag::NotDeletableNow);
    push_flag_if(&mut flags, safe_junk, DeleteSafetyFlag::SafeJunkRule);
    let classification = if sip_protected || facts.flags & SYSTEM_IMMUTABLE != 0 {
        DeleteSafetyClassification::ProtectedSystem
    } else if immutable || append_only || !can_delete_now {
        DeleteSafetyClassification::NotDeletableNow
    } else if safe_junk {
        DeleteSafetyClassification::SafeJunk
    } else if system_owned || review_path {
        DeleteSafetyClassification::ReviewRequired
    } else {
        DeleteSafetyClassification::UserContent
    };
    let reason_chars: Vec<char> = match classification {
        DeleteSafetyClassification::ProtectedSystem => vec![
            'P', 'r', 'o', 't', 'e', 'c', 't', 'e', 'd', ' ', 's', 'y', 's', 't', 'e', 'm', ' ',
            'p', 'a', 't', 'h',
        ],
        DeleteSafetyClassification::NotDeletableNow => vec![
            'N', 'o', 't', ' ', 'd', 'e', 'l', 'e', 't', 'a', 'b', 'l', 'e', ' ', 'b', 'y', ' ',
            't', 'h', 'e', ' ', 'c', 'u', 'r', 'r', 'e', 'n', 't', ' ', 'a', 'p', 'p',
        ],
        DeleteSafetyClassification::SafeJunk => vec![
            'M', 'a', 't', 'c', 'h', 'e', 'd', ' ', 's', 'a', 'f', 'e', ' ', 'j', 'u', 'n', 'k',
            ' ', 'r', 'u', 'l', 'e',
        ],
        DeleteSafetyClassification::ReviewRequired => vec![
            'S', 'y', 's', 't', 'e', 'm', '-', 'o', 'w', 'n', 'e', 'd', ' ', 'o', 'r', ' ', 's',
            'e', 'n', 's', 'i', 't', 'i', 'v', 'e', ' ', 'l', 'o', 'c', 'a', 't', 'i', 'o', 'n',
        ],
        DeleteSafetyClassification::UserContent => vec![
            'U', 's', 'e', 'r', ' ', 'c', 'o', 'n', 't', 'e', 'n', 't',
        ],
    };
    assert(reason_chars@ =~= reason_spec(classification));
    let reason = string_of(&reason_chars);
    assert(flags@ =~= safety_flags(path@, facts));
    PathDeleteSafety { classification, can_delete_now, flags, reason }
}

/// A protected system path is classified as protected whatever else holds of
/// it: system protection takes precedence over every other rule.
pub proof fn sip_paths_are_protected(path: Seq<char>, facts: PathSafetyFacts)
    requires
        is_sip_protected(policy_comps(path)),
    ensures
        classification_spec(path, facts) == DeleteSafetyClassification::ProtectedSystem,
        safety_flags(path, facts).contains(DeleteSafetyFlag::SipProtected),
{
    let f = safety_flags(path, facts);
    let k = flag_if(is_system_owned(facts), DeleteSafetyFlag::SystemOwned).len();
    assert(f[k as int] == DeleteSafetyFlag::SipProtected);
}

/// Only a path that can be deleted now is ever classified as user content or
/// safe junk.
pub proof fn deletable_classes_require_deletability(path: Seq<char>, facts: PathSafetyFacts)
    ensures
        classification_spec(path, facts) == DeleteSafetyClassification::UserContent
            || classification_spec(path, facts) == DeleteSafetyClassification::SafeJunk
            ==> can_delete_spec(facts),
{
}

/// A path on the data volume is judged as the same path from the root.
pub proof fn data_volume_paths_use_root_rules(path: Seq<char>)
    requires
        comps_prefix(data_volume(), components(path)),
    ensures
        policy_comps(path) == seq![Comp::RootDir] + components(path).skip(4),
{
}

/// Whether Unix permissions let the current user create and remove entries
/// in a directory (write and search permission): always for the superuser;
/// otherwise by the owner's bits when the user owns it, by the group's when
/// the group matches, else by the others' bits.
pub open spec fn write_execute_allowed(mode: u32, owner_uid: u32, owner_gid: u32, uid: u32, gid: u32) -> bool {
    if uid == 0 {
        true
    } else if owner_uid == uid {
        mode & 0o300 == 0o300
    } else if owner_gid == gid {
        mode & 0o030 == 0o030
    } else {
        mode & 0o003 == 0o003
    }
}

/// Whether a directory's mode, owner and group let the user `uid` in group
/// `gid` write to it (`write_execute_allowed`).
pub fn mode_allows_write_execute(mode: u32, owner_uid: u32, owner_gid: u32, uid: u32, gid: u32) -> (r: bool)
    ensures
        r == write_execute_allowed(mode, owner_uid, owner_gid, uid, gid),
{
    if uid == 0 {
        return true;
    }
    if owner_uid == uid {
        return mode & 0o300 == 0o300;
    }
    if owner_gid == gid {
        return mode & 0o030 == 0o030;
    }
    mode & 0o003 == 0o003
}

/// Whether a file's mode marks it executable for anyone.
pub fn mode_is_executable(mode: u32) -> (r: bool)
    ensures
        r == (mode & 0o111 != 0),
{
    mode & 0o111 != 0
}


/// A path at or under `/name` has `name` as its second component, and lies
/// under no other top folder.
proof fn lemma_second_component(c: Seq<Comp>, name: Seq<char>)
    requires
        comps_prefix(top(name), c),
    ensures
        c.len() >= 2,
        c[0] == Comp::RootDir,
        c[1] == Comp::Normal(name),
        forall|n: Seq<char>| #[trigger] comps_prefix(top(n), c) ==> n == name,
{
    assert(c.take(2)[1] == c[1]);
    assert(c.take(2)[0] == c[0]);
    assert forall|n: Seq<char>| #[trigger] comps_prefix(top(n), c) implies n == name by {
        assert(c.take(2)[1] == c[1]);
        assert(top(n)[1] == Comp::Normal(n));
        assert(top(name)[1] == Comp::Normal(name));
    }
}

/// `/Applications`, `/Library`, `/var/db` and `/private/var/db`, and
/// everything under them, need review: such a path that can be deleted now,
/// has no immutable or append-only flag and matches no home-directory rule is
/// `ReviewRequired`, never `UserContent`, whoever owns it.
pub proof fn system_locations_need_review(path: Seq<char>, facts: PathSafetyFacts)
    requires
        comps_prefix(seq![Comp::RootDir, Comp::Normal(seq!['A', 'p', 'p', 'l', 'i', 'c', 'a', 't', 'i', 'o', 'n', 's'])], components(path))
            || comps_prefix(seq![Comp::RootDir, Comp::Normal(seq!['L', 'i', 'b', 'r', 'a', 'r', 'y'])], components(path))
            || comps_prefix(seq![Comp::RootDir, Comp::Normal(seq!['v', 'a', 'r']), Comp::Normal(seq!['d', 'b'])], components(path))
            || comps_prefix(seq![Comp::RootDir, Comp::Normal(seq!['p', 'r', 'i', 'v', 'a', 't', 'e']), Comp::Normal(seq!['v', 'a', 'r']), Comp::Normal(seq!['d', 'b'])], components(path)),
        facts.flags == 0,
        facts.can_delete_now == Some(true),
        facts.home is None,
    ensures
        classification_spec(path, facts) == DeleteSafetyClassification::ReviewRequired,
{
    lemma_no_flags(facts.flags);
    let c = components(path);
    let first = if comps_prefix(top(seq!['A', 'p', 'p', 'l', 'i', 'c', 'a', 't', 'i', 'o', 'n', 's']), c) {
        seq!['A', 'p', 'p', 'l', 'i', 'c', 'a', 't', 'i', 'o', 'n', 's']
    } else if comps_prefix(top(seq!['L', 'i', 'b', 'r', 'a', 'r', 'y']), c) {
        seq!['L', 'i', 'b', 'r', 'a', 'r', 'y']
    } else if c.len() >= 3 && c.take(3) == seq![Comp::RootDir, Comp::Normal(seq!['v', 'a', 'r']), Comp::Normal(seq!['d', 'b'])] {
        seq!['v', 'a', 'r']
    } else {
        seq!['p', 'r', 'i', 'v', 'a', 't', 'e']
    };
    if c.len() >= 3 && c.take(3) == seq![Comp::RootDir, Comp::Normal(seq!['v', 'a', 'r']), Comp::Normal(seq!['d', 'b'])] {
        assert(c.take(2) =~= c.take(3).take(2));
        assert(c.take(3).take(2) =~= top(seq!['v', 'a', 'r']));
    }
    if c.len() >= 4 && c.take(4) == seq![
        Comp::RootDir,
        Comp::Normal(seq!['p', 'r', 'i', 'v', 'a', 't', 'e']),
        Comp::Normal(seq!['v', 'a', 'r']),
        Comp::Normal(seq!['d', 'b']),
    ] {
        assert(c.take(2) =~= c.take(4).take(2));
        assert(c.take(4).take(2) =~= top(seq!['p', 'r', 'i', 'v', 'a', 't', 'e']));
    }
    assert(comps_prefix(top(first), c));
    lemma_second_component(c, first);
    assert(first[0] != 'S' && first[0] != 'b' && first[0] != 's' && first[0] != 'u');
    assert(!comps_prefix(data_volume(), c)) by {
        if comps_prefix(data_volume(), c) {
            assert(c.take(4)[1] == c[1]);
            assert(data_volume()[1] == Comp::Normal(seq!['S', 'y', 's', 't', 'e', 'm']));
        }
    }
    assert(policy_comps(path) == c);
    assert(!is_sip_protected(c)) by {
        if comps_prefix(top(seq!['S', 'y', 's', 't', 'e', 'm']), c) { assert(seq!['S', 'y', 's', 't', 'e', 'm'][0] == 'S'); }
        if comps_prefix(top(seq!['b', 'i', 'n']), c) { assert(seq!['b', 'i', 'n'][0] == 'b'); }
        if comps_prefix(top(seq!['s', 'b', 'i', 'n']), c) { assert(seq!['s', 'b', 'i', 'n'][0] == 's'); }
        if comps_prefix(top(seq!['u', 's', 'r']), c) { assert(seq!['u', 's', 'r'][0] == 'u'); }
    }
    assert(is_review_required(c));
}

/// The immutable and append-only flags are all clear in an empty flag set.
proof fn lemma_no_flags(flags: u32)
    requires
        flags == 0,
    ensures
        flags & SYSTEM_IMMUTABLE == 0,
        flags & (USER_IMMUTABLE | SYSTEM_IMMUTABLE) == 0,
        flags & (USER_APPEND_ONLY | SYSTEM_APPEND_ONLY) == 0,
{
    assert(flags & 0x0002_0000u32 == 0) by (bit_vector)
        requires
            flags == 0;
    assert(flags & (0x0000_0002u32 | 0x0002_0000u32) == 0) by (bit_vector)
        requires
            flags == 0;
    assert(flags & (0x0000_0004u32 | 0x0004_0000u32) == 0) by (bit_vector)
        requires
            flags == 0;
}


/// A path under a longer base that starts at the root lies under the base's
/// top folder.
proof fn lemma_prefix_top(c: Seq<Comp>, base: Seq<Comp>, n: Seq<char>)
    requires
        comps_prefix(base, c),
        base.len() >= 2,
        base[0] == Comp::RootDir,
        base[1] == Comp::Normal(n),
    ensures
        comps_prefix(top(n), c),
{
    assert(c.take(2) =~= c.take(base.len() as int).take(2));
    assert(base.take(2) =~= top(n));
}

/// A path under `/Users` is judged as it is (the data-volume rule does not
/// apply), is not system-protected, and lies under none of `/Applications`,
/// `/Library`, `/var/db` and `/private/var/db`.
proof fn lemma_users_path(c: Seq<Comp>)
    requires
        comps_prefix(top(seq!['U', 's', 'e', 'r', 's']), c),
    ensures
        !comps_prefix(data_volume(), c),
        !is_sip_protected(c),
        !comps_prefix(top(seq!['A', 'p', 'p', 'l', 'i', 'c', 'a', 't', 'i', 'o', 'n', 's']), c),
        !comps_prefix(top(seq!['L', 'i', 'b', 'r', 'a', 'r', 'y']), c),
        !comps_prefix(top2(seq!['v', 'a', 'r'], seq!['d', 'b']), c),
        !comps_prefix(
            seq![
                Comp::RootDir,
                Comp::Normal(seq!['p', 'r', 'i', 'v', 'a', 't', 'e']),
                Comp::Normal(seq!['v', 'a', 'r']),
                Comp::Normal(seq!['d', 'b']),
            ],
            c,
        ),
{
    lemma_second_component(c, seq!['U', 's', 'e', 'r', 's']);
    assert(seq!['U', 's', 'e', 'r', 's'][0] == 'U');
    if comps_prefix(data_volume(), c) {
        lemma_prefix_top(c, data_volume(), seq!['S', 'y', 's', 't', 'e', 'm']);
        assert(seq!['S', 'y', 's', 't', 'e', 'm'][0] == 'S');
    }
    if comps_prefix(top(seq!['S', 'y', 's', 't', 'e', 'm']), c) { assert(seq!['S', 'y', 's', 't', 'e', 'm'][0] == 'S'); }
    if comps_prefix(top(seq!['b', 'i', 'n']), c) { assert(seq!['b', 'i', 'n'][0] == 'b'); }
    if comps_prefix(top(seq!['s', 'b', 'i', 'n']), c) { assert(seq!['s', 'b', 'i', 'n'][0] == 's'); }
    if comps_prefix(top(seq!['u', 's', 'r']), c) { assert(seq!['u', 's', 'r'][0] == 'u'); }
    if comps_prefix(top(seq!['A', 'p', 'p', 'l', 'i', 'c', 'a', 't', 'i', 'o', 'n', 's']), c) { assert(seq!['A', 'p', 'p', 'l', 'i', 'c', 'a', 't', 'i', 'o', 'n', 's'][0] == 'A'); }
    if comps_prefix(top(seq!['L', 'i', 'b', 'r', 'a', 'r', 'y']), c) { assert(seq!['L', 'i', 'b', 'r', 'a', 'r', 'y'][0] == 'L'); }
    if comps_prefix(top2(seq!['v', 'a', 'r'], seq!['d', 'b']), c) {
        lemma_prefix_top(c, top2(seq!['v', 'a', 'r'], seq!['d', 'b']), seq!['v', 'a', 'r']);
        assert(seq!['v', 'a', 'r'][0] == 'v');
    }
    let pvd = seq![
        Comp::RootDir,
        Comp::Normal(seq!['p', 'r', 'i', 'v', 'a', 't', 'e']),
        Comp::Normal(seq!['v', 'a', 'r']),
        Comp::Normal(seq!['d', 'b']),
    ];
    if comps_prefix(pvd, c) {
        lemma_prefix_top(c, pvd, seq!['p', 'r', 'i', 'v', 'a', 't', 'e']);
        assert(seq!['p', 'r', 'i', 'v', 'a', 't', 'e'][0] == 'p');
    }
}

/// A path that passes through an `Application Support`, `Keychains` or
/// `Mail` folder (here, under `/Users`) needs review: when it can be deleted
/// now, has no immutable or append-only flag and matches no home-directory
/// rule, it is `ReviewRequired`, never `UserContent`.
pub proof fn sensitive_folders_need_review(path: Seq<char>, facts: PathSafetyFacts, i: int)
    requires
        comps_prefix(top(seq!['U', 's', 'e', 'r', 's']), components(path)),
        0 <= i < components(path).len(),
        components(path)[i] == Comp::Normal(seq!['A', 'p', 'p', 'l', 'i', 'c', 'a', 't', 'i', 'o', 'n', ' ', 'S', 'u', 'p', 'p', 'o', 'r', 't']) || components(path)[i] == Comp::Normal(seq!['K', 'e', 'y', 'c', 'h', 'a', 'i', 'n', 's'])
            || components(path)[i] == Comp::Normal(seq!['M', 'a', 'i', 'l']),
        facts.flags == 0,
        facts.can_delete_now == Some(true),
        facts.home is None,
    ensures
        classification_spec(path, facts) == DeleteSafetyClassification::ReviewRequired,
{
    lemma_no_flags(facts.flags);
    let c = components(path);
    lemma_users_path(c);
    assert(policy_comps(path) == c);
    assert(is_sensitive_name(c[i]));
}

/// Everything else a user owns is user content: a path under `/Users`
/// through no `Application Support`, `Keychains` or `Mail` folder, owned by
/// a user account (uid 500 or more) outside the wheel group, with no
/// immutable or append-only flag, that can be deleted now and matches no
/// home-directory rule, is `UserContent`.
pub proof fn user_files_are_user_content(path: Seq<char>, facts: PathSafetyFacts)
    requires
        comps_prefix(top(seq!['U', 's', 'e', 'r', 's']), components(path)),
        forall|i: int|
            0 <= i < components(path).len() ==> #[trigger] components(path)[i] != Comp::Normal(seq!['A', 'p', 'p', 'l', 'i', 'c', 'a', 't', 'i', 'o', 'n', ' ', 'S', 'u', 'p', 'p', 'o', 'r', 't'])
                && components(path)[i] != Comp::Normal(seq!['K', 'e', 'y', 'c', 'h', 'a', 'i', 'n', 's']) && components(path)[i] != Comp::Normal(seq!['M', 'a', 'i', 'l']),
        facts.uid matches Some(u) && u >= 500,
        facts.gid matches Some(g) && g != 0,
        facts.flags == 0,
        facts.can_delete_now == Some(true),
        facts.home is None,
    ensures
        classification_spec(path, facts) == DeleteSafetyClassification::UserContent,
{
    lemma_no_flags(facts.flags);
    let c = components(path);
    lemma_users_path(c);
    assert(policy_comps(path) == c);
    assert(!is_review_required(c));
}

/// `/bin`, `/sbin` and `/usr` (outside `/usr/local`), and everything under
/// them, are protected system paths whatever else holds of them; so is
/// `/System` outside its data volume.
pub proof fn system_paths_are_protected(path: Seq<char>, facts: PathSafetyFacts)
    requires
        comps_prefix(top(seq!['b', 'i', 'n']), components(path))
            || comps_prefix(top(seq!['s', 'b', 'i', 'n']), components(path))
            || (comps_prefix(top(seq!['u', 's', 'r']), components(path)) && !comps_prefix(
            top2(seq!['u', 's', 'r'], seq!['l', 'o', 'c', 'a', 'l']),
            components(path),
        ))
            || (comps_prefix(top(seq!['S', 'y', 's', 't', 'e', 'm']), components(path)) && !comps_prefix(
            data_volume(),
            components(path),
        )),
    ensures
        classification_spec(path, facts) == DeleteSafetyClassification::ProtectedSystem,
{
    let c = components(path);
    if comps_prefix(data_volume(), c) {
        lemma_prefix_top(c, data_volume(), seq!['S', 'y', 's', 't', 'e', 'm']);
        lemma_second_component(c, seq!['S', 'y', 's', 't', 'e', 'm']);
        assert(seq!['S', 'y', 's', 't', 'e', 'm'][0] == 'S');
        assert(seq!['b', 'i', 'n'][0] == 'b');
        assert(seq!['s', 'b', 'i', 'n'][0] == 's');
        assert(seq!['u', 's', 'r'][0] == 'u');
    }
    assert(policy_comps(path) == c);
}

/// `/usr/local` is not protected: a path under it that can be deleted now,
/// with no immutable or append-only flag, is never `ProtectedSystem`.
pub proof fn usr_local_is_not_protected(path: Seq<char>, facts: PathSafetyFacts)
    requires
        comps_prefix(top2(seq!['u', 's', 'r'], seq!['l', 'o', 'c', 'a', 'l']), components(path)),
        facts.flags == 0,
        facts.can_delete_now == Some(true),
    ensures
        classification_spec(path, facts) != DeleteSafetyClassification::ProtectedSystem,
{
    lemma_no_flags(facts.flags);
    let c = components(path);
    lemma_prefix_top(c, top2(seq!['u', 's', 'r'], seq!['l', 'o', 'c', 'a', 'l']), seq!['u', 's', 'r']);
    lemma_second_component(c, seq!['u', 's', 'r']);
    assert(seq!['u', 's', 'r'][0] == 'u');
    if comps_prefix(data_volume(), c) {
        lemma_prefix_top(c, data_volume(), seq!['S', 'y', 's', 't', 'e', 'm']);
        assert(seq!['S', 'y', 's', 't', 'e', 'm'][0] == 'S');
    }
    assert(policy_comps(path) == c);
    if comps_prefix(top(seq!['S', 'y', 's', 't', 'e', 'm']), c) { assert(seq!['S', 'y', 's', 't', 'e', 'm'][0] == 'S'); }
    if comps_prefix(top(seq!['b', 'i', 'n']), c) { assert(seq!['b', 'i', 'n'][0] == 'b'); }
    if comps_prefix(top(seq!['s', 'b', 'i', 'n']), c) { assert(seq!['s', 'b', 'i', 'n'][0] == 's'); }
}

} // verus!

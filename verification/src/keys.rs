//! Text keys for paths: two paths get the same key exactly when they have the
//! same components, so a path can be looked up in a string-keyed map.
use vstd::prelude::*;

use crate::lexical::{components, comps_view, path_components, Comp, PathComponent};
use crate::text::{
    chars_of, decimal, lemma_decimal_injective, lemma_decimal_no_colon, push_char, push_chars,
    push_decimal,
};

verus! {

/// `s` preceded by its length in decimal and a colon.
pub open spec fn framed(s: Seq<char>) -> Seq<char> {
    decimal(s.len()) + seq![':'] + s
}

/// The key of one component.
pub open spec fn comp_key(c: Comp) -> Seq<char> {
    match c {
        Comp::RootDir => seq!['/'],
        Comp::CurDir => seq!['.'],
        Comp::ParentDir => seq!['^'],
        Comp::Normal(name) => seq!['#'] + framed(name),
    }
}

/// The key of a sequence of components: the keys of its components in order.
pub open spec fn comps_key(cs: Seq<Comp>) -> Seq<char>
    decreases cs.len(),
{
    if cs.len() == 0 {
        Seq::empty()
    } else {
        comp_key(cs[0]) + comps_key(cs.skip(1))
    }
}

/// The key of a path under a configuration fingerprint.
pub open spec fn path_key_spec(path: Seq<char>, fingerprint: Seq<char>) -> Seq<char> {
    framed(fingerprint) + comps_key(components(path))
}

/// A framed text, and what follows it, can be read back.
pub proof fn lemma_framed_unique(a: Seq<char>, ra: Seq<char>, b: Seq<char>, rb: Seq<char>)
    requires
        framed(a) + ra == framed(b) + rb,
    ensures
        a == b,
        ra == rb,
{
    let da = decimal(a.len());
    let db = decimal(b.len());
    let x = framed(a) + ra;
    let y = framed(b) + rb;
    lemma_decimal_no_colon(a.len());
    lemma_decimal_no_colon(b.len());
    assert(x[da.len() as int] == ':');
    assert(y[db.len() as int] == ':');
    if da.len() < db.len() {
        assert(y[da.len() as int] == db[da.len() as int]);
        assert(false);
    }
    if db.len() < da.len() {
        assert(x[db.len() as int] == da[db.len() as int]);
        assert(false);
    }
    assert(da =~= x.subrange(0, da.len() as int));
    assert(db =~= y.subrange(0, db.len() as int));
    lemma_decimal_injective(a.len(), b.len());
    let start: int = da.len() as int + 1;
    assert(a =~= x.subrange(start, start + a.len()));
    assert(b =~= y.subrange(start, start + b.len()));
    assert(ra =~= x.subrange(start + a.len(), x.len() as int));
    assert(rb =~= y.subrange(start + b.len(), y.len() as int));
}

/// Different component sequences have different keys.
pub proof fn lemma_comps_key_injective(a: Seq<Comp>, b: Seq<Comp>)
    requires
        comps_key(a) == comps_key(b),
    ensures
        a == b,
    decreases a.len(),
{
    if a.len() == 0 && b.len() == 0 {
        assert(a =~= b);
    } else if a.len() == 0 {
        assert(comps_key(b).len() >= 1) by {
            assert(comp_key(b[0]).len() >= 1);
        }
    } else if b.len() == 0 {
        assert(comps_key(a).len() >= 1) by {
            assert(comp_key(a[0]).len() >= 1);
        }
    } else {
        let ka = comp_key(a[0]);
        let kb = comp_key(b[0]);
        let ra = comps_key(a.skip(1));
        let rb = comps_key(b.skip(1));
        assert(comps_key(a) == ka + ra);
        assert(comps_key(b) == kb + rb);
        assert((ka + ra)[0] == ka[0]);
        assert((kb + rb)[0] == kb[0]);
        match (a[0], b[0]) {
            (Comp::Normal(na), Comp::Normal(nb)) => {
                assert((ka + ra).skip(1) =~= framed(na) + ra);
                assert((kb + rb).skip(1) =~= framed(nb) + rb);
                lemma_framed_unique(na, ra, nb, rb);
            },
            (Comp::Normal(na), _) => {
                assert(false);
            },
            (_, Comp::Normal(nb)) => {
                assert(false);
            },
            _ => {
                assert(ka.len() == 1 && kb.len() == 1);
                assert(ka =~= kb);
                assert((ka + ra).skip(1) =~= ra);
                assert((kb + rb).skip(1) =~= rb);
            },
        }
        lemma_comps_key_injective(a.skip(1), b.skip(1));
        assert(a =~= seq![a[0]] + a.skip(1));
        assert(b =~= seq![b[0]] + b.skip(1));
    }
}

/// Two keys are equal exactly when the paths have the same components and the
/// fingerprints are equal.
pub proof fn lemma_path_key_unique(p: Seq<char>, f: Seq<char>, q: Seq<char>, g: Seq<char>)
    ensures
        path_key_spec(p, f) == path_key_spec(q, g) <==> (components(p) == components(q) && f == g),
{
    if path_key_spec(p, f) == path_key_spec(q, g) {
        lemma_framed_unique(f, comps_key(components(p)), g, comps_key(components(q)));
        lemma_comps_key_injective(components(p), components(q));
    }
}

fn push_comp_key(out: &mut String, c: &PathComponent)
    ensures
        final(out)@ == old(out)@ + comp_key(c@),
{
    match c {
        PathComponent::RootDir => {
            push_char(out, '/');
            assert(final(out)@ =~= old(out)@ + comp_key(c@));
        },
        PathComponent::CurDir => {
            push_char(out, '.');
            assert(final(out)@ =~= old(out)@ + comp_key(c@));
        },
        PathComponent::ParentDir => {
            push_char(out, '^');
            assert(final(out)@ =~= old(out)@ + comp_key(c@));
        },
        PathComponent::Normal(name) => {
            push_char(out, '#');
            push_decimal(out, name.len() as u64);
            push_char(out, ':');
            push_chars(out, name);
            assert(final(out)@ =~= old(out)@ + comp_key(c@));
        },
    }
}

proof fn lemma_comps_key_push(cs: Seq<Comp>, c: Comp)
    ensures
        comps_key(cs.push(c)) == comps_key(cs) + comp_key(c),
    decreases cs.len(),
{
    if cs.len() == 0 {
        assert(cs.push(c).skip(1) =~= Seq::<Comp>::empty());
        assert(cs.push(c)[0] == c);
        assert(comps_key(cs.push(c).skip(1)) == Seq::<char>::empty());
        assert(comps_key(cs.push(c)) =~= comps_key(cs) + comp_key(c));
    } else {
        lemma_comps_key_push(cs.skip(1), c);
        assert(cs.push(c).skip(1) =~= cs.skip(1).push(c));
        assert(cs.push(c)[0] == cs[0]);
        let h = comp_key(cs[0]);
        let t = comps_key(cs.skip(1));
        assert(comps_key(cs.push(c)) == h + (t + comp_key(c)));
        assert(comps_key(cs) == h + t);
        assert(h + (t + comp_key(c)) =~= (h + t) + comp_key(c));
    }
}

/// The key under which a path is filed for a configuration fingerprint.
pub fn path_key(path: &str, fingerprint: &str) -> (r: String)
    ensures
        r@ == path_key_spec(path@, fingerprint@),
{
    let comps = path_components(path);
    let mut out = String::new();
    let fp = chars_of(fingerprint);
    push_decimal(&mut out, fp.len() as u64);
    push_char(&mut out, ':');
    push_chars(&mut out, &fp);
    assert(out@ =~= framed(fingerprint@));
    let mut i: usize = 0;
    while i < comps.len()
        invariant
            i <= comps@.len(),
            out@ == framed(fingerprint@) + comps_key(comps_view(comps@).take(i as int)),
        decreases comps.len() - i,
    {
        proof {
            lemma_comps_key_push(comps_view(comps@).take(i as int), comps@[i as int]@);
            assert(comps_view(comps@).take(i + 1) =~= comps_view(comps@).take(i as int).push(
                comps@[i as int]@,
            ));
        }
        push_comp_key(&mut out, &comps[i]);
        i = i + 1;
    }
    assert(comps_view(comps@).take(i as int) =~= comps_view(comps@));
    out
}

} // verus!

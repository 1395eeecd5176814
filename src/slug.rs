//! Slugs: the URL-safe identifier of a document, derived from its file name.

use vstd::prelude::*;
use crate::text::{chars_of, string_of};

verus! {

/// A character that may stand in a slug besides the hyphen.
pub open spec fn is_slug_char(c: char) -> bool {
    ('a' <= c && c <= 'z') || ('0' <= c && c <= '9')
}

/// ASCII lowercasing of one character; every other character is kept.
pub open spec fn lower_ascii(c: char) -> char {
    if 'A' <= c && c <= 'Z' {
        ((c as u32) + 32) as char
    } else {
        c
    }
}

/// A character that survives sanitizing (after lowering).
pub open spec fn kept(c: char) -> bool {
    is_slug_char(lower_ascii(c))
}

/// Scans `s` left to right: the lowered runs of kept characters joined by
/// single hyphens, and whether a separator is pending after the last run.
pub open spec fn slug_scan(s: Seq<char>) -> (Seq<char>, bool)
    decreases s.len(),
{
    if s.len() == 0 {
        (Seq::empty(), false)
    } else {
        let prev = slug_scan(s.drop_last());
        let c = s.last();
        if kept(c) {
            let base = if prev.1 && prev.0.len() > 0 {
                prev.0.push('-')
            } else {
                prev.0
            };
            (base.push(lower_ascii(c)), false)
        } else {
            (prev.0, true)
        }
    }
}

/// The fallback slug of a name with no letter or digit.
pub open spec fn untitled() -> Seq<char> {
    seq!['u', 'n', 't', 'i', 't', 'l', 'e', 'd']
}

/// The slug of `s`: lowercased, every character outside `[a-z0-9]` turned into a
/// hyphen, runs of hyphens collapsed, hyphens trimmed at both ends, and
/// `untitled` when nothing is left.
pub open spec fn sanitize(s: Seq<char>) -> Seq<char> {
    let body = slug_scan(s).0;
    if body.len() == 0 {
        untitled()
    } else {
        body
    }
}

/// A well-formed slug: non-empty, only `[a-z0-9-]`, no hyphen at either end and
/// no two hyphens in a row.
pub open spec fn is_slug(s: Seq<char>) -> bool {
    &&& s.len() > 0
    &&& forall|i: int| 0 <= i < s.len() ==> is_slug_char(#[trigger] s[i]) || s[i] == '-'
    &&& s[0] != '-'
    &&& s.last() != '-'
    &&& forall|i: int| 0 <= i < s.len() - 1 ==> !(#[trigger] s[i] == '-' && s[i + 1] == '-')
}

proof fn lemma_scan_shape(s: Seq<char>)
    ensures
        ({
            let o = slug_scan(s).0;
            &&& forall|i: int| 0 <= i < o.len() ==> is_slug_char(#[trigger] o[i]) || o[i] == '-'
            &&& o.len() > 0 ==> o[0] != '-' && o.last() != '-'
            &&& forall|i: int| 0 <= i < o.len() - 1 ==> !(#[trigger] o[i] == '-' && o[i + 1] == '-')
        }),
    decreases s.len(),
{
    if s.len() > 0 {
        lemma_scan_shape(s.drop_last());
        let prev = slug_scan(s.drop_last());
        let c = s.last();
        if kept(c) {
            let base = if prev.1 && prev.0.len() > 0 {
                prev.0.push('-')
            } else {
                prev.0
            };
            let o = base.push(lower_ascii(c));
            assert forall|i: int| 0 <= i < o.len() - 1 implies !(#[trigger] o[i] == '-' && o[i + 1] == '-') by {
                if i < prev.0.len() - 1 {
                    assert(o[i] == prev.0[i] && o[i + 1] == prev.0[i + 1]);
                }
            }
        }
    }
}

proof fn lemma_scan_prefix(s: Seq<char>, k: int)
    requires
        is_slug(s),
        0 <= k <= s.len(),
    ensures
        k == 0 ==> slug_scan(s.take(k)) == (Seq::<char>::empty(), false),
        k > 0 && s[k - 1] == '-' ==> slug_scan(s.take(k)) == (s.take(k - 1), true),
        k > 0 && s[k - 1] != '-' ==> slug_scan(s.take(k)) == (s.take(k), false),
    decreases k,
{
    if k > 0 {
        lemma_scan_prefix(s, k - 1);
        let p = s.take(k);
        assert(p.drop_last() == s.take(k - 1));
        let c = s[k - 1];
        assert(lower_ascii(c) == c);
        if c != '-' {
            assert(is_slug_char(c));
            if k >= 2 && s[k - 2] == '-' {
                assert(s.take(k - 2).push('-').push(c) == p);
            } else {
                assert(s.take(k - 1).push(c) == p);
            }
        } else {
            assert(k >= 2);
            assert(s[k - 2] != '-');
        }
    }
}

/// Sanitizing yields a well-formed slug, and sanitizing it again changes nothing.
pub proof fn lemma_sanitize_idempotent(s: Seq<char>)
    ensures
        is_slug(sanitize(s)),
        sanitize(sanitize(s)) == sanitize(s),
{
    lemma_scan_shape(s);
    let t = sanitize(s);
    if slug_scan(s).0.len() == 0 {
        assert(is_slug(untitled()));
    }
    lemma_scan_prefix(t, t.len() as int);
    assert(t.take(t.len() as int) == t);
}

fn lower_char(c: char) -> (r: char)
    ensures
        r == lower_ascii(c),
{
    if 'A' <= c && c <= 'Z' {
        ((c as u8) + 32) as char
    } else {
        c
    }
}

/// The canonical slug of a document name.
pub fn sanitize_slug(input: &str) -> (r: String)
    ensures
        r@ == sanitize(input@),
        is_slug(r@),
{
    let cs = chars_of(input);
    let mut out: Vec<char> = Vec::new();
    let mut pending = false;
    let mut i: usize = 0;
    while i < cs.len()
        invariant
            i <= cs@.len(),
            cs@ == input@,
            (out@, pending) == slug_scan(cs@.take(i as int)),
        decreases cs@.len() - i,
    {
        let l = lower_char(cs[i]);
        if ('a' <= l && l <= 'z') || ('0' <= l && l <= '9') {
            if pending && out.len() > 0 {
                out.push('-');
            }
            out.push(l);
            pending = false;
        } else {
            pending = true;
        }
        i = i + 1;
        assert(cs@.take(i as int).drop_last() == cs@.take(i - 1));
    }
    assert(cs@.take(cs@.len() as int) == cs@);
    proof {
        lemma_sanitize_idempotent(input@);
    }
    if out.len() == 0 {
        let fallback = vec!['u', 'n', 't', 'i', 't', 'l', 'e', 'd'];
        assert(fallback@ == untitled());
        string_of(fallback.as_slice())
    } else {
        string_of(out.as_slice())
    }
}

} // verus!

verus! {

/// The canonical slug to redirect a requested path segment to: present when
/// the segment is not already canonical.
pub fn slug_redirect(requested: &str) -> (r: Option<String>)
    ensures
        r is None <==> sanitize(requested@) == requested@,
        r matches Some(s) ==> s@ == sanitize(requested@),
{
    let s = sanitize_slug(requested);
    let a = chars_of(s.as_str());
    let b = chars_of(requested);
    if crate::text::seq_eq(&a, &b) {
        None
    } else {
        Some(s)
    }
}

} // verus!

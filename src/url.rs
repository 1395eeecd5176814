//! URLs in documents: recognizing them in text, and the canonical form under
//! which fetched metadata is filed.

use vstd::prelude::*;
use crate::slug::lower_ascii;
use crate::text::{lemma_index_of, lemma_index_of_bound, lemma_find_from_at, lemma_trim_untouched, chars_of, index_of, index_of_exec, is_ws, is_ws_char, matches_at, occurs_at, slice_vec, string_of, trim, trim_bounds, find_from, find_seq, push_all};

verus! {

/// Which characters end a run: white space alone, white space or `)`, or white
/// space and the brackets `< > ( )`.
pub enum Stop {
    Space,
    SpaceOrParen,
    SpaceOrBracket,
    /// White space, quotes and `>`: the end of an attribute value.
    SpaceOrQuote,
}

pub open spec fn stops(kind: Stop, c: char) -> bool {
    match kind {
        Stop::Space => is_ws(c),
        Stop::SpaceOrParen => is_ws(c) || c == ')',
        Stop::SpaceOrBracket => is_ws(c) || c == '<' || c == '>' || c == '(' || c == ')',
        Stop::SpaceOrQuote => is_ws(c) || c == '"' || c == '\'' || c == '>',
    }
}

/// The end of the longest run from `j` of characters that do not stop it.
pub open spec fn run_end(s: Seq<char>, j: int, kind: Stop) -> int
    decreases s.len() - j,
{
    if j < 0 || j >= s.len() || stops(kind, s[j]) {
        j
    } else {
        run_end(s, j + 1, kind)
    }
}

fn stops_exec(kind: &Stop, c: char) -> (r: bool)
    ensures
        r == stops(*kind, c),
{
    match kind {
        Stop::Space => is_ws_char(c),
        Stop::SpaceOrParen => is_ws_char(c) || c == ')',
        Stop::SpaceOrBracket => is_ws_char(c) || c == '<' || c == '>' || c == '(' || c == ')',
        Stop::SpaceOrQuote => is_ws_char(c) || c == '"' || c == '\'' || c == '>',
    }
}

pub fn run_end_exec(s: &[char], j: usize, kind: &Stop) -> (r: usize)
    requires
        j <= s@.len(),
    ensures
        r == run_end(s@, j as int, *kind),
        j <= r <= s@.len(),
{
    let mut k: usize = j;
    while k < s.len() && !stops_exec(kind, s[k])
        invariant
            j <= k <= s@.len(),
            run_end(s@, j as int, *kind) == run_end(s@, k as int, *kind),
        decreases s@.len() - k,
    {
        k = k + 1;
    }
    k
}

/// The length of the `https://` or `http://` that starts at `i`, or 0.
pub open spec fn scheme_len(s: Seq<char>, i: int) -> int {
    if occurs_at(s, "https://"@, i) {
        8
    } else if occurs_at(s, "http://"@, i) {
        7
    } else {
        0
    }
}

pub fn scheme_len_exec(s: &[char], i: usize) -> (r: usize)
    ensures
        r == scheme_len(s@, i as int),
        r > 0 ==> i + r <= s@.len(),
{
    let https = chars_of("https://");
    let http = chars_of("http://");
    proof {
        reveal_strlit("https://");
        reveal_strlit("http://");
    }
    if matches_at(s, &https, i) {
        8
    } else if matches_at(s, &http, i) {
        7
    } else {
        0
    }
}

/// The end of a bare URL starting at `i` whose body runs until `kind` stops it,
/// or `i` itself when none starts there.
pub open spec fn url_end(s: Seq<char>, i: int, kind: Stop) -> int {
    let k = scheme_len(s, i);
    if k > 0 && run_end(s, i + k, kind) > i + k {
        run_end(s, i + k, kind)
    } else {
        i
    }
}

pub fn url_end_exec(s: &[char], i: usize, kind: &Stop) -> (r: usize)
    requires
        i <= s@.len(),
    ensures
        r == url_end(s@, i as int, *kind),
        i <= r <= s@.len(),
{
    let k = scheme_len_exec(s, i);
    let n = s.len();
    if k > 0 {
        assert(i + k <= n);
        let e = run_end_exec(s, i + k, kind);
        if e > i + k {
            return e;
        }
    }
    i
}

/// A `(http://...)` group starting at `i`: its URL ends at the returned index,
/// which is followed by `)`; or `i` when there is none.
pub open spec fn paren_url_end(s: Seq<char>, i: int) -> int {
    if 0 <= i < s.len() && s[i] == '(' {
        let e = url_end(s, i + 1, Stop::SpaceOrParen);
        if e > i + 1 && e < s.len() && s[e] == ')' {
            e
        } else {
            i
        }
    } else {
        i
    }
}

/// The target of the first `(url)` group at or after `i`.
pub open spec fn first_paren_url(s: Seq<char>, i: int) -> Option<Seq<char>>
    decreases s.len() - i,
{
    if i < 0 || i >= s.len() {
        None
    } else if paren_url_end(s, i) > i {
        Some(s.subrange(i + 1, paren_url_end(s, i)))
    } else {
        first_paren_url(s, i + 1)
    }
}

/// The first bare URL at or after `i`, running to the next white space.
pub open spec fn first_bare_url(s: Seq<char>, i: int) -> Option<Seq<char>>
    decreases s.len() - i,
{
    if i < 0 || i >= s.len() {
        None
    } else if url_end(s, i, Stop::Space) > i {
        Some(s.subrange(i, url_end(s, i, Stop::Space)))
    } else {
        first_bare_url(s, i + 1)
    }
}

/// The URL of a reference line: the target of a `[text](url)` link where there
/// is one, else the first bare `http(s)://` run of non-space characters.
pub open spec fn url_of_line(s: Seq<char>) -> Option<Seq<char>> {
    match first_paren_url(s, 0) {
        Some(u) => Some(u),
        None => first_bare_url(s, 0),
    }
}

/// The URL that a reference line names, if any.
pub fn extract_url_from_line(line: &str) -> (r: Option<String>)
    ensures
        r matches Some(u) ==> url_of_line(line@) == Some(u@),
        r is None ==> url_of_line(line@) is None,
{
    let s = chars_of(line);
    let mut i: usize = 0;
    while i < s.len()
        invariant
            i <= s@.len(),
            s@ == line@,
            first_paren_url(s@, 0) == first_paren_url(s@, i as int),
        decreases s@.len() - i,
    {
        if s[i] == '(' {
            let e = url_end_exec(&s, i + 1, &Stop::SpaceOrParen);
            if e > i + 1 && e < s.len() && s[e] == ')' {
                let u = slice_vec(&s, i + 1, e);
                return Some(string_of(&u));
            }
        }
        i = i + 1;
    }
    let mut i: usize = 0;
    while i < s.len()
        invariant
            i <= s@.len(),
            s@ == line@,
            first_paren_url(s@, 0) is None,
            first_bare_url(s@, 0) == first_bare_url(s@, i as int),
        decreases s@.len() - i,
    {
        let e = url_end_exec(&s, i, &Stop::Space);
        if e > i {
            let u = slice_vec(&s, i, e);
            return Some(string_of(&u));
        }
        i = i + 1;
    }
    None
}

} // verus!

verus! {

/// `s` up to its first `c`.
pub open spec fn cut_at(s: Seq<char>, c: char) -> Seq<char> {
    s.take(index_of(s, c) as int)
}

/// `s` with ASCII letters lowercased.
pub open spec fn lower_seq(s: Seq<char>) -> Seq<char> {
    s.map_values(|c: char| lower_ascii(c))
}

/// `s` with every run of `/` collapsed into one.
pub open spec fn collapse_slashes(s: Seq<char>) -> Seq<char>
    decreases s.len(),
{
    if s.len() == 0 {
        s
    } else {
        let p = collapse_slashes(s.drop_last());
        if s.last() == '/' && p.len() > 0 && p.last() == '/' {
            p
        } else {
            p.push(s.last())
        }
    }
}

/// The canonical form of a URL: trimmed; fragment and query dropped; scheme and
/// host lowercased; repeated slashes in the path collapsed, a trailing slash
/// kept. Text without `://` is only trimmed and cut.
pub open spec fn canonical(url: Seq<char>) -> Seq<char> {
    let u = cut_at(cut_at(trim(url), '#'), '?');
    let pos = find_from(u, "://"@, 0);
    if pos < 0 {
        u
    } else {
        let rest = u.skip(pos + 3);
        let h = index_of(rest, '/') as int;
        lower_seq(u.take(pos)) + "://"@ + lower_seq(rest.take(h)) + collapse_slashes(rest.skip(h))
    }
}

pub fn lower_into(out: &mut Vec<char>, s: &[char], a: usize, b: usize)
    requires
        a <= b <= s@.len(),
    ensures
        final(out)@ == old(out)@ + lower_seq(s@.subrange(a as int, b as int)),
{
    let mut i: usize = a;
    while i < b
        invariant
            a <= i <= b <= s@.len(),
            out@ == old(out)@ + lower_seq(s@.subrange(a as int, i as int)),
        decreases b - i,
    {
        let c = s[i];
        let l = if 'A' <= c && c <= 'Z' {
            ((c as u8) + 32) as char
        } else {
            c
        };
        out.push(l);
        i = i + 1;
        assert(lower_seq(s@.subrange(a as int, i as int)) == lower_seq(
            s@.subrange(a as int, i - 1),
        ).push(lower_ascii(c)));
    }
}

fn collapse_into(out: &mut Vec<char>, s: &[char], a: usize)
    requires
        a <= s@.len(),
    ensures
        final(out)@ == old(out)@ + collapse_slashes(s@.skip(a as int)),
{
    let mut acc: Vec<char> = Vec::new();
    let mut i: usize = a;
    while i < s.len()
        invariant
            a <= i <= s@.len(),
            acc@ == collapse_slashes(s@.subrange(a as int, i as int)),
        decreases s@.len() - i,
    {
        let c = s[i];
        assert(s@.subrange(a as int, i + 1).drop_last() == s@.subrange(a as int, i as int));
        if !(c == '/' && acc.len() > 0 && acc[acc.len() - 1] == '/') {
            acc.push(c);
        }
        i = i + 1;
    }
    assert(s@.subrange(a as int, s@.len() as int) == s@.skip(a as int));
    push_all(out, &acc);
}

/// The canonical form of `url`, under which its fetched metadata is filed.
pub fn canonicalize_url(url: &str) -> (r: String)
    ensures
        r@ == canonical(url@),
{
    let cs = chars_of(url);
    let (a, b) = trim_bounds(&cs);
    let t = slice_vec(&cs, a, b);
    let h = index_of_exec(&t, '#');
    let t1 = slice_vec(&t, 0, h);
    let q = index_of_exec(&t1, '?');
    let u = slice_vec(&t1, 0, q);
    let sep = chars_of("://");
    proof {
        reveal_strlit("://");
    }
    match find_seq(&u, &sep) {
        None => string_of(&u),
        Some(pos) => {
            let rest = slice_vec(&u, pos + 3, u.len());
            let slash = index_of_exec(&rest, '/');
            let mut out: Vec<char> = Vec::new();
            lower_into(&mut out, &u, 0, pos);
            push_all(&mut out, &sep);
            lower_into(&mut out, &rest, 0, slash);
            collapse_into(&mut out, &rest, slash);
            proof {
                assert(u@.subrange(0, pos as int) == u@.take(pos as int));
                assert(rest@ == u@.skip(pos + 3));
                assert(rest@.subrange(0, slash as int) == rest@.take(slash as int));
                assert(Seq::<char>::empty() + lower_seq(u@.take(pos as int)) == lower_seq(
                    u@.take(pos as int),
                ));
            }
            string_of(&out)
        },
    }
}

} // verus!

verus! {

proof fn lemma_lower_twice(s: Seq<char>)
    ensures
        lower_seq(lower_seq(s)) == lower_seq(s),
        forall|i: int| 0 <= i < s.len() ==> (#[trigger] lower_seq(s)[i] == '/') == (s[i] == '/'),
        forall|i: int| 0 <= i < s.len() ==> (#[trigger] lower_seq(s)[i] == '?') == (s[i] == '?'),
        forall|i: int| 0 <= i < s.len() ==> (#[trigger] lower_seq(s)[i] == '#') == (s[i] == '#'),
        forall|i: int| 0 <= i < s.len() ==> is_ws(#[trigger] lower_seq(s)[i]) == is_ws(s[i]),
{
    assert(lower_seq(lower_seq(s)) =~= lower_seq(s));
}

proof fn lemma_canonical_parts(scheme: Seq<char>, host: Seq<char>, path: Seq<char>, tail: Seq<char>)
    requires
        forall|i: int| 0 <= i < scheme.len() ==> ('a' <= #[trigger] scheme[i] <= 'z') || ('A' <= scheme[i] <= 'Z'),
        forall|i: int|
            0 <= i < host.len() ==> #[trigger] host[i] != '/' && host[i] != '?' && host[i] != '#'
                && !is_ws(host[i]),
        path.len() == 0 || path[0] == '/',
        forall|i: int| 0 <= i < path.len() ==> #[trigger] path[i] != '?' && path[i] != '#' && !is_ws(path[i]),
        tail.len() == 0 || ((tail[0] == '?' || tail[0] == '#') && !is_ws(tail.last())),
    ensures
        canonical(scheme + "://"@ + host + path + tail) == lower_seq(scheme) + "://"@ + lower_seq(host)
            + collapse_slashes(path),
{
    reveal_strlit("://");
    let sep = "://"@;
    let pre = scheme + sep + host + path;
    let w = pre + tail;
    let m = pre.len() as int;
    let sl = scheme.len() as int;
    assert forall|j: int| 0 <= j < m implies #[trigger] pre[j] != '?' && pre[j] != '#' && !is_ws(pre[j]) by {
        if j < sl {
            assert(pre[j] == scheme[j]);
        } else if j < sl + 3 {
            assert(pre[j] == sep[j - sl]);
        } else if j < sl + 3 + host.len() {
            assert(pre[j] == host[j - sl - 3]);
        } else {
            assert(pre[j] == path[j - sl - 3 - host.len()]);
        }
    }
    assert forall|j: int| 0 <= j < m implies #[trigger] w[j] == pre[j] by {}
    // trimming leaves the text alone
    assert(w[0] == pre[0]);
    if tail.len() > 0 {
        assert(w.last() == tail.last());
    } else {
        assert(w == pre);
    }
    lemma_trim_untouched(w);
    // the fragment and the query go
    let u1 = cut_at(w, '#');
    lemma_index_of_bound(w, '#');
    let k = index_of(w, '#') as int;
    assert(k >= m);
    if tail.len() > 0 && tail[0] == '#' {
        assert(w[m] == '#');
        lemma_index_of(w, '#', m);
    }
    assert(u1 == w.take(k));
    assert forall|j: int| 0 <= j < m implies #[trigger] u1[j] != '?' by {
        assert(u1[j] == w[j]);
    }
    if tail.len() > 0 && tail[0] == '?' {
        assert(w[m] == '?');
        assert(k > m);
        assert(u1[m] == '?');
        lemma_index_of(u1, '?', m);
    } else if k == m {
        lemma_index_of(u1, '?', m);
    } else {
        assert(tail.len() == 0);
        assert(w == pre);
        lemma_index_of(u1, '?', m);
    }
    let u = cut_at(u1, '?');
    assert(u =~= pre);
    // the scheme ends at the first separator
    assert forall|t: int| 0 <= t < sl implies !#[trigger] occurs_at(pre, sep, t) by {
        if occurs_at(pre, sep, t) {
            assert(pre.subrange(t, t + 3)[0] == pre[t]);
            assert(pre[t] == scheme[t]);
        }
    }
    assert(pre.subrange(sl, sl + 3) =~= sep);
    lemma_find_from_at(pre, sep, 0, sl);
    let rest = pre.skip(sl + 3);
    assert(rest =~= host + path);
    assert forall|j: int| 0 <= j < host.len() implies #[trigger] rest[j] != '/' by {
        assert(rest[j] == host[j]);
    }
    if path.len() > 0 {
        assert(rest[host.len() as int] == '/');
    }
    lemma_index_of(rest, '/', host.len() as int);
    assert(rest.take(host.len() as int) =~= host);
    assert(rest.skip(host.len() as int) =~= path);
    assert(pre.take(sl) =~= scheme);
}

/// Canonicalization: a URL made of a scheme of letters, a host and a path (no
/// `?`, `#` or white space in host or path) keeps one canonical form whatever
/// query or fragment follows it and whatever the case of its host: the lowered
/// scheme and host, then the path with repeated slashes collapsed and its case
/// kept.
pub proof fn lemma_canonical_key(scheme: Seq<char>, host: Seq<char>, path: Seq<char>, tail: Seq<char>)
    requires
        forall|i: int| 0 <= i < scheme.len() ==> ('a' <= #[trigger] scheme[i] <= 'z') || ('A' <= scheme[i] <= 'Z'),
        forall|i: int|
            0 <= i < host.len() ==> #[trigger] host[i] != '/' && host[i] != '?' && host[i] != '#'
                && !is_ws(host[i]),
        path.len() == 0 || path[0] == '/',
        forall|i: int| 0 <= i < path.len() ==> #[trigger] path[i] != '?' && path[i] != '#' && !is_ws(path[i]),
        tail.len() == 0 || ((tail[0] == '?' || tail[0] == '#') && !is_ws(tail.last())),
    ensures
        canonical(scheme + "://"@ + host + path + tail) == canonical(scheme + "://"@ + lower_seq(host) + path),
        canonical(scheme + "://"@ + host + path + tail) == lower_seq(scheme) + "://"@ + lower_seq(host)
            + collapse_slashes(path),
{
    lemma_canonical_parts(scheme, host, path, tail);
    lemma_lower_twice(host);
    let lh = lower_seq(host);
    assert forall|i: int| 0 <= i < lh.len() implies #[trigger] lh[i] != '/' && lh[i] != '?' && lh[i] != '#'
        && !is_ws(lh[i]) by {
        assert(host[i] != '/');
    }
    lemma_canonical_parts(scheme, lh, path, Seq::empty());
    assert(scheme + "://"@ + lh + path + Seq::<char>::empty() == scheme + "://"@ + lh + path);
}

} // verus!

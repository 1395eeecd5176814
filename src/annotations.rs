//! Annotations: the external links an author lists in a document, whose
//! titles and descriptions are fetched and embedded in the page.

use vstd::prelude::*;
use crate::url::{lower_seq, url_end, url_end_exec, url_of_line, extract_url_from_line, Stop};
use crate::text::{chars_of, is_ws, is_ws_char, lines_of, matches_at, occurs_at, seq_eq, slice_vec, split_lines, string_of, trim, trimmed, views};

verus! {

/// Three backticks.
pub open spec fn fence() -> Seq<char> {
    seq!['`', '`', '`']
}

/// `t` without the groups of three backticks that open it.
pub open spec fn strip_fences(t: Seq<char>) -> Seq<char>
    decreases t.len(),
{
    if t.len() >= 3 && t.take(3) == fence() {
        strip_fences(t.skip(3))
    } else {
        t
    }
}

/// A fence language that marks a block of reference links.
pub open spec fn is_links_lang(l: Seq<char>) -> bool {
    l == seq!['l', 'i', 'n', 'k', 's'] || l == seq!['a', 'n', 'n', 'o'] || l == seq![
        'a',
        'n',
        'n',
        'o',
        't',
        'a',
        't',
        'i',
        'o',
        'n',
    ]
}

/// `s` with the URL `u` appended, when there is one.
pub open spec fn push_opt(s: Seq<Seq<char>>, u: Option<Seq<char>>) -> Seq<Seq<char>> {
    match u {
        Some(x) => s.push(x),
        None => s,
    }
}

/// The URLs of the reference blocks (fenced with the language `links`, `anno`
/// or `annotation`) among the lines `ls`, and whether such a block is open
/// after them.
pub open spec fn fenced_scan(ls: Seq<Seq<char>>) -> (Seq<Seq<char>>, bool)
    decreases ls.len(),
{
    if ls.len() == 0 {
        (Seq::empty(), false)
    } else {
        let prev = fenced_scan(ls.drop_last());
        let t = trim(ls.last());
        let is_fence_line = t.len() >= 3 && t.take(3) == fence();
        let lang = lower_seq(trim(strip_fences(t)));
        if is_fence_line && !prev.1 && is_links_lang(lang) {
            (prev.0, true)
        } else if is_fence_line && prev.1 && (lang.len() == 0 || is_links_lang(lang)) {
            (prev.0, false)
        } else if prev.1 {
            (push_opt(prev.0, url_of_line(t)), true)
        } else {
            prev
        }
    }
}

/// A line that announces a list of reference links.
pub open spec fn is_links_marker(t: Seq<char>) -> bool {
    let l = lower_seq(t);
    l == seq!['l', 'i', 'n', 'k', 's', ':'] || l == seq!['l', 'i', 'n', 'k', 's'] || l == seq![
        'a',
        'n',
        'n',
        'o',
        't',
        'a',
        't',
        'i',
        'o',
        'n',
        's',
        ':',
    ] || l == seq!['a', 'n', 'n', 'o', 't', 'a', 't', 'i', 'o', 'n', 's']
}

/// The characters that a run of a list marker is made of.
pub enum Span {
    Digits,
    Space,
    Bullet,
}

pub open spec fn in_span(kind: Span, c: char) -> bool {
    match kind {
        Span::Digits => '0' <= c && c <= '9',
        Span::Space => is_ws(c),
        Span::Bullet => c == '-' || c == '*' || is_ws(c),
    }
}

/// The end of the run from `j` of characters of the kind `kind`.
pub open spec fn run_while(s: Seq<char>, j: int, kind: Span) -> int
    decreases s.len() - j,
{
    if j < 0 || j >= s.len() || !in_span(kind, s[j]) {
        j
    } else {
        run_while(s, j + 1, kind)
    }
}

fn in_span_exec(kind: &Span, c: char) -> (r: bool)
    ensures
        r == in_span(*kind, c),
{
    match kind {
        Span::Digits => '0' <= c && c <= '9',
        Span::Space => is_ws_char(c),
        Span::Bullet => c == '-' || c == '*' || is_ws_char(c),
    }
}

fn run_while_exec(s: &[char], j: usize, kind: &Span) -> (r: usize)
    requires
        j <= s@.len(),
    ensures
        r == run_while(s@, j as int, *kind),
        j <= r <= s@.len(),
{
    let mut k: usize = j;
    while k < s.len() && in_span_exec(kind, s[k])
        invariant
            j <= k <= s@.len(),
            run_while(s@, j as int, *kind) == run_while(s@, k as int, *kind),
        decreases s@.len() - k,
    {
        k = k + 1;
    }
    k
}

/// The length of an ordered-list marker `N.` or `N)` with the white space after
/// it, at the start of `t`; 0 when there is none.
pub open spec fn ordered_marker_len(t: Seq<char>) -> int {
    let d = run_while(t, 0, Span::Digits);
    if d > 0 && d < t.len() - 1 && (t[d] == '.' || t[d] == ')') && is_ws(t[d + 1]) {
        run_while(t, d + 1, Span::Space)
    } else {
        0
    }
}

/// A line of a bulleted or ordered list.
pub open spec fn is_list_item(t: Seq<char>) -> bool {
    (t.len() > 0 && (t[0] == '-' || t[0] == '*')) || ordered_marker_len(t) > 0
}

/// The text of a list line after its marker.
pub open spec fn item_text(t: Seq<char>) -> Seq<char> {
    if t.len() > 0 && (t[0] == '-' || t[0] == '*') {
        trim(t.skip(run_while(t, 0, Span::Bullet)))
    } else {
        t.skip(ordered_marker_len(t))
    }
}

/// The URLs of the list items that follow a `Links:` or `Annotations:` line,
/// and whether the last line continues such a list.
pub open spec fn listed_scan(ls: Seq<Seq<char>>) -> (Seq<Seq<char>>, bool)
    decreases ls.len(),
{
    if ls.len() == 0 {
        (Seq::empty(), false)
    } else {
        let prev = listed_scan(ls.drop_last());
        let t = trim(ls.last());
        if prev.1 && is_list_item(t) {
            (push_opt(prev.0, url_of_line(trim(item_text(t)))), true)
        } else {
            (prev.0, is_links_marker(t))
        }
    }
}

} // verus!

verus! {

fn strip_fences_exec(t: &[char]) -> (r: usize)
    ensures
        r <= t@.len(),
        strip_fences(t@) == t@.skip(r as int),
{
    let fence_chars = vec!['`', '`', '`'];
    let mut k: usize = 0;
    assert(t@.skip(0) == t@);
    while 3 <= t.len() - k && matches_at(t, &fence_chars, k)
        invariant
            k <= t@.len(),
            fence_chars@ == fence(),
            strip_fences(t@) == strip_fences(t@.skip(k as int)),
        decreases t@.len() - k,
    {
        assert(t@.skip(k as int).take(3) == t@.subrange(k as int, k + 3));
        assert(t@.skip(k as int).skip(3) == t@.skip(k + 3));
        k = k + 3;
    }
    proof {
        let rest = t@.skip(k as int);
        if rest.len() >= 3 {
            assert(rest.take(3) == t@.subrange(k as int, k + 3));
        }
    }
    k
}

fn lower_vec(s: &[char]) -> (r: Vec<char>)
    ensures
        r@ == lower_seq(s@),
{
    let mut r: Vec<char> = Vec::new();
    crate::url::lower_into(&mut r, s, 0, s.len());
    assert(s@.subrange(0, s@.len() as int) == s@);
    assert(Seq::<char>::empty() + lower_seq(s@) == lower_seq(s@));
    r
}

fn is_links_lang_exec(l: &[char]) -> (r: bool)
    ensures
        r == is_links_lang(l@),
{
    let a = vec!['l', 'i', 'n', 'k', 's'];
    let b = vec!['a', 'n', 'n', 'o'];
    let c = vec!['a', 'n', 'n', 'o', 't', 'a', 't', 'i', 'o', 'n'];
    seq_eq(l, &a) || seq_eq(l, &b) || seq_eq(l, &c)
}

fn is_links_marker_exec(t: &[char]) -> (r: bool)
    ensures
        r == is_links_marker(t@),
{
    let l = lower_vec(t);
    let a = vec!['l', 'i', 'n', 'k', 's', ':'];
    let b = vec!['l', 'i', 'n', 'k', 's'];
    let c = vec!['a', 'n', 'n', 'o', 't', 'a', 't', 'i', 'o', 'n', 's', ':'];
    let d = vec!['a', 'n', 'n', 'o', 't', 'a', 't', 'i', 'o', 'n', 's'];
    seq_eq(&l, &a) || seq_eq(&l, &b) || seq_eq(&l, &c) || seq_eq(&l, &d)
}

fn url_in_line(t: &[char]) -> (r: Option<Vec<char>>)
    ensures
        match r {
            Some(u) => url_of_line(t@) == Some(u@),
            None => url_of_line(t@) is None,
        },
{
    let line = string_of(t);
    match extract_url_from_line(line.as_str()) {
        Some(u) => Some(chars_of(u.as_str())),
        None => None,
    }
}

fn push_found(out: &mut Vec<Vec<char>>, u: Option<Vec<char>>, ghost_u: Ghost<Option<Seq<char>>>)
    requires
        match u {
            Some(x) => ghost_u@ == Some(x@),
            None => ghost_u@ is None,
        },
    ensures
        views(final(out)@) == push_opt(views(old(out)@), ghost_u@),
{
    match u {
        Some(x) => {
            let ghost before = out@;
            let ghost xv = x@;
            out.push(x);
            assert(views(out@) =~= views(before).push(xv));
        },
        None => {},
    }
}

fn fenced_urls(ls: &Vec<Vec<char>>) -> (r: Vec<Vec<char>>)
    ensures
        views(r@) == fenced_scan(views(ls@)).0,
{
    let fence_chars = vec!['`', '`', '`'];
    let mut out: Vec<Vec<char>> = Vec::new();
    let mut in_block = false;
    let mut i: usize = 0;
    assert(views(out@) =~= Seq::<Seq<char>>::empty());
    while i < ls.len()
        invariant
            i <= ls@.len(),
            fence_chars@ == fence(),
            views(out@) == fenced_scan(views(ls@).take(i as int)).0,
            in_block == fenced_scan(views(ls@).take(i as int)).1,
        decreases ls@.len() - i,
    {
        let ghost vs = views(ls@);
        assert(vs.take(i + 1).drop_last() == vs.take(i as int));
        assert(vs.take(i + 1).last() == ls@[i as int]@);
        let t = trimmed(&ls[i]);
        let is_fence_line = t.len() >= 3 && matches_at(&t, &fence_chars, 0);
        assert(is_fence_line == (t@.len() >= 3 && t@.take(3) == fence())) by {
            if t@.len() >= 3 {
                assert(t@.subrange(0, 3) == t@.take(3));
            }
        }
        let k = strip_fences_exec(&t);
        let rest = slice_vec(&t, k, t.len());
        assert(rest@ == t@.skip(k as int));
        let rest_trim = trimmed(&rest);
        let lang = lower_vec(&rest_trim);
        if is_fence_line && !in_block && is_links_lang_exec(&lang) {
            in_block = true;
        } else if is_fence_line && in_block && (lang.len() == 0 || is_links_lang_exec(&lang)) {
            in_block = false;
        } else if in_block {
            let u = url_in_line(&t);
            push_found(&mut out, u, Ghost(url_of_line(t@)));
        }
        i = i + 1;
    }
    assert(views(ls@).take(ls@.len() as int) == views(ls@));
    out
}

fn ordered_marker_len_exec(t: &[char]) -> (r: usize)
    ensures
        r == ordered_marker_len(t@),
        r <= t@.len(),
{
    let d = run_while_exec(t, 0, &Span::Digits);
    if d > 0 && d < t.len() - 1 && (t[d] == '.' || t[d] == ')') && is_ws_char(t[d + 1]) {
        run_while_exec(t, d + 1, &Span::Space)
    } else {
        0
    }
}

fn listed_urls(ls: &Vec<Vec<char>>) -> (r: Vec<Vec<char>>)
    ensures
        views(r@) == listed_scan(views(ls@)).0,
{
    let mut out: Vec<Vec<char>> = Vec::new();
    let mut listing = false;
    let mut i: usize = 0;
    assert(views(out@) =~= Seq::<Seq<char>>::empty());
    while i < ls.len()
        invariant
            i <= ls@.len(),
            views(out@) == listed_scan(views(ls@).take(i as int)).0,
            listing == listed_scan(views(ls@).take(i as int)).1,
        decreases ls@.len() - i,
    {
        let ghost vs = views(ls@);
        assert(vs.take(i + 1).drop_last() == vs.take(i as int));
        assert(vs.take(i + 1).last() == ls@[i as int]@);
        let t = trimmed(&ls[i]);
        let bullet = t.len() > 0 && (t[0] == '-' || t[0] == '*');
        let ordered = ordered_marker_len_exec(&t);
        if listing && (bullet || ordered > 0) {
            let text = if bullet {
                let b = run_while_exec(&t, 0, &Span::Bullet);
                let rest = slice_vec(&t, b, t.len());
                assert(rest@ == t@.skip(b as int));
                trimmed(&rest)
            } else {
                let rest = slice_vec(&t, ordered, t.len());
                assert(rest@ == t@.skip(ordered as int));
                rest
            };
            assert(text@ == item_text(t@));
            let text_trim = trimmed(&text);
            let u = url_in_line(&text_trim);
            push_found(&mut out, u, Ghost(url_of_line(text_trim@)));
        } else {
            listing = is_links_marker_exec(&t);
        }
        i = i + 1;
    }
    assert(views(ls@).take(ls@.len() as int) == views(ls@));
    out
}

} // verus!

verus! {

/// The value bounds of an `href = "http..."` attribute (either quote) whose
/// name starts at `i`.
pub open spec fn href_value(s: Seq<char>, i: int) -> Option<(int, int)> {
    if occurs_at(s, seq!['h', 'r', 'e', 'f'], i) {
        let a = run_while(s, i + 4, Span::Space);
        if 0 <= a < s.len() && s[a] == '=' {
            let b = run_while(s, a + 1, Span::Space);
            if 0 <= b < s.len() && (s[b] == '"' || s[b] == '\'') {
                let e = url_end(s, b + 1, Stop::SpaceOrQuote);
                if e > b + 1 && e < s.len() && s[e] == s[b] {
                    Some((b + 1, e))
                } else {
                    None
                }
            } else {
                None
            }
        } else {
            None
        }
    } else {
        None
    }
}

/// The `http(s)` link targets in the rendered HTML `s` from `i` on, left to right.
pub open spec fn href_urls(s: Seq<char>, i: int) -> Seq<Seq<char>>
    decreases s.len() - i,
{
    if i < 0 || i >= s.len() {
        Seq::empty()
    } else {
        match href_value(s, i) {
            Some(v) => if i < v.1 < s.len() {
                seq![s.subrange(v.0, v.1)] + href_urls(s, v.1 + 1)
            } else {
                href_urls(s, i + 1)
            },
            None => href_urls(s, i + 1),
        }
    }
}

fn href_value_exec(s: &[char], i: usize) -> (r: Option<(usize, usize)>)
    requires
        i < s@.len(),
    ensures
        match r {
            Some(v) => href_value(s@, i as int) == Some((v.0 as int, v.1 as int)) && v.0 <= v.1
                < s@.len(),
            None => href_value(s@, i as int) is None,
        },
{
    let name = vec!['h', 'r', 'e', 'f'];
    let n = s.len();
    if !matches_at(s, &name, i) {
        return None;
    }
    assert(name@.len() == 4);
    assert(i + 4 <= n);
    let a = run_while_exec(s, i + 4, &Span::Space);
    if a < s.len() && s[a] == '=' {
        let b = run_while_exec(s, a + 1, &Span::Space);
        if b < s.len() && (s[b] == '"' || s[b] == '\'') {
            let e = url_end_exec(s, b + 1, &Stop::SpaceOrQuote);
            if e > b + 1 && e < s.len() && s[e] == s[b] {
                return Some((b + 1, e));
            }
        }
    }
    None
}

fn href_urls_exec(s: &[char]) -> (r: Vec<Vec<char>>)
    ensures
        views(r@) == href_urls(s@, 0),
{
    let mut out: Vec<Vec<char>> = Vec::new();
    let mut i: usize = 0;
    assert(views(out@) + href_urls(s@, 0) == href_urls(s@, 0));
    while i < s.len()
        invariant
            i <= s@.len(),
            href_urls(s@, 0) == views(out@) + href_urls(s@, i as int),
        decreases s@.len() - i,
    {
        match href_value_exec(s, i) {
            Some(v) => {
                if i < v.1 {
                    let u = slice_vec(s, v.0, v.1);
                    let ghost before = views(out@);
                    let ghost uv = u@;
                    out.push(u);
                    assert(views(out@) == before.push(uv));
                    assert(before + (seq![uv] + href_urls(s@, v.1 + 1)) == before.push(uv) + href_urls(
                        s@,
                        v.1 + 1,
                    ));
                    i = v.1 + 1;
                } else {
                    i = i + 1;
                }
            },
            None => {
                i = i + 1;
            },
        }
    }
    assert(href_urls(s@, i as int) == Seq::<Seq<char>>::empty());
    assert(views(out@) + Seq::<Seq<char>>::empty() == views(out@));
    out
}

/// `s` with later repetitions removed, first occurrences kept in order.
pub open spec fn distinct(s: Seq<Seq<char>>) -> Seq<Seq<char>>
    decreases s.len(),
{
    if s.len() == 0 {
        s
    } else {
        let d = distinct(s.drop_last());
        if d.contains(s.last()) {
            d
        } else {
            d.push(s.last())
        }
    }
}

/// At most this many links of one document are fetched.
pub const MAX_FETCHES: usize = 32;

/// The links of a document whose metadata is fetched: those of its reference
/// blocks, then the `http(s)` targets of its rendered HTML, then those of its
/// `Links:` lists; without repetitions, the first `MAX_FETCHES` of them.
pub open spec fn annotation_targets(md: Seq<char>, html: Seq<char>) -> Seq<Seq<char>> {
    let ls = lines_of(md);
    let d = distinct(fenced_scan(ls).0 + href_urls(html, 0) + listed_scan(ls).0);
    if d.len() > MAX_FETCHES {
        d.take(MAX_FETCHES as int)
    } else {
        d
    }
}

fn contains_vec(v: &Vec<Vec<char>>, x: &[char]) -> (r: bool)
    ensures
        r == views(v@).contains(x@),
{
    let mut i: usize = 0;
    while i < v.len()
        invariant
            i <= v@.len(),
            forall|k: int| 0 <= k < i ==> v@[k]@ != x@,
        decreases v@.len() - i,
    {
        if seq_eq(&v[i], x) {
            assert(views(v@)[i as int] == x@);
            return true;
        }
        i = i + 1;
    }
    assert forall|k: int| 0 <= k < views(v@).len() implies views(v@)[k] != x@ by {
        assert(views(v@)[k] == v@[k]@);
    }
    false
}

fn append_views(out: &mut Vec<Vec<char>>, more: Vec<Vec<char>>)
    ensures
        views(final(out)@) == views(old(out)@) + views(more@),
{
    let mut i: usize = 0;
    while i < more.len()
        invariant
            i <= more@.len(),
            views(out@) == views(old(out)@) + views(more@).take(i as int),
        decreases more@.len() - i,
    {
        let ghost before = views(out@);
        out.push(more[i].clone());
        assert(views(out@) == before.push(more@[i as int]@));
        assert(views(more@).take(i + 1) == views(more@).take(i as int).push(more@[i as int]@));
        i = i + 1;
    }
    assert(views(more@).take(more@.len() as int) == views(more@));
}

/// The links of a document whose metadata is to be fetched (see
/// `annotation_targets`), from its Markdown and its rendered HTML.
pub fn annotation_urls(content: &str, html_content: &str) -> (r: Vec<String>)
    ensures
        r@.len() == annotation_targets(content@, html_content@).len(),
        forall|i: int| 0 <= i < r@.len() ==> (#[trigger] r@[i])@ == annotation_targets(
            content@,
            html_content@,
        )[i],
{
    let md = chars_of(content);
    let lines = split_lines(&md);
    let html = chars_of(html_content);
    let mut all = fenced_urls(&lines);
    append_views(&mut all, href_urls_exec(&html));
    append_views(&mut all, listed_urls(&lines));
    let ghost every = views(all@);
    let mut uniq: Vec<Vec<char>> = Vec::new();
    let mut i: usize = 0;
    assert(views(uniq@) =~= distinct(every.take(0)));
    while i < all.len()
        invariant
            i <= all@.len(),
            every == views(all@),
            views(uniq@) == distinct(every.take(i as int)),
        decreases all@.len() - i,
    {
        assert(every.take(i + 1).drop_last() == every.take(i as int));
        assert(every.take(i + 1).last() == all@[i as int]@);
        if !contains_vec(&uniq, &all[i]) {
            let ghost before = views(uniq@);
            uniq.push(all[i].clone());
            assert(views(uniq@) == before.push(all@[i as int]@));
        }
        i = i + 1;
    }
    assert(every.take(all@.len() as int) == every);
    let ghost d = views(uniq@);
    let mut r: Vec<String> = Vec::new();
    let mut k: usize = 0;
    while k < uniq.len() && k < MAX_FETCHES
        invariant
            k <= uniq@.len(),
            k <= MAX_FETCHES,
            d == views(uniq@),
            r@.len() == k,
            forall|j: int| 0 <= j < k ==> (#[trigger] r@[j])@ == d[j],
        decreases uniq@.len() - k,
    {
        r.push(string_of(&uniq[k]));
        k = k + 1;
    }
    proof {
        assert(views(lines@) == lines_of(content@));
        assert(html@ == html_content@);
        assert(every == fenced_scan(lines_of(content@)).0 + href_urls(html_content@, 0) + listed_scan(
            lines_of(content@),
        ).0);
        assert(d == distinct(every));
        let t = annotation_targets(content@, html_content@);
        if d.len() > MAX_FETCHES {
            assert(t == d.take(MAX_FETCHES as int));
        } else {
            assert(t == d);
        }
        assert(r@.len() == t.len());
    }
    r
}

} // verus!

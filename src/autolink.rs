//! The autolinker: bare `http(s)://` URLs in Markdown become explicit links,
//! except inside code and where they are already link targets.

use vstd::prelude::*;
use crate::text::{join_lines, chars_of, lines_of, occurs_at, push_all, slice_vec, split_lines, string_of, trim_bounds, trim_start, matches_at};
use crate::url::{url_end, url_end_exec, Stop};

verus! {

/// Punctuation that ends a sentence rather than a URL.
pub open spec fn is_trailing_punct(c: char) -> bool {
    c == '.' || c == ',' || c == ';' || c == ':' || c == '!' || c == '?' || c == ')' || c == ']'
}

/// Where the trailing punctuation of `s` begins.
pub open spec fn trail_start(s: Seq<char>) -> int
    decreases s.len(),
{
    if s.len() > 0 && is_trailing_punct(s.last()) {
        trail_start(s.drop_last())
    } else {
        s.len() as int
    }
}

proof fn lemma_trail_start(s: Seq<char>)
    ensures
        0 <= trail_start(s) <= s.len(),
        forall|j: int| trail_start(s) <= j < s.len() ==> is_trailing_punct(#[trigger] s[j]),
        trail_start(s) == 0 || !is_trailing_punct(s[trail_start(s) - 1]),
    decreases s.len(),
{
    if s.len() > 0 && is_trailing_punct(s.last()) {
        lemma_trail_start(s.drop_last());
        assert forall|j: int| trail_start(s) <= j < s.len() implies is_trailing_punct(#[trigger] s[j]) by {
            if j < s.len() - 1 {
                assert(s[j] == s.drop_last()[j]);
            }
        }
        if trail_start(s) > 0 {
            assert(s[trail_start(s) - 1] == s.drop_last()[trail_start(s) - 1]);
        }
    }
}

proof fn lemma_trail_start_at(s: Seq<char>, e: int)
    requires
        0 <= e <= s.len(),
        forall|j: int| e <= j < s.len() ==> is_trailing_punct(#[trigger] s[j]),
        e == 0 || !is_trailing_punct(s[e - 1]),
    ensures
        trail_start(s) == e,
    decreases s.len(),
{
    if e < s.len() {
        assert forall|j: int| e <= j < s.len() - 1 implies is_trailing_punct(#[trigger] s.drop_last()[j]) by {
            assert(s.drop_last()[j] == s[j]);
        }
        if e > 0 {
            assert(s.drop_last()[e - 1] == s[e - 1]);
        }
        lemma_trail_start_at(s.drop_last(), e);
    }
}

/// Splits `s` into the URL and the trailing punctuation after it.
pub fn split_trailing_punctuation(s: &str) -> (r: (String, String))
    ensures
        r.0@ == s@.take(trail_start(s@)),
        r.1@ == s@.skip(trail_start(s@)),
{
    let cs = chars_of(s);
    let e = trail_bound(&cs);
    let a = slice_vec(&cs, 0, e);
    let b = slice_vec(&cs, e, cs.len());
    assert(cs@.subrange(0, e as int) == cs@.take(e as int));
    assert(cs@.subrange(e as int, cs@.len() as int) == cs@.skip(e as int));
    (string_of(&a), string_of(&b))
}

fn is_trailing_punct_exec(c: char) -> (r: bool)
    ensures
        r == is_trailing_punct(c),
{
    c == '.' || c == ',' || c == ';' || c == ':' || c == '!' || c == '?' || c == ')' || c == ']'
}

fn trail_bound(s: &[char]) -> (r: usize)
    ensures
        r == trail_start(s@),
        r <= s@.len(),
{
    let mut e: usize = s.len();
    while e > 0 && is_trailing_punct_exec(s[e - 1])
        invariant
            e <= s@.len(),
            forall|j: int| e <= j < s@.len() ==> is_trailing_punct(#[trigger] s@[j]),
        decreases e,
    {
        e = e - 1;
    }
    proof {
        lemma_trail_start_at(s@, e as int);
    }
    e
}

} // verus!

verus! {

/// The explicit link written for the URL match `m`: `[url](url)` followed by
/// the trailing punctuation that was split off.
pub open spec fn link_markup(m: Seq<char>) -> Seq<char> {
    let core = m.take(trail_start(m));
    seq!['['] + core + seq![']', '('] + core + seq![')'] + m.skip(trail_start(m))
}

/// The URL match `[i, e)` is left alone: it follows `](`, or it stands between
/// `<` and `>`.
pub open spec fn keep_as_is(s: Seq<char>, i: int, e: int) -> bool {
    (i >= 2 && s[i - 2] == ']' && s[i - 1] == '(') || (i >= 1 && s[i - 1] == '<' && e < s.len()
        && s[e] == '>')
}

/// The autolinked text of `s` from the search position `p`, where the text
/// from `last` on has not been written yet.
pub open spec fn link_scan(s: Seq<char>, p: int, last: int) -> Seq<char>
    decreases s.len() - p,
{
    if p < 0 || p >= s.len() {
        s.subrange(last, s.len() as int)
    } else {
        let e = url_end(s, p, Stop::SpaceOrBracket);
        if p < e <= s.len() {
            if keep_as_is(s, p, e) {
                link_scan(s, e, last)
            } else {
                s.subrange(last, p) + link_markup(s.subrange(p, e)) + link_scan(s, e, e)
            }
        } else {
            link_scan(s, p + 1, last)
        }
    }
}

/// `s` with each bare URL, left to right, rewritten into link syntax.
pub open spec fn autolinked(s: Seq<char>) -> Seq<char> {
    link_scan(s, 0, 0)
}

fn link_markup_into(out: &mut Vec<char>, s: &[char], i: usize, e: usize)
    requires
        i <= e <= s@.len(),
    ensures
        final(out)@ == old(out)@ + link_markup(s@.subrange(i as int, e as int)),
{
    let m = slice_vec(s, i, e);
    let t = trail_bound(&m);
    let core = slice_vec(&m, 0, t);
    let tail = slice_vec(&m, t, m.len());
    out.push('[');
    push_all(out, &core);
    out.push(']');
    out.push('(');
    push_all(out, &core);
    out.push(')');
    push_all(out, &tail);
    proof {
        assert(m@.subrange(0, t as int) == m@.take(t as int));
        assert(m@.subrange(t as int, m@.len() as int) == m@.skip(t as int));
        assert(final(out)@ =~= old(out)@ + link_markup(s@.subrange(i as int, e as int)));
    }
}

fn autolink_chars(s: &[char]) -> (r: Vec<char>)
    ensures
        r@ == autolinked(s@),
{
    let mut out: Vec<char> = Vec::new();
    let mut p: usize = 0;
    let mut last: usize = 0;
    let stop = Stop::SpaceOrBracket;
    while p < s.len()
        invariant
            last <= p <= s@.len(),
            stop == Stop::SpaceOrBracket,
            autolinked(s@) == out@ + link_scan(s@, p as int, last as int),
        decreases s@.len() - p,
    {
        let e = url_end_exec(s, p, &stop);
        if e > p {
            let after_paren = p >= 2 && s[p - 2] == ']' && s[p - 1] == '(';
            let in_angles = p >= 1 && s[p - 1] == '<' && e < s.len() && s[e] == '>';
            if !(after_paren || in_angles) {
                let ghost before = out@;
                let gap = slice_vec(s, last, p);
                push_all(&mut out, &gap);
                link_markup_into(&mut out, s, p, e);
                last = e;
            }
            p = e;
        } else {
            p = p + 1;
        }
    }
    let rest = slice_vec(s, last, s.len());
    push_all(&mut out, &rest);
    out
}

} // verus!

verus! {

/// Bare URLs in a plain text segment, one without code, rewritten into link syntax.
pub fn autolink_text(text: &str) -> (r: String)
    ensures
        r@ == autolinked(text@),
{
    let cs = chars_of(text);
    let out = autolink_chars(&cs);
    string_of(&out)
}

/// Scans a line for inline code spans delimited by backticks: the text written
/// so far, the segment since the last backtick, and whether that segment is
/// inside a code span.
pub open spec fn inline_scan(l: Seq<char>) -> (Seq<char>, Seq<char>, bool)
    decreases l.len(),
{
    if l.len() == 0 {
        (Seq::empty(), Seq::empty(), false)
    } else {
        let prev = inline_scan(l.drop_last());
        let c = l.last();
        if c == '`' {
            if prev.2 {
                (prev.0 + prev.1 + seq!['`'], Seq::empty(), false)
            } else {
                (prev.0 + autolinked(prev.1) + seq!['`'], Seq::empty(), true)
            }
        } else {
            (prev.0, prev.1.push(c), prev.2)
        }
    }
}

/// One line outside fenced code, autolinked outside its inline code spans.
pub open spec fn autolink_line(l: Seq<char>) -> Seq<char> {
    let st = inline_scan(l);
    if st.2 {
        st.0 + st.1
    } else {
        st.0 + autolinked(st.1)
    }
}

/// A line that opens or closes a fenced code block.
pub open spec fn is_fence(l: Seq<char>) -> bool {
    occurs_at(trim_start(l), "```"@, 0)
}

/// The autolinked lines, and whether the last line left a fenced block open.
pub open spec fn autolink_lines(ls: Seq<Seq<char>>) -> (Seq<Seq<char>>, bool)
    decreases ls.len(),
{
    if ls.len() == 0 {
        (Seq::empty(), false)
    } else {
        let prev = autolink_lines(ls.drop_last());
        let l = ls.last();
        if is_fence(l) {
            (prev.0.push(l), !prev.1)
        } else if prev.1 {
            (prev.0.push(l), prev.1)
        } else {
            (prev.0.push(autolink_line(l)), prev.1)
        }
    }
}

/// The Markdown `md` with bare URLs made into links, outside fenced code blocks
/// and inline code spans; its lines are joined with `\n`.
pub open spec fn autolinked_markdown(md: Seq<char>) -> Seq<char> {
    join_lines(autolink_lines(lines_of(md)).0)
}

fn autolink_line_exec(l: &[char]) -> (r: Vec<char>)
    ensures
        r@ == autolink_line(l@),
{
    let mut done: Vec<char> = Vec::new();
    let mut buf: Vec<char> = Vec::new();
    let mut in_code = false;
    let mut i: usize = 0;
    while i < l.len()
        invariant
            i <= l@.len(),
            (done@, buf@, in_code) == inline_scan(l@.take(i as int)),
        decreases l@.len() - i,
    {
        let c = l[i];
        assert(l@.take(i + 1).drop_last() == l@.take(i as int));
        if c == '`' {
            if in_code {
                push_all(&mut done, &buf);
                in_code = false;
            } else {
                let linked = autolink_chars(&buf);
                push_all(&mut done, &linked);
                in_code = true;
            }
            done.push('`');
            buf = Vec::new();
        } else {
            buf.push(c);
        }
        i = i + 1;
    }
    assert(l@.take(l@.len() as int) == l@);
    if in_code {
        push_all(&mut done, &buf);
    } else {
        let linked = autolink_chars(&buf);
        push_all(&mut done, &linked);
    }
    done
}

fn is_fence_exec(l: &[char]) -> (r: bool)
    ensures
        r == is_fence(l@),
{
    let (a, _b) = trim_bounds(l);
    let rest = slice_vec(l, a, l.len());
    let fence = chars_of("```");
    assert(rest@ == l@.skip(a as int));
    matches_at(&rest, &fence, 0)
}

/// Converts bare URLs in Markdown into explicit `[url](url)` links, leaving
/// fenced code blocks, inline code spans, link targets and `<url>` forms alone.
pub fn autolink_markdown(markdown: &str) -> (r: String)
    ensures
        r@ == autolinked_markdown(markdown@),
{
    let cs = chars_of(markdown);
    let lines = split_lines(&cs);
    let ghost ls = lines_of(markdown@);
    let mut out: Vec<char> = Vec::new();
    let mut in_block = false;
    let mut i: usize = 0;
    while i < lines.len()
        invariant
            i <= lines@.len(),
            ls == lines_of(markdown@),
            lines@.len() == ls.len(),
            forall|k: int| 0 <= k < lines@.len() ==> (#[trigger] lines@[k])@ == ls[k],
            in_block == autolink_lines(ls.take(i as int)).1,
            out@ == join_lines(autolink_lines(ls.take(i as int)).0),
            autolink_lines(ls.take(i as int)).0.len() == i,
        decreases lines@.len() - i,
    {
        let l = &lines[i];
        assert(ls.take(i + 1).drop_last() == ls.take(i as int));
        assert(ls.take(i + 1).last() == l@);
        let ghost prev = autolink_lines(ls.take(i as int)).0;
        let piece: Vec<char>;
        if is_fence_exec(l) {
            piece = l.clone();
            in_block = !in_block;
        } else if in_block {
            piece = l.clone();
        } else {
            piece = autolink_line_exec(l);
        }
        assert(piece@ == autolink_lines(ls.take(i + 1)).0.last());
        if i > 0 {
            out.push('\n');
        }
        push_all(&mut out, &piece);
        proof {
            let now = autolink_lines(ls.take(i + 1)).0;
            assert(now == prev.push(piece@));
            assert(now.drop_last() == prev);
            if i == 0 {
                assert(out@ == piece@);
            }
        }
        i = i + 1;
    }
    assert(ls.take(ls.len() as int) == ls);
    string_of(&out)
}

} // verus!

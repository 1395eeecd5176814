//! Loading one document: frontmatter, autolinking, rendering, and the derived
//! title, date, excerpt, first letter and slugs.

use vstd::prelude::*;
use vstd::multiset::Multiset;
use crate::autolink::{autolink_markdown, autolinked_markdown};
use crate::frontmatter::{body_of, entries_view, metadata_of, parse_frontmatter};
use crate::post::{MetaEntry, Post, Timestamp};
use crate::slug::{sanitize, sanitize_slug};
use crate::text::{chars_of, matches_at, occurs_at, slice_vec, split_lines, string_of, trim, trimmed, lines_of, views, seq_eq};

verus! {

/// The HTML that the Markdown renderer makes of a text.
pub uninterp spec fn markdown_html(md: Seq<char>) -> Seq<char>;

/// The instant, as UTC seconds and nanoseconds, that an RFC 3339 text denotes.
pub uninterp spec fn rfc3339_instant(text: Seq<char>) -> Option<(int, int)>;

/// Whether a character has the Unicode `Alphabetic` property.
pub uninterp spec fn alphabetic(c: char) -> bool;

/// The first character of the Unicode uppercase mapping of a character.
pub uninterp spec fn upper_first(c: char) -> char;

/// Relies on `markdown::to_html` with its default options.
#[verifier::external_body]
fn render_markdown(md: &str) -> (r: String)
    ensures
        r@ == markdown_html(md@),
{
    markdown::to_html(md)
}

/// Relies on chrono's `DateTime::parse_from_rfc3339`, taken to UTC.
#[verifier::external_body]
fn parse_rfc3339(text: &str) -> (r: Option<Timestamp>)
    ensures
        r is None ==> rfc3339_instant(text@) is None,
        r matches Some(t) ==> rfc3339_instant(text@) == Some((t.secs as int, t.nanos as int)),
{
    match chrono::DateTime::parse_from_rfc3339(text) {
        Ok(dt) => {
            let u = dt.with_timezone(&chrono::Utc);
            Some(Timestamp { secs: u.timestamp(), nanos: u.timestamp_subsec_nanos() })
        },
        Err(_) => None,
    }
}


/// Relies on `char::is_alphabetic`.
#[verifier::external_body]
pub(crate) fn is_alphabetic(c: char) -> (r: bool)
    ensures
        r == alphabetic(c),
{
    c.is_alphabetic()
}

/// Relies on `char::to_uppercase`, of which it takes the first character.
#[verifier::external_body]
pub(crate) fn uppercase_first(c: char) -> (r: char)
    ensures
        r == upper_first(c),
{
    c.to_uppercase().next().unwrap_or(c)
}

/// The end of the paragraph whose text starts at `j`: the first `</p>` at or
/// after `j` with no line break before it, or -1.
pub open spec fn para_close(s: Seq<char>, j: int) -> int
    decreases s.len() - j,
{
    if j < 0 || j >= s.len() {
        -1
    } else if occurs_at(s, "</p>"@, j) {
        j
    } else if s[j] == '\n' {
        -1
    } else {
        para_close(s, j + 1)
    }
}

/// The text of the first one-line paragraph `<p>...</p>` at or after `i`.
pub open spec fn first_paragraph(s: Seq<char>, i: int) -> Option<Seq<char>>
    decreases s.len() - i,
{
    if i < 0 || i >= s.len() {
        None
    } else if occurs_at(s, "<p>"@, i) && para_close(s, i + 3) >= 0 {
        Some(s.subrange(i + 3, para_close(s, i + 3)))
    } else {
        first_paragraph(s, i + 1)
    }
}

/// The first alphabetic character of `p` at or after `i`, uppercased.
pub open spec fn first_alpha_upper(p: Seq<char>, i: int) -> Option<char>
    decreases p.len() - i,
{
    if i < 0 || i >= p.len() {
        None
    } else if alphabetic(p[i]) {
        Some(upper_first(p[i]))
    } else {
        first_alpha_upper(p, i + 1)
    }
}

/// The letter a document opens with: the first alphabetic character of its
/// first rendered paragraph, uppercased.
pub open spec fn initial_of(html: Seq<char>) -> Option<char> {
    match first_paragraph(html, 0) {
        Some(p) => first_alpha_upper(p, 0),
        None => None,
    }
}

pub fn para_close_exec(s: &[char], j: usize) -> (r: Option<usize>)
    requires
        j <= s@.len(),
    ensures
        match r {
            Some(k) => para_close(s@, j as int) == k as int && j <= k && k + 4 <= s@.len(),
            None => para_close(s@, j as int) == -1,
        },
{
    let close = chars_of("</p>");
    proof {
        reveal_strlit("</p>");
    }
    let mut k: usize = j;
    while k < s.len()
        invariant
            j <= k <= s@.len(),
            close@ == "</p>"@,
            close@.len() == 4,
            para_close(s@, j as int) == para_close(s@, k as int),
        decreases s@.len() - k,
    {
        if matches_at(s, &close, k) {
            return Some(k);
        }
        if s[k] == '\n' {
            return None;
        }
        k = k + 1;
    }
    None
}

fn first_paragraph_exec(s: &[char]) -> (r: Option<Vec<char>>)
    ensures
        match r {
            Some(p) => first_paragraph(s@, 0) == Some(p@),
            None => first_paragraph(s@, 0) is None,
        },
{
    let open = chars_of("<p>");
    proof {
        reveal_strlit("<p>");
    }
    let mut i: usize = 0;
    while i < s.len()
        invariant
            i <= s@.len(),
            open@ == "<p>"@,
            open@.len() == 3,
            first_paragraph(s@, 0) == first_paragraph(s@, i as int),
        decreases s@.len() - i,
    {
        if matches_at(s, &open, i) {
            match para_close_exec(s, i + 3) {
                Some(k) => {
                    return Some(slice_vec(s, i + 3, k));
                },
                None => {},
            }
        }
        i = i + 1;
    }
    None
}

fn initial_exec(html: &[char]) -> (r: Option<char>)
    ensures
        r == initial_of(html@),
{
    match first_paragraph_exec(html) {
        None => None,
        Some(p) => {
            let mut i: usize = 0;
            while i < p.len()
                invariant
                    i <= p@.len(),
                    first_paragraph(html@, 0) == Some(p@),
                    first_alpha_upper(p@, 0) == first_alpha_upper(p@, i as int),
                decreases p@.len() - i,
            {
                if is_alphabetic(p[i]) {
                    return Some(uppercase_first(p[i]));
                }
                i = i + 1;
            }
            None
        },
    }
}

} // verus!

verus! {

/// The text of the first metadata entry with key `key`.
pub open spec fn meta_text(m: Seq<(Seq<char>, Option<Seq<char>>)>, key: Seq<char>) -> Option<Seq<char>>
    decreases m.len(),
{
    if m.len() == 0 {
        None
    } else if m[0].0 == key {
        m[0].1
    } else {
        meta_text(m.drop_first(), key)
    }
}

/// The first line of `ls` at or after `i` that is not blank, trimmed.
pub open spec fn first_nonblank(ls: Seq<Seq<char>>, i: int) -> Option<Seq<char>>
    decreases ls.len() - i,
{
    if i < 0 || i >= ls.len() {
        None
    } else if trim(ls[i]).len() > 0 {
        Some(trim(ls[i]))
    } else {
        first_nonblank(ls, i + 1)
    }
}

/// `s`, or `fallback` when there is none.
pub open spec fn or_else(s: Option<Seq<char>>, fallback: Seq<char>) -> Seq<char> {
    match s {
        Some(t) => t,
        None => fallback,
    }
}

/// The instant that the `date` field of `meta` gives, where it parses as RFC 3339.
pub open spec fn date_of(meta: Seq<(Seq<char>, Option<Seq<char>>)>) -> Option<(int, int)> {
    match meta_text(meta, "date"@) {
        Some(d) => rfc3339_instant(d),
        None => None,
    }
}

pub open spec fn opt_view(s: Option<String>) -> Option<Seq<char>> {
    match s {
        Some(t) => Some(t@),
        None => None,
    }
}

fn meta_lookup(m: &Vec<MetaEntry>, key: &str) -> (r: Option<String>)
    ensures
        opt_view(r) == meta_text(crate::frontmatter::entries_view(m@), key@),
{
    let k = chars_of(key);
    let ghost mv = entries_view(m@);
    assert(mv.skip(0) == mv);
    let mut i: usize = 0;
    while i < m.len()
        invariant
            i <= m@.len(),
            k@ == key@,
            mv == entries_view(m@),
            meta_text(mv, key@) == meta_text(mv.skip(i as int), key@),
        decreases m@.len() - i,
    {
        let kc = chars_of(m[i].key.as_str());
        assert(mv.skip(i as int)[0] == entries_view(m@)[i as int]);
        assert(mv.skip(i as int).drop_first() == mv.skip(i + 1));
        if seq_eq(&kc, &k) {
            return match &m[i].text {
                Some(t) => Some(t.clone()),
                None => None,
            };
        }
        i = i + 1;
    }
    None
}

fn first_nonblank_exec(body: &[char]) -> (r: Option<String>)
    ensures
        opt_view(r) == first_nonblank(lines_of(body@), 0),
{
    let lines = split_lines(body);
    let mut i: usize = 0;
    while i < lines.len()
        invariant
            i <= lines@.len(),
            views(lines@) == lines_of(body@),
            first_nonblank(lines_of(body@), 0) == first_nonblank(lines_of(body@), i as int),
        decreases lines@.len() - i,
    {
        let t = trimmed(&lines[i]);
        assert(lines_of(body@)[i as int] == lines@[i as int]@);
        if t.len() > 0 {
            return Some(string_of(&t));
        }
        i = i + 1;
    }
    None
}

/// `p` is the document loaded from the Markdown source `raw` of a file with
/// stem `stem`, dated `fallback` unless its frontmatter gives a date that parses.
pub open spec fn is_loaded(p: Post, raw: Seq<char>, stem: Option<Seq<char>>, fallback: Timestamp) -> bool {
    &&& entries_view(p.frontmatter@) == metadata_of(raw)
    &&& p.content@ == body_of(raw)
    &&& p.html_content@ == markdown_html(autolinked_markdown(body_of(raw)))
    &&& p.first_letter == initial_of(p.html_content@)
    &&& p.title@ == or_else(meta_text(metadata_of(raw), "title"@), or_else(stem, "Untitled"@))
    &&& p.original_slug@ == or_else(stem, "untitled"@)
    &&& p.slug@ == sanitize(p.original_slug@)
    &&& match date_of(metadata_of(raw)) {
        Some((s, n)) => p.date.secs == s && p.date.nanos == n,
        None => p.date == fallback,
    }
    &&& opt_view(p.excerpt) == match meta_text(metadata_of(raw), "excerpt"@) {
        Some(e) => Some(e),
        None => first_nonblank(lines_of(body_of(raw)), 0),
    }
}

/// Builds the document for the Markdown source `content` of the file whose stem
/// is `file_stem`; `fallback_date` is its date when the frontmatter gives none
/// that parses.
pub fn parse_post(content: &str, file_stem: Option<&str>, fallback_date: Timestamp) -> (r: Post)
    ensures
        is_loaded(r, content@, opt_view_str(file_stem), fallback_date),
{
    let (frontmatter, markdown) = parse_frontmatter(content);
    let linked = autolink_markdown(markdown.as_str());
    let html_content = render_markdown(linked.as_str());
    let html_chars = chars_of(html_content.as_str());
    let first_letter = initial_exec(&html_chars);
    let stem_title = match file_stem {
        Some(s) => String::from_str(s),
        None => String::from_str("Untitled"),
    };
    let title = match meta_lookup(&frontmatter, "title") {
        Some(t) => t,
        None => stem_title,
    };
    let date = match meta_lookup(&frontmatter, "date") {
        Some(d) => match parse_rfc3339(d.as_str()) {
            Some(t) => t,
            None => fallback_date,
        },
        None => fallback_date,
    };
    let excerpt = match meta_lookup(&frontmatter, "excerpt") {
        Some(e) => Some(e),
        None => {
            let body = chars_of(markdown.as_str());
            first_nonblank_exec(&body)
        },
    };
    let original_slug = match file_stem {
        Some(s) => String::from_str(s),
        None => String::from_str("untitled"),
    };
    let slug = sanitize_slug(original_slug.as_str());
    Post {
        slug,
        original_slug,
        title,
        date,
        excerpt,
        content: markdown,
        html_content,
        first_letter,
        frontmatter,
    }
}

/// The text of an optional string slice.
pub open spec fn opt_view_str(s: Option<&str>) -> Option<Seq<char>> {
    match s {
        Some(t) => Some(t@),
        None => None,
    }
}

} // verus!

verus! {

/// No document of `s` is newer than one before it.
pub open spec fn newest_first(s: Seq<Post>) -> bool {
    forall|i: int, j: int| 0 <= i < j < s.len() ==> !(#[trigger] s[j]).date.is_after((#[trigger] s[i]).date)
}

/// The documents ordered by date, newest first.
pub fn sort_posts(posts: Vec<Post>) -> (r: Vec<Post>)
    ensures
        r@.to_multiset() == posts@.to_multiset(),
        newest_first(r@),
{
    broadcast use vstd::seq_lib::group_to_multiset_ensures;
    broadcast use vstd::multiset::group_multiset_axioms;

    let ghost all = posts@;
    let mut src = posts;
    let mut out: Vec<Post> = Vec::new();
    assert(out@.to_multiset() =~= Multiset::empty());
    assert(src@.to_multiset().add(out@.to_multiset()) =~= all.to_multiset());
    while src.len() > 0
        invariant
            src@.to_multiset().add(out@.to_multiset()) == all.to_multiset(),
            newest_first(out@),
        decreases src@.len(),
    {
        let ghost before = src@;
        let p = src.pop().unwrap();
        assert(before == src@.push(p));
        let mut j: usize = 0;
        while j < out.len() && out[j].date.after(&p.date)
            invariant
                j <= out@.len(),
                forall|k: int| 0 <= k < j ==> (#[trigger] out@[k]).date.is_after(p.date),
            decreases out@.len() - j,
        {
            j = j + 1;
        }
        let ghost old_out = out@;
        out.insert(j, p);
        assert(out@ == old_out.insert(j as int, p));
        proof {
            vstd::seq_lib::to_multiset_build(src@, p);
            vstd::seq_lib::to_multiset_insert(old_out, j as int, p);
        }
        assert(before.to_multiset() == src@.to_multiset().insert(p));
        assert(out@.to_multiset() == old_out.to_multiset().insert(p));
        assert(src@.to_multiset().insert(p).add(old_out.to_multiset()) =~= src@.to_multiset().add(
            old_out.to_multiset().insert(p),
        ));
        assert(src@.to_multiset().add(out@.to_multiset()) =~= all.to_multiset());
        assert forall|a: int, b: int| 0 <= a < b < out@.len() implies !(#[trigger] out@[b]).date.is_after(
            (#[trigger] out@[a]).date,
        ) by {
            if b < j {
                assert(out@[a] == old_out[a] && out@[b] == old_out[b]);
            } else if b == j {
                assert(out@[a] == old_out[a]);
            } else if a < j {
                assert(out@[a] == old_out[a] && out@[b] == old_out[b - 1]);
                assert(!old_out[j as int].date.is_after(p.date));
                if b - 1 > j {
                    assert(!old_out[b - 1].date.is_after(old_out[j as int].date));
                }
            } else if a == j {
                assert(out@[b] == old_out[b - 1]);
                assert(!old_out[j as int].date.is_after(p.date));
                if b - 1 > j {
                    assert(!old_out[b - 1].date.is_after(old_out[j as int].date));
                }
            } else {
                assert(out@[a] == old_out[a - 1] && out@[b] == old_out[b - 1]);
            }
        }
    }
    assert(src@.to_multiset() =~= Multiset::empty());
    assert(out@.to_multiset() =~= all.to_multiset());
    out
}

} // verus!

verus! {

/// A document's slug depends on its file stem alone: documents loaded from files
/// with the same stem (whatever their text and dates) get the same slug, and it
/// is well formed.
pub proof fn lemma_slug_stable(
    p: Post,
    q: Post,
    raw_p: Seq<char>,
    raw_q: Seq<char>,
    stem: Option<Seq<char>>,
    date_p: Timestamp,
    date_q: Timestamp,
)
    requires
        is_loaded(p, raw_p, stem, date_p),
        is_loaded(q, raw_q, stem, date_q),
    ensures
        p.slug@ == q.slug@,
        p.slug@ == sanitize(or_else(stem, "untitled"@)),
        crate::slug::is_slug(p.slug@),
{
    crate::slug::lemma_sanitize_idempotent(p.original_slug@);
}

} // verus!

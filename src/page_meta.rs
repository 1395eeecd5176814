//! Title and description of a fetched web page, read from its `<meta>` tags and
//! its `<title>`.

use vstd::prelude::*;
use crate::link_meta::Annotation;
use crate::loader::opt_view;
use crate::text::{chars_of, find_from, find_seq, index_of, index_of_exec, is_ws, is_ws_char, matches_at, occurs_at, replace_all, replace_seq, slice_vec, string_of};

verus! {

/// Which attribute names the page property a `<meta>` tag describes.
pub enum KeyAttr {
    Name,
    Property,
    NameOrProperty,
}

/// The end of the run of white space from `j`.
pub open spec fn skip_space(s: Seq<char>, j: int) -> int
    decreases s.len() - j,
{
    if j < 0 || j >= s.len() || !is_ws(s[j]) {
        j
    } else {
        skip_space(s, j + 1)
    }
}

fn skip_space_exec(s: &[char], j: usize) -> (r: usize)
    requires
        j <= s@.len(),
    ensures
        r == skip_space(s@, j as int),
        j <= r <= s@.len(),
{
    let mut k: usize = j;
    while k < s.len() && is_ws_char(s[k])
        invariant
            j <= k <= s@.len(),
            skip_space(s@, j as int) == skip_space(s@, k as int),
        decreases s@.len() - k,
    {
        k = k + 1;
    }
    k
}

/// The quoted value of the attribute `name` written at `k` of the tag text `t`:
/// `name`, white space, `=`, white space, and a value in single or double quotes.
pub open spec fn attr_at(t: Seq<char>, name: Seq<char>, k: int) -> Option<Seq<char>> {
    if occurs_at(t, name, k) && (k == 0 || is_ws(t[k - 1])) {
        let a = skip_space(t, k + name.len());
        if 0 <= a < t.len() && t[a] == '=' {
            let b = skip_space(t, a + 1);
            if 0 <= b < t.len() && (t[b] == '"' || t[b] == '\'') {
                let c = b + 1 + index_of(t.skip(b + 1), t[b]);
                if c < t.len() {
                    Some(t.subrange(b + 1, c))
                } else {
                    None
                }
            } else {
                None
            }
        } else {
            None
        }
    } else {
        None
    }
}

/// The value of the first well-formed `name` attribute of `t` at or after `k`.
pub open spec fn attr_value(t: Seq<char>, name: Seq<char>, k: int) -> Option<Seq<char>>
    decreases t.len() - k,
{
    if k < 0 || k >= t.len() {
        None
    } else if attr_at(t, name, k) is Some {
        attr_at(t, name, k)
    } else {
        attr_value(t, name, k + 1)
    }
}

fn attr_value_exec(t: &[char], name: &[char]) -> (r: Option<Vec<char>>)
    ensures
        match r {
            Some(v) => attr_value(t@, name@, 0) == Some(v@),
            None => attr_value(t@, name@, 0) is None,
        },
{
    let n = t.len();
    let mut k: usize = 0;
    while k < n
        invariant
            n == t@.len(),
            k <= n,
            attr_value(t@, name@, 0) == attr_value(t@, name@, k as int),
        decreases n - k,
    {
        if matches_at(t, name, k) && (k == 0 || is_ws_char(t[k - 1])) {
            let a = skip_space_exec(t, k + name.len());
            if a < n && t[a] == '=' {
                let b = skip_space_exec(t, a + 1);
                if b < n && (t[b] == '"' || t[b] == '\'') {
                    let rest = slice_vec(t, b + 1, n);
                    assert(rest@ == t@.skip(b + 1));
                    let c = index_of_exec(&rest, t[b]);
                    if c < rest.len() {
                        return Some(slice_vec(t, b + 1, b + 1 + c));
                    }
                }
            }
        }
        k = k + 1;
    }
    None
}

/// The text of the tag that opens at `i`: up to its first `>`, or to the end.
pub open spec fn tag_at(s: Seq<char>, i: int) -> Seq<char> {
    s.subrange(i, i + index_of(s.skip(i), '>'))
}

/// The tag `t` describes the page property `key` through the attribute `attr`.
pub open spec fn describes(t: Seq<char>, attr: KeyAttr, key: Seq<char>) -> bool {
    match attr {
        KeyAttr::Name => attr_value(t, "name"@, 0) == Some(key),
        KeyAttr::Property => attr_value(t, "property"@, 0) == Some(key),
        KeyAttr::NameOrProperty => attr_value(t, "name"@, 0) == Some(key) || attr_value(
            t,
            "property"@,
            0,
        ) == Some(key),
    }
}

/// The `content` of the first `<meta>` tag at or after `i` that describes `key`
/// and has a content.
pub open spec fn meta_content(s: Seq<char>, attr: KeyAttr, key: Seq<char>, i: int) -> Option<Seq<char>>
    decreases s.len() - i,
{
    if i < 0 || i >= s.len() {
        None
    } else if occurs_at(s, "<meta"@, i) && describes(tag_at(s, i), attr, key) && attr_value(
        tag_at(s, i),
        "content"@,
        0,
    ) is Some {
        attr_value(tag_at(s, i), "content"@, 0)
    } else {
        meta_content(s, attr, key, i + 1)
    }
}

/// The text of the first `<title ...>...</title>` element at or after `i`.
pub open spec fn title_element(s: Seq<char>, i: int) -> Option<Seq<char>>
    decreases s.len() - i,
{
    if i < 0 || i >= s.len() {
        None
    } else {
        let j = i + index_of(s.skip(i), '>');
        let close = find_from(s, "</title>"@, j + 1);
        if occurs_at(s, "<title"@, i) && j < s.len() && close >= 0 {
            Some(s.subrange(j + 1, close))
        } else {
            title_element(s, i + 1)
        }
    }
}

fn tag_at_exec(s: &[char], i: usize) -> (r: Vec<char>)
    requires
        i <= s@.len(),
    ensures
        r@ == tag_at(s@, i as int),
{
    let rest = slice_vec(s, i, s.len());
    assert(rest@ == s@.skip(i as int));
    let e = index_of_exec(&rest, '>');
    slice_vec(s, i, i + e)
}

fn describes_exec(t: &[char], attr: &KeyAttr, key: &[char]) -> (r: bool)
    ensures
        r == describes(t@, *attr, key@),
{
    let name = chars_of("name");
    let property = chars_of("property");
    let by_name = match attr_value_exec(t, &name) {
        Some(v) => crate::text::seq_eq(&v, key),
        None => false,
    };
    let by_property = match attr_value_exec(t, &property) {
        Some(v) => crate::text::seq_eq(&v, key),
        None => false,
    };
    match attr {
        KeyAttr::Name => by_name,
        KeyAttr::Property => by_property,
        KeyAttr::NameOrProperty => by_name || by_property,
    }
}

fn meta_content_exec(s: &[char], attr: &KeyAttr, key: &str) -> (r: Option<Vec<char>>)
    ensures
        match r {
            Some(v) => meta_content(s@, *attr, key@, 0) == Some(v@),
            None => meta_content(s@, *attr, key@, 0) is None,
        },
{
    let open = chars_of("<meta");
    let content = chars_of("content");
    let k = chars_of(key);
    let mut i: usize = 0;
    while i < s.len()
        invariant
            i <= s@.len(),
            open@ == "<meta"@,
            content@ == "content"@,
            k@ == key@,
            meta_content(s@, *attr, key@, 0) == meta_content(s@, *attr, key@, i as int),
        decreases s@.len() - i,
    {
        if matches_at(s, &open, i) {
            let t = tag_at_exec(s, i);
            if describes_exec(&t, attr, &k) {
                match attr_value_exec(&t, &content) {
                    Some(v) => {
                        return Some(v);
                    },
                    None => {},
                }
            }
        }
        i = i + 1;
    }
    None
}

fn title_element_exec(s: &[char]) -> (r: Option<Vec<char>>)
    ensures
        match r {
            Some(v) => title_element(s@, 0) == Some(v@),
            None => title_element(s@, 0) is None,
        },
{
    let open = chars_of("<title");
    let close = chars_of("</title>");
    let mut i: usize = 0;
    while i < s.len()
        invariant
            i <= s@.len(),
            open@ == "<title"@,
            close@ == "</title>"@,
            title_element(s@, 0) == title_element(s@, i as int),
        decreases s@.len() - i,
    {
        let rest = slice_vec(s, i, s.len());
        assert(rest@ == s@.skip(i as int));
        let j = i + index_of_exec(&rest, '>');
        if matches_at(s, &open, i) && j < s.len() {
            let after = slice_vec(s, j + 1, s.len());
            assert(after@ == s@.skip(j + 1));
            match find_seq(&after, &close) {
                Some(c) => {
                    proof {
                        crate::text::lemma_find_skip(s@, close@, j + 1, 0);
                    }
                    return Some(slice_vec(s, j + 1, j + 1 + c));
                },
                None => {
                    proof {
                        crate::text::lemma_find_skip(s@, close@, j + 1, 0);
                        crate::text::lemma_find_from_range(s@, close@, j + 1);
                    }
                },
            }
        }
        i = i + 1;
    }
    None
}

} // verus!

verus! {

/// `s` with the entities `&amp; &lt; &gt; &quot; &#39;` decoded, in that order.
pub open spec fn decode_entities(s: Seq<char>) -> Seq<char> {
    replace_all(
        replace_all(
            replace_all(replace_all(replace_all(s, "&amp;"@, "&"@), "&lt;"@, "<"@), "&gt;"@, ">"@),
            "&quot;"@,
            "\""@,
        ),
        "&#39;"@,
        "'"@,
    )
}

/// Scans `s` for runs of white space: the text with each run made one space,
/// and whether `s` ends inside a run.
pub open spec fn space_scan(s: Seq<char>) -> (Seq<char>, bool)
    decreases s.len(),
{
    if s.len() == 0 {
        (Seq::empty(), false)
    } else {
        let prev = space_scan(s.drop_last());
        let c = s.last();
        if is_ws(c) {
            if prev.1 {
                prev
            } else {
                (prev.0.push(' '), true)
            }
        } else {
            (prev.0.push(c), false)
        }
    }
}

/// The display text of an HTML fragment: entities decoded, each run of white
/// space made one space.
pub open spec fn html_text(s: Seq<char>) -> Seq<char> {
    space_scan(decode_entities(s)).0
}

fn replace_lit(s: Vec<char>, from: &str, to: &str) -> (r: Vec<char>)
    requires
        from@.len() > 0,
    ensures
        r@ == replace_all(s@, from@, to@),
{
    let f = chars_of(from);
    let t = chars_of(to);
    replace_seq(&s, &f, &t)
}

/// Decodes the common HTML entities and collapses white space.
pub fn html_unescape(s: &str) -> (r: String)
    ensures
        r@ == html_text(s@),
{
    proof {
        reveal_strlit("&amp;");
        reveal_strlit("&lt;");
        reveal_strlit("&gt;");
        reveal_strlit("&quot;");
        reveal_strlit("&#39;");
    }
    let a = replace_lit(chars_of(s), "&amp;", "&");
    let b = replace_lit(a, "&lt;", "<");
    let c = replace_lit(b, "&gt;", ">");
    let d = replace_lit(c, "&quot;", "\"");
    let e = replace_lit(d, "&#39;", "'");
    let mut out: Vec<char> = Vec::new();
    let mut in_space = false;
    let mut i: usize = 0;
    while i < e.len()
        invariant
            i <= e@.len(),
            (out@, in_space) == space_scan(e@.take(i as int)),
        decreases e@.len() - i,
    {
        assert(e@.take(i + 1).drop_last() == e@.take(i as int));
        let ch = e[i];
        if is_ws_char(ch) {
            if !in_space {
                out.push(' ');
                in_space = true;
            }
        } else {
            out.push(ch);
            in_space = false;
        }
        i = i + 1;
    }
    assert(e@.take(e@.len() as int) == e@);
    string_of(&out)
}

/// The first of three candidates that is present.
pub open spec fn first_present(a: Option<Seq<char>>, b: Option<Seq<char>>, c: Option<Seq<char>>) -> Option<Seq<char>> {
    if a is Some {
        a
    } else if b is Some {
        b
    } else {
        c
    }
}

pub open spec fn text_of(x: Option<Seq<char>>) -> Option<Seq<char>> {
    match x {
        Some(v) => Some(html_text(v)),
        None => None,
    }
}

/// The title of a page: its `twitter:title`, else its `og:title`, else its
/// `<title>`.
pub open spec fn page_title(html: Seq<char>) -> Option<Seq<char>> {
    text_of(first_present(
        meta_content(html, KeyAttr::NameOrProperty, "twitter:title"@, 0),
        meta_content(html, KeyAttr::Property, "og:title"@, 0),
        title_element(html, 0),
    ))
}

/// The description of a page: its `twitter:description`, else its
/// `name=description`, else its `og:description`.
pub open spec fn page_description(html: Seq<char>) -> Option<Seq<char>> {
    text_of(first_present(
        meta_content(html, KeyAttr::NameOrProperty, "twitter:description"@, 0),
        meta_content(html, KeyAttr::Name, "description"@, 0),
        meta_content(html, KeyAttr::Property, "og:description"@, 0),
    ))
}

fn text_of_exec(x: Option<Vec<char>>) -> (r: Option<String>)
    ensures
        opt_view(r) == text_of(match x {
            Some(v) => Some(v@),
            None => None,
        }),
{
    match x {
        Some(v) => {
            let s = string_of(&v);
            Some(html_unescape(s.as_str()))
        },
        None => None,
    }
}

/// The title and description of a fetched page.
pub fn page_metadata(html: &str) -> (r: Annotation)
    ensures
        r.view() == (page_title(html@), page_description(html@)),
{
    let s = chars_of(html);
    let title = match meta_content_exec(&s, &KeyAttr::NameOrProperty, "twitter:title") {
        Some(v) => Some(v),
        None => match meta_content_exec(&s, &KeyAttr::Property, "og:title") {
            Some(v) => Some(v),
            None => title_element_exec(&s),
        },
    };
    let description = match meta_content_exec(&s, &KeyAttr::NameOrProperty, "twitter:description") {
        Some(v) => Some(v),
        None => match meta_content_exec(&s, &KeyAttr::Name, "description") {
            Some(v) => Some(v),
            None => meta_content_exec(&s, &KeyAttr::Property, "og:description"),
        },
    };
    Annotation { title: text_of_exec(title), description: text_of_exec(description) }
}

} // verus!

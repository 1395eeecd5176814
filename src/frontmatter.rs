//! Frontmatter: the `---`-delimited block of metadata at the top of a document.

use vstd::prelude::*;
use crate::post::MetaEntry;
use crate::text::{chars_of, join_lines, join_range, lines_of, split_lines, string_of, trim, trimmed, views, seq_eq};

verus! {

/// What the structured-data decoder makes of a frontmatter block: the entries of
/// a mapping, each key with its text where the value is a string; nothing when
/// the text is not a well-formed mapping.
pub uninterp spec fn yaml_mapping(text: Seq<char>) -> Option<Seq<(Seq<char>, Option<Seq<char>>)>>;

/// The key and the text of a metadata entry.
pub open spec fn entry_view(e: MetaEntry) -> (Seq<char>, Option<Seq<char>>) {
    (e.key@, match e.text {
        Some(t) => Some(t@),
        None => None,
    })
}

pub open spec fn entries_view(v: Seq<MetaEntry>) -> Seq<(Seq<char>, Option<Seq<char>>)> {
    v.map_values(|e: MetaEntry| entry_view(e))
}

/// Relies on `serde_yaml::from_str` decoding into a `serde_json::Value`: the
/// entries of the mapping it yields (in the order of `serde_json::Map`), with
/// `Value::as_str` for each value; `None` on a decode error or a non-mapping.
#[verifier::external_body]
fn decode_yaml_mapping(text: &str) -> (r: Option<Vec<MetaEntry>>)
    ensures
        r is None ==> yaml_mapping(text@) is None,
        r matches Some(v) ==> yaml_mapping(text@) == Some(entries_view(v@)),
{
    match serde_yaml::from_str::<serde_json::Value>(text) {
        Ok(serde_json::Value::Object(map)) => Some(
            map.into_iter().map(|(k, v)| MetaEntry { key: k, text: v.as_str().map(|s| s.to_string()) }).collect(),
        ),
        _ => None,
    }
}

/// A line that opens or closes the block.
pub open spec fn is_marker(l: Seq<char>) -> bool {
    trim(l) == seq!['-', '-', '-']
}

/// The index of the first marker line at or after `i`, or the number of lines.
pub open spec fn closing_marker(ls: Seq<Seq<char>>, i: int) -> int
    decreases ls.len() - i,
{
    if i < 0 || i >= ls.len() {
        ls.len() as int
    } else if is_marker(ls[i]) {
        i
    } else {
        closing_marker(ls, i + 1)
    }
}

/// The text of the frontmatter block of `raw`, if it has a non-empty one.
pub open spec fn block_text(raw: Seq<char>) -> Option<Seq<char>> {
    let ls = lines_of(raw);
    if ls.len() > 0 && is_marker(ls[0]) && closing_marker(ls, 1) > 1 {
        Some(join_lines(ls.subrange(1, closing_marker(ls, 1))))
    } else {
        None
    }
}

/// The body of `raw`: the lines after the closing marker joined with `\n`, or
/// `raw` itself when it does not open with a marker line.
pub open spec fn body_of(raw: Seq<char>) -> Seq<char> {
    let ls = lines_of(raw);
    if ls.len() > 0 && is_marker(ls[0]) {
        let j = closing_marker(ls, 1);
        if j < ls.len() {
            join_lines(ls.skip(j + 1))
        } else {
            Seq::empty()
        }
    } else {
        raw
    }
}

/// The metadata of `raw`: the decoded block, or nothing when there is no block
/// or it does not decode to a mapping.
pub open spec fn metadata_of(raw: Seq<char>) -> Seq<(Seq<char>, Option<Seq<char>>)> {
    match block_text(raw) {
        Some(t) => match yaml_mapping(t) {
            Some(m) => m,
            None => Seq::empty(),
        },
        None => Seq::empty(),
    }
}

fn is_marker_exec(l: &[char]) -> (r: bool)
    ensures
        r == is_marker(l@),
{
    let t = trimmed(l);
    let dashes = vec!['-', '-', '-'];
    assert(dashes@ == seq!['-', '-', '-']);
    seq_eq(&t, &dashes)
}

/// Splits a document into its frontmatter metadata and its body.
pub fn parse_frontmatter(content: &str) -> (r: (Vec<MetaEntry>, String))
    ensures
        entries_view(r.0@) == metadata_of(content@),
        r.1@ == body_of(content@),
{
    let cs = chars_of(content);
    let lines = split_lines(&cs);
    let ghost ls = lines_of(content@);
    if lines.len() > 0 && is_marker_exec(&lines[0]) {
        let mut j: usize = 1;
        while j < lines.len() && !is_marker_exec(&lines[j])
            invariant
                1 <= j <= lines@.len(),
                views(lines@) == ls,
                closing_marker(ls, 1) == closing_marker(ls, j as int),
            decreases lines@.len() - j,
        {
            assert(ls[j as int] == lines@[j as int]@);
            j = j + 1;
        }
        proof {
            if j < lines@.len() {
                assert(ls[j as int] == lines@[j as int]@);
            }
        }
        let mut meta: Vec<MetaEntry> = Vec::new();
        if j > 1 {
            let block = join_range(&lines, 1, j);
            let text = string_of(&block);
            match decode_yaml_mapping(text.as_str()) {
                Some(v) => {
                    meta = v;
                },
                None => {},
            }
        }
        assert(entries_view(Seq::<MetaEntry>::empty()) =~= Seq::empty());
        let body = if j < lines.len() {
            let b = join_range(&lines, j + 1, lines.len());
            assert(views(lines@).subrange(j + 1, lines@.len() as int) == ls.skip(j + 1));
            b
        } else {
            Vec::new()
        };
        (meta, string_of(&body))
    } else {
        assert(entries_view(Seq::<MetaEntry>::empty()) =~= Seq::empty());
        (Vec::new(), string_of(&cs))
    }
}

} // verus!

verus! {

/// A document that does not open with a `---` line has no metadata, and its
/// body is the whole text unchanged.
pub proof fn lemma_no_frontmatter(raw: Seq<char>)
    requires
        !(lines_of(raw).len() > 0 && is_marker(lines_of(raw)[0])),
    ensures
        metadata_of(raw) == Seq::<(Seq<char>, Option<Seq<char>>)>::empty(),
        body_of(raw) == raw,
{
}

} // verus!

//! The computations behind the command-line tools: the letters asked for on
//! the command line, and the file of a new document.

use vstd::prelude::*;
use crate::loader::{alphabetic, is_alphabetic, upper_first, uppercase_first};
use crate::text::{chars_of, contains, contains_seq, index_of, index_of_exec, replace_all, replace_seq, slice_vec, string_of, trim, trimmed};

verus! {

/// The pieces of `s` between the separators `c`, as `str::split` yields them.
pub open spec fn split_on(s: Seq<char>, c: char) -> Seq<Seq<char>>
    decreases s.len(),
{
    let k = index_of(s, c) as int;
    if k >= s.len() {
        seq![s]
    } else {
        seq![s.take(k)] + split_on(s.skip(k + 1), c)
    }
}

/// The uppercased first character of each piece that is not blank.
pub open spec fn piece_letters(ps: Seq<Seq<char>>) -> Seq<char>
    decreases ps.len(),
{
    if ps.len() == 0 {
        Seq::empty()
    } else {
        let prev = piece_letters(ps.drop_last());
        let t = trim(ps.last());
        if t.len() > 0 {
            prev.push(upper_first(t[0]))
        } else {
            prev
        }
    }
}

/// The uppercased alphabetic characters of `s`, in order.
pub open spec fn alpha_letters(s: Seq<char>) -> Seq<char>
    decreases s.len(),
{
    if s.len() == 0 {
        Seq::empty()
    } else {
        let prev = alpha_letters(s.drop_last());
        if alphabetic(s.last()) {
            prev.push(upper_first(s.last()))
        } else {
            prev
        }
    }
}

/// The letters asked for: `A,B,C` names one letter per comma-separated piece
/// (its first character), `ABC` names each alphabetic character; uppercased.
pub open spec fn requested_letters(s: Seq<char>) -> Seq<char> {
    if contains(s, seq![',']) {
        piece_letters(split_on(s, ','))
    } else {
        alpha_letters(s)
    }
}

fn split_pieces(s: &[char], c: char) -> (r: Vec<Vec<char>>)
    ensures
        r@.len() == split_on(s@, c).len(),
        forall|i: int| 0 <= i < r@.len() ==> (#[trigger] r@[i])@ == split_on(s@, c)[i],
{
    let mut r: Vec<Vec<char>> = Vec::new();
    let ghost mut done: Seq<Seq<char>> = Seq::empty();
    let mut p: usize = 0;
    assert(s@.skip(0) == s@);
    assert(done + split_on(s@, c) == split_on(s@, c));
    loop
        invariant
            p <= s@.len(),
            r@.len() == done.len(),
            forall|i: int| 0 <= i < r@.len() ==> (#[trigger] r@[i])@ == done[i],
            split_on(s@, c) == done + split_on(s@.skip(p as int), c),
        decreases s@.len() - p,
    {
        let rest = slice_vec(s, p, s.len());
        assert(rest@ == s@.skip(p as int));
        let k = index_of_exec(&rest, c);
        let piece = slice_vec(&rest, 0, k);
        assert(piece@ == rest@.take(k as int));
        proof {
            done = done.push(piece@);
        }
        r.push(piece);
        if k >= rest.len() {
            assert(done == done.drop_last() + seq![piece@]);
            return r;
        }
        assert(rest@.skip(k + 1) == s@.skip(p + k + 1));
        assert(done.drop_last() + (seq![piece@] + split_on(s@.skip(p + k + 1), c)) == done + split_on(
            s@.skip(p + k + 1),
            c,
        ));
        p = p + k + 1;
    }
}

/// The uppercase letters named by a command-line argument such as `ABC` or `a,b,c`.
pub fn parse_letters(letters: &str) -> (r: Vec<char>)
    ensures
        r@ == requested_letters(letters@),
{
    let s = chars_of(letters);
    let comma = vec![','];
    assert(comma@ == seq![',']);
    if contains_seq(&s, &comma) {
        let pieces = split_pieces(&s, ',');
        let ghost ps = split_on(s@, ',');
        let mut out: Vec<char> = Vec::new();
        let mut i: usize = 0;
        while i < pieces.len()
            invariant
                i <= pieces@.len(),
                ps == split_on(s@, ','),
                pieces@.len() == ps.len(),
                forall|k: int| 0 <= k < pieces@.len() ==> (#[trigger] pieces@[k])@ == ps[k],
                out@ == piece_letters(ps.take(i as int)),
            decreases pieces@.len() - i,
        {
            assert(ps.take(i + 1).drop_last() == ps.take(i as int));
            assert(ps.take(i + 1).last() == pieces@[i as int]@);
            let t = trimmed(&pieces[i]);
            if t.len() > 0 {
                out.push(uppercase_first(t[0]));
            }
            i = i + 1;
        }
        assert(ps.take(ps.len() as int) == ps);
        out
    } else {
        let mut out: Vec<char> = Vec::new();
        let mut i: usize = 0;
        while i < s.len()
            invariant
                i <= s@.len(),
                out@ == alpha_letters(s@.take(i as int)),
            decreases s@.len() - i,
        {
            assert(s@.take(i + 1).drop_last() == s@.take(i as int));
            if is_alphabetic(s[i]) {
                out.push(uppercase_first(s[i]));
            }
            i = i + 1;
        }
        assert(s@.take(s@.len() as int) == s@);
        out
    }
}

} // verus!

verus! {

/// The Unicode lowercase mapping of a text.
pub uninterp spec fn lower_of(s: Seq<char>) -> Seq<char>;

/// Whether a character is Unicode alphabetic or numeric.
pub uninterp spec fn alphanumeric(c: char) -> bool;

/// Relies on `str::to_lowercase`.
#[verifier::external_body]
fn lowercase(s: &str) -> (r: String)
    ensures
        r@ == lower_of(s@),
{
    s.to_lowercase()
}

/// Relies on `char::is_alphanumeric`.
#[verifier::external_body]
fn is_alphanumeric(c: char) -> (r: bool)
    ensures
        r == alphanumeric(c),
{
    c.is_alphanumeric()
}

/// Scans `s` left to right: its runs of alphanumeric characters joined by single
/// hyphens, and whether a separator is pending after the last run.
pub open spec fn word_scan(s: Seq<char>) -> (Seq<char>, bool)
    decreases s.len(),
{
    if s.len() == 0 {
        (Seq::empty(), false)
    } else {
        let prev = word_scan(s.drop_last());
        let c = s.last();
        if alphanumeric(c) {
            let base = if prev.1 && prev.0.len() > 0 {
                prev.0.push('-')
            } else {
                prev.0
            };
            (base.push(c), false)
        } else {
            (prev.0, true)
        }
    }
}

/// The file name stem of a new document titled `title`: the lowercased title's
/// alphanumeric runs joined by hyphens.
pub open spec fn title_slug(title: Seq<char>) -> Seq<char> {
    word_scan(lower_of(title)).0
}

/// The file name of a new document titled `title`.
pub fn new_post_filename(title: &str) -> (r: String)
    ensures
        r@ == title_slug(title@) + ".md"@,
{
    let lowered = lowercase(title);
    let cs = chars_of(lowered.as_str());
    let mut out: Vec<char> = Vec::new();
    let mut pending = false;
    let mut i: usize = 0;
    while i < cs.len()
        invariant
            i <= cs@.len(),
            cs@ == lower_of(title@),
            (out@, pending) == word_scan(cs@.take(i as int)),
        decreases cs@.len() - i,
    {
        let c = cs[i];
        if is_alphanumeric(c) {
            if pending && out.len() > 0 {
                out.push('-');
            }
            out.push(c);
            pending = false;
        } else {
            pending = true;
        }
        i = i + 1;
        assert(cs@.take(i as int).drop_last() == cs@.take(i - 1));
    }
    assert(cs@.take(cs@.len() as int) == cs@);
    let mut r = string_of(&out);
    r.append(".md");
    r
}

/// `s` with each double quote escaped by a backslash.
pub open spec fn escape_quotes(s: Seq<char>) -> Seq<char> {
    replace_all(s, seq!['"'], seq!['\\', '"'])
}

/// The text of a new document: frontmatter with its title, date and optional
/// excerpt (double quotes escaped), then a placeholder body.
pub open spec fn new_post_text(title: Seq<char>, date: Seq<char>, excerpt: Option<Seq<char>>) -> Seq<char> {
    "---\ntitle: \""@ + escape_quotes(title) + "\"\ndate: \""@ + date + "\"\n"@ + match excerpt {
        Some(e) => "excerpt: \""@ + escape_quotes(e) + "\"\n"@,
        None => Seq::empty(),
    } + "---\n\nWrite your post content here...\n\n"@
}

fn escape_quotes_exec(s: &str) -> (r: String)
    ensures
        r@ == escape_quotes(s@),
{
    let cs = chars_of(s);
    let from = vec!['"'];
    let to = vec!['\\', '"'];
    assert(from@ == seq!['"']);
    assert(to@ == seq!['\\', '"']);
    let out = replace_seq(&cs, &from, &to);
    string_of(&out)
}

/// The initial text of a new document titled `title`, dated `date`.
pub fn new_post_content(title: &str, date: &str, excerpt: Option<&str>) -> (r: String)
    ensures
        r@ == new_post_text(
            title@,
            date@,
            match excerpt {
                Some(e) => Some(e@),
                None => None,
            },
        ),
{
    let mut r = String::from_str("---\ntitle: \"");
    let t = escape_quotes_exec(title);
    r.append(t.as_str());
    r.append("\"\ndate: \"");
    r.append(date);
    r.append("\"\n");
    let mut line = String::new();
    match excerpt {
        Some(e) => {
            line.append("excerpt: \"");
            let x = escape_quotes_exec(e);
            line.append(x.as_str());
            line.append("\"\n");
        },
        None => {},
    }
    r.append(line.as_str());
    r.append("---\n\nWrite your post content here...\n\n");
    r
}

} // verus!

verus! {

/// The answer `answer`, trimmed and lowercased, starts with `letter`.
pub open spec fn answers_with(answer: Seq<char>, letter: char) -> bool {
    lower_of(trim(answer)).len() > 0 && lower_of(trim(answer))[0] == letter
}

/// Whether a typed answer starts with `letter` (after trimming, in any case).
pub fn confirms(answer: &str, letter: char) -> (r: bool)
    ensures
        r == answers_with(answer@, letter),
{
    let a = chars_of(answer);
    let t = trimmed(&a);
    let ts = string_of(&t);
    let l = lowercase(ts.as_str());
    let lc = chars_of(l.as_str());
    lc.len() > 0 && lc[0] == letter
}

} // verus!

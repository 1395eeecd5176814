//! Cross-document links: finding the documents that refer to one document, and
//! repairing links written against a document's original file name.

use vstd::prelude::*;
use crate::post::{Backlink, Post};
use crate::text::{chars_of, concat3, contains, contains_seq, replace_all, replace_seq, seq_eq, string_of};

verus! {

/// The path prefixes under which a link may name a document.
pub open spec fn link_prefix(a: int) -> Seq<char> {
    if a == 0 {
        "/"@
    } else if a == 1 {
        "./"@
    } else if a == 2 {
        "../"@
    } else {
        ""@
    }
}

/// The endings after the slug that a link may carry.
pub open spec fn link_suffix(b: int) -> Seq<char> {
    if b == 0 {
        "/"@
    } else if b == 1 {
        "\""@
    } else {
        ".md\""@
    }
}

/// One of the twelve path shapes under which `slug` counts as linked.
pub open spec fn link_pattern(slug: Seq<char>, a: int, b: int) -> Seq<char> {
    link_prefix(a) + slug + link_suffix(b)
}

/// `html` holds a link to the document with canonical slug `slug` or original
/// slug `orig`, in any of the absolute, relative, bare or `.md` shapes.
pub open spec fn refers_to(html: Seq<char>, slug: Seq<char>, orig: Seq<char>) -> bool {
    exists|a: int, b: int| 0 <= a < 4 && 0 <= b < 3 && #[trigger] shape_hit(html, slug, orig, a, b)
}

/// `html` holds the link shape `(a, b)` for the canonical or the original slug.
pub open spec fn shape_hit(html: Seq<char>, slug: Seq<char>, orig: Seq<char>, a: int, b: int) -> bool {
    contains(html, link_pattern(slug, a, b)) || contains(html, link_pattern(orig, a, b))
}

/// The address under which a backlink points at the document with slug `slug`.
pub open spec fn backlink_url(slug: Seq<char>) -> Seq<char> {
    "../"@ + slug + "/"@
}

/// The backlinks to the document `(slug, orig)`: title and address of each other
/// document, in order, whose rendered body refers to it.
pub open spec fn backlinks_of(posts: Seq<Post>, slug: Seq<char>, orig: Seq<char>) -> Seq<
    (Seq<char>, Seq<char>),
>
    decreases posts.len(),
{
    if posts.len() == 0 {
        Seq::empty()
    } else {
        let prev = backlinks_of(posts.drop_last(), slug, orig);
        let p = posts.last();
        if p.slug@ != slug && refers_to(p.html_content@, slug, orig) {
            prev.push((p.title@, backlink_url(p.slug@)))
        } else {
            prev
        }
    }
}

fn prefix_chars(a: usize) -> (r: Vec<char>)
    ensures
        r@ == link_prefix(a as int),
{
    if a == 0 {
        chars_of("/")
    } else if a == 1 {
        chars_of("./")
    } else if a == 2 {
        chars_of("../")
    } else {
        chars_of("")
    }
}

fn suffix_chars(b: usize) -> (r: Vec<char>)
    ensures
        r@ == link_suffix(b as int),
{
    if b == 0 {
        chars_of("/")
    } else if b == 1 {
        chars_of("\"")
    } else {
        chars_of(".md\"")
    }
}

/// Whether `html` refers to the document `(slug, orig)`.
pub fn refers_to_exec(html: &[char], slug: &[char], orig: &[char]) -> (r: bool)
    ensures
        r == refers_to(html@, slug@, orig@),
{
    let mut a: usize = 0;
    while a < 4
        invariant
            a <= 4,
            forall|x: int, y: int| 0 <= x < a && 0 <= y < 3 ==> !#[trigger] shape_hit(html@, slug@, orig@, x, y),
        decreases 4 - a,
    {
        let pre = prefix_chars(a);
        let mut b: usize = 0;
        while b < 3
            invariant
                a < 4,
                b <= 3,
                pre@ == link_prefix(a as int),
                forall|x: int, y: int| 0 <= x < a && 0 <= y < 3 ==> !#[trigger] shape_hit(html@, slug@, orig@, x, y),
                forall|y: int| 0 <= y < b ==> !#[trigger] shape_hit(html@, slug@, orig@, a as int, y),
            decreases 3 - b,
        {
            let suf = suffix_chars(b);
            let p1 = concat3(&pre, slug, &suf);
            let p2 = concat3(&pre, orig, &suf);
            if contains_seq(html, &p1) || contains_seq(html, &p2) {
                assert(shape_hit(html@, slug@, orig@, a as int, b as int));
                return true;
            }
            b = b + 1;
        }
        a = a + 1;
    }
    false
}

/// The documents of `posts` other than the one with slug `current_slug` whose
/// rendered body links to it, by its canonical or its original slug.
pub fn find_backlinks(posts: &[Post], current_slug: &str, current_original_slug: &str) -> (r: Vec<
    Backlink,
>)
    ensures
        r@.len() == backlinks_of(posts@, current_slug@, current_original_slug@).len(),
        forall|i: int|
            0 <= i < r@.len() ==> ((#[trigger] r@[i]).title@, r@[i].url@) == backlinks_of(
                posts@,
                current_slug@,
                current_original_slug@,
            )[i],
{
    let slug = chars_of(current_slug);
    let orig = chars_of(current_original_slug);
    let dots = chars_of("../");
    let slash = chars_of("/");
    let mut r: Vec<Backlink> = Vec::new();
    let mut i: usize = 0;
    while i < posts.len()
        invariant
            i <= posts@.len(),
            slug@ == current_slug@,
            orig@ == current_original_slug@,
            dots@ == "../"@,
            slash@ == "/"@,
            r@.len() == backlinks_of(posts@.take(i as int), slug@, orig@).len(),
            forall|k: int|
                0 <= k < r@.len() ==> ((#[trigger] r@[k]).title@, r@[k].url@) == backlinks_of(
                    posts@.take(i as int),
                    slug@,
                    orig@,
                )[k],
        decreases posts@.len() - i,
    {
        let p = &posts[i];
        let ps = chars_of(p.slug.as_str());
        let html = chars_of(p.html_content.as_str());
        assert(posts@.take(i + 1).drop_last() == posts@.take(i as int));
        if !seq_eq(&ps, &slug) && refers_to_exec(&html, &slug, &orig) {
            let url = concat3(&dots, &ps, &slash);
            r.push(Backlink { title: p.title.clone(), url: string_of(&url) });
        }
        i = i + 1;
    }
    assert(posts@.take(posts@.len() as int) == posts@);
    r
}

/// The replacements that repoint links written against `orig` to `slug`.
pub open spec fn rewrite_pair(orig: Seq<char>, slug: Seq<char>, a: int, b: int) -> (
    Seq<char>,
    Seq<char>,
) {
    (
        "href=\""@ + link_prefix(a) + orig + rewrite_suffix(b),
        "href=\""@ + link_prefix(a) + slug + "/\""@,
    )
}

/// The endings of a link that is rewritten.
pub open spec fn rewrite_suffix(b: int) -> Seq<char> {
    if b == 0 {
        "/\""@
    } else if b == 1 {
        "\""@
    } else {
        ".md\""@
    }
}

/// `s` after the first `n` replacements of one document, taken in the order
/// prefix-major, ending-minor.
pub open spec fn apply_pairs(s: Seq<char>, orig: Seq<char>, slug: Seq<char>, n: int) -> Seq<char>
    decreases n,
{
    if n <= 0 {
        s
    } else {
        let pair = rewrite_pair(orig, slug, (n - 1) / 3, (n - 1) % 3);
        replace_all(apply_pairs(s, orig, slug, n - 1), pair.0, pair.1)
    }
}

/// `s` with the links of every document of `posts` whose original slug differs
/// from its canonical one repointed to the canonical slug.
pub open spec fn rewrite_links(s: Seq<char>, posts: Seq<Post>) -> Seq<char>
    decreases posts.len(),
{
    if posts.len() == 0 {
        s
    } else {
        let prev = rewrite_links(s, posts.drop_last());
        let p = posts.last();
        if p.original_slug@ != p.slug@ {
            apply_pairs(prev, p.original_slug@, p.slug@, 12)
        } else {
            prev
        }
    }
}

fn rewrite_suffix_chars(b: usize) -> (r: Vec<char>)
    ensures
        r@ == rewrite_suffix(b as int),
{
    if b == 0 {
        chars_of("/\"")
    } else if b == 1 {
        chars_of("\"")
    } else {
        chars_of(".md\"")
    }
}

fn apply_document_pairs(s: Vec<char>, orig: &[char], slug: &[char]) -> (r: Vec<char>)
    ensures
        r@ == apply_pairs(s@, orig@, slug@, 12),
{
    let href = chars_of("href=\"");
    let close = chars_of("/\"");
    proof {
        reveal_strlit("href=\"");
    }
    let mut cur = s;
    let mut n: usize = 0;
    while n < 12
        invariant
            n <= 12,
            href@ == "href=\""@,
            href@.len() > 0,
            close@ == "/\""@,
            cur@ == apply_pairs(s@, orig@, slug@, n as int),
        decreases 12 - n,
    {
        let pre = prefix_chars(n / 3);
        let suf = rewrite_suffix_chars(n % 3);
        let head = concat3(&href, &pre, orig);
        let from = concat3(&head, &suf, &[]);
        let head2 = concat3(&href, &pre, slug);
        let to = concat3(&head2, &close, &[]);
        proof {
            assert(from@ == head@ + suf@);
            assert(to@ == head2@ + close@);
        }
        cur = replace_seq(&cur, &from, &to);
        n = n + 1;
    }
    cur
}

/// Repoints every link in `content` that names a document by its original slug,
/// in the absolute, relative, bare or `.md` shape, to its canonical slug.
pub fn rewrite_internal_links(content: &str, all_posts: &[Post]) -> (r: String)
    ensures
        r@ == rewrite_links(content@, all_posts@),
{
    let mut cur = chars_of(content);
    let mut i: usize = 0;
    while i < all_posts.len()
        invariant
            i <= all_posts@.len(),
            cur@ == rewrite_links(content@, all_posts@.take(i as int)),
        decreases all_posts@.len() - i,
    {
        let p = &all_posts[i];
        let orig = chars_of(p.original_slug.as_str());
        let slug = chars_of(p.slug.as_str());
        assert(all_posts@.take(i + 1).drop_last() == all_posts@.take(i as int));
        if !seq_eq(&orig, &slug) {
            cur = apply_document_pairs(cur, &orig, &slug);
        }
        i = i + 1;
    }
    assert(all_posts@.take(all_posts@.len() as int) == all_posts@);
    string_of(&cur)
}

} // verus!

verus! {

proof fn lemma_backlink_url_injective(x: Seq<char>, y: Seq<char>)
    requires
        backlink_url(x) == backlink_url(y),
    ensures
        x == y,
{
    let a = "../"@;
    let b = "/"@;
    assert(backlink_url(x) == a + x + b);
    assert(backlink_url(y) == a + y + b);
    assert((a + x + b).len() == a.len() + x.len() + b.len());
    assert((a + y + b).len() == a.len() + y.len() + b.len());
    assert(x.len() == y.len());
    assert((a + x + b).subrange(a.len() as int, (a.len() + x.len()) as int) == x);
    assert((a + y + b).subrange(a.len() as int, (a.len() + y.len()) as int) == y);
}

proof fn lemma_backlinks_members(posts: Seq<Post>, slug: Seq<char>, orig: Seq<char>)
    ensures
        forall|k: int|
            0 <= k < backlinks_of(posts, slug, orig).len() ==> exists|j: int|
                0 <= j < posts.len() && posts[j].slug@ != slug && (#[trigger] backlinks_of(
                    posts,
                    slug,
                    orig,
                )[k]).1 == backlink_url(posts[j].slug@),
    decreases posts.len(),
{
    if posts.len() > 0 {
        let prev = posts.drop_last();
        lemma_backlinks_members(prev, slug, orig);
        let r = backlinks_of(posts, slug, orig);
        assert forall|k: int| 0 <= k < r.len() implies exists|j: int|
            0 <= j < posts.len() && posts[j].slug@ != slug && (#[trigger] r[k]).1 == backlink_url(
                posts[j].slug@,
            ) by {
            if k < backlinks_of(prev, slug, orig).len() {
                let j = choose|j: int|
                    0 <= j < prev.len() && prev[j].slug@ != slug && backlinks_of(prev, slug, orig)[k].1
                        == backlink_url(prev[j].slug@);
                assert(posts[j] == prev[j]);
            } else {
                assert(posts[posts.len() - 1] == posts.last());
            }
        }
    }
}

proof fn lemma_backlinks_include(posts: Seq<Post>, slug: Seq<char>, orig: Seq<char>, j: int)
    requires
        0 <= j < posts.len(),
        posts[j].slug@ != slug,
        refers_to(posts[j].html_content@, slug, orig),
    ensures
        backlinks_of(posts, slug, orig).contains((posts[j].title@, backlink_url(posts[j].slug@))),
    decreases posts.len(),
{
    let r = backlinks_of(posts, slug, orig);
    if j == posts.len() - 1 {
        assert(r.last() == (posts[j].title@, backlink_url(posts[j].slug@)));
    } else {
        let prev = posts.drop_last();
        assert(prev[j] == posts[j]);
        lemma_backlinks_include(prev, slug, orig, j);
        let q = backlinks_of(prev, slug, orig);
        let k = choose|k: int| 0 <= k < q.len() && q[k] == (posts[j].title@, backlink_url(posts[j].slug@));
        assert(r[k] == q[k]);
    }
}

/// Backlink detection: a document whose rendered body holds `../<slug>/` for the
/// slug of `target`, and which is not `target` itself, is among the backlinks of
/// `target`; and no backlink of `target` points at `target`.
pub proof fn lemma_backlink_detection(posts: Seq<Post>, target: Post, j: int)
    requires
        0 <= j < posts.len(),
        posts[j].slug@ != target.slug@,
        contains(posts[j].html_content@, "../"@ + target.slug@ + "/"@),
    ensures
        backlinks_of(posts, target.slug@, target.original_slug@).contains(
            (posts[j].title@, backlink_url(posts[j].slug@)),
        ),
        forall|k: int|
            0 <= k < backlinks_of(posts, target.slug@, target.original_slug@).len() ==> (
            #[trigger] backlinks_of(posts, target.slug@, target.original_slug@)[k]).1
                != backlink_url(target.slug@),
{
    let slug = target.slug@;
    let orig = target.original_slug@;
    assert(link_pattern(slug, 2, 0) == "../"@ + slug + "/"@);
    assert(shape_hit(posts[j].html_content@, slug, orig, 2, 0));
    lemma_backlinks_include(posts, slug, orig, j);
    lemma_backlinks_members(posts, slug, orig);
    let r = backlinks_of(posts, slug, orig);
    assert forall|k: int| 0 <= k < r.len() implies (#[trigger] r[k]).1 != backlink_url(slug) by {
        let i = choose|i: int| 0 <= i < posts.len() && posts[i].slug@ != slug && r[k].1 == backlink_url(posts[i].slug@);
        if r[k].1 == backlink_url(slug) {
            lemma_backlink_url_injective(posts[i].slug@, slug);
        }
    }
}

} // verus!

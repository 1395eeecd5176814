//! Illustrated initials: which letters need a picture, and the texts exchanged
//! with the image service.

use vstd::prelude::*;
use crate::post::Post;

verus! {

/// Some document of `posts` opens with the letter `c`.
pub open spec fn opens_with(posts: Seq<Post>, c: char) -> bool {
    exists|i: int| 0 <= i < posts.len() && (#[trigger] posts[i]).first_letter == Some(c)
}

proof fn lemma_opens_with_step(posts: Seq<Post>, i: int, d: char)
    requires
        0 <= i < posts.len(),
    ensures
        opens_with(posts.take(i + 1), d) <==> (opens_with(posts.take(i), d) || posts[i].first_letter
            == Some(d)),
{
    let pre = posts.take(i);
    let now = posts.take(i + 1);
    if opens_with(now, d) {
        let k = choose|k: int| 0 <= k < now.len() && (#[trigger] now[k]).first_letter == Some(d);
        if k < i {
            assert(pre[k] == now[k]);
        }
    }
    if opens_with(pre, d) {
        let k = choose|k: int| 0 <= k < pre.len() && (#[trigger] pre[k]).first_letter == Some(d);
        assert(now[k] == pre[k]);
    }
    if posts[i].first_letter == Some(d) {
        assert(now[i] == posts[i]);
    }
}

fn contains_char(v: &Vec<char>, c: char) -> (r: bool)
    ensures
        r == v@.contains(c),
{
    let mut i: usize = 0;
    while i < v.len()
        invariant
            i <= v@.len(),
            forall|k: int| 0 <= k < i ==> v@[k] != c,
        decreases v@.len() - i,
    {
        if v[i] == c {
            return true;
        }
        i = i + 1;
    }
    false
}

/// The letters to have illustrated in one run: each letter that some document
/// opens with and that `cached` does not hold yet, once, in the order of first
/// appearance. Documents that share a letter share its one request.
pub fn plan_initials(posts: &[Post], cached: &Vec<char>) -> (r: Vec<char>)
    ensures
        forall|i: int, j: int| 0 <= i < j < r@.len() ==> r@[i] != r@[j],
        forall|c: char| r@.contains(c) <==> (opens_with(posts@, c) && !cached@.contains(c)),
{
    let mut out: Vec<char> = Vec::new();
    let mut i: usize = 0;
    while i < posts.len()
        invariant
            i <= posts@.len(),
            forall|a: int, b: int| 0 <= a < b < out@.len() ==> out@[a] != out@[b],
            forall|c: char|
                out@.contains(c) <==> (opens_with(posts@.take(i as int), c) && !cached@.contains(c)),
        decreases posts@.len() - i,
    {
        let ghost pre = posts@.take(i as int);
        let ghost now = posts@.take(i + 1);
        assert(forall|k: int| 0 <= k < i ==> pre[k] == now[k]);
        assert(now[i as int] == posts@[i as int]);
        match posts[i].first_letter {
            Some(c) => {
                let ghost old_out = out@;
                let present = contains_char(&out, c);
                let known = contains_char(cached, c);
                assert(posts@[i as int].first_letter == Some(c));
                if !present && !known {
                    out.push(c);
                    assert forall|d: char| out@.contains(d) <==> (old_out.contains(d) || d == c) by {
                        if out@.contains(d) && d != c {
                            let k = choose|k: int| 0 <= k < out@.len() && out@[k] == d;
                            assert(old_out[k] == d);
                        }
                        if old_out.contains(d) {
                            let k = choose|k: int| 0 <= k < old_out.len() && old_out[k] == d;
                            assert(out@[k] == d);
                        }
                        if d == c {
                            assert(out@[out@.len() - 1] == c);
                        }
                    }
                }
                assert forall|d: char| out@.contains(d) <==> (opens_with(now, d) && !cached@.contains(d)) by {
                    lemma_opens_with_step(posts@, i as int, d);
                    assert(old_out.contains(d) <==> (opens_with(pre, d) && !cached@.contains(d)));
                    if present || known {
                        assert(out@ == old_out);
                    }
                }
            },
            None => {
                assert forall|d: char| out@.contains(d) <==> (opens_with(now, d) && !cached@.contains(d)) by {
                    lemma_opens_with_step(posts@, i as int, d);
                }
            },
        }
        i = i + 1;
    }
    assert(posts@.take(posts@.len() as int) == posts@);
    out
}

} // verus!

verus! {

/// The request text sent to the image service, before the letter.
pub const PROMPT_HEAD: &'static str = "A black background with white ink drawing featuring an illuminated initial '";

/// The request text sent to the image service, after the letter.
pub const PROMPT_TAIL: &'static str = "' in the Italian Futurist style, with geometric and abstract forms, swirling lines, and dynamic composition reminiscent of early 20th-century avant-garde art. The background should be pure black with white forms and lines.";

/// The picture description asked of the image service for `letter`.
pub fn initial_prompt(letter: char) -> (r: String)
    ensures
        r@ == PROMPT_HEAD@ + seq![letter] + PROMPT_TAIL@,
{
    let mut r = String::from_str(PROMPT_HEAD);
    r.push(letter);
    r.append(PROMPT_TAIL);
    r
}

/// The data URI under which a base64-encoded PNG is cached and embedded.
pub fn image_data_uri(b64: &str) -> (r: String)
    ensures
        r@ == "data:image/png;base64,"@ + b64@,
{
    let mut r = String::from_str("data:image/png;base64,");
    r.append(b64);
    r
}

} // verus!

//! One generation run: the configuration and the loaded, ordered documents.

use vstd::prelude::*;
use crate::config::Config;
use crate::loader::{is_loaded, newest_first, opt_view_str, parse_post, sort_posts};
use crate::post::{Post, Timestamp};

verus! {

/// A Markdown source file as read from the source tree.
pub struct SourceFile {
    pub content: String,
    /// The file name without its extension, where it is valid text.
    pub stem: Option<String>,
    /// The date to use when the frontmatter gives none: the file's modification
    /// time, or the current time.
    pub fallback_date: Timestamp,
}

pub open spec fn stem_view(f: SourceFile) -> Option<Seq<char>> {
    match f.stem {
        Some(s) => Some(s@),
        None => None,
    }
}

/// `ps[i]` is the document loaded from `files[i]`, for every `i`.
pub open spec fn loaded_from(ps: Seq<Post>, files: Seq<SourceFile>) -> bool {
    ps.len() == files.len() && forall|i: int|
        0 <= i < ps.len() ==> is_loaded(
            #[trigger] ps[i],
            files[i].content@,
            stem_view(files[i]),
            files[i].fallback_date,
        )
}

/// The state of a generation run.
pub struct SiteGenerator {
    pub config: Config,
    pub posts: Vec<Post>,
}

impl SiteGenerator {
    pub fn new(config: Config) -> (r: Self)
        ensures
            r.config == config,
            r.posts@.len() == 0,
    {
        SiteGenerator { config, posts: Vec::new() }
    }

    /// Loads one document per source file, ordered newest first.
    pub fn load_posts(&mut self, files: Vec<SourceFile>)
        ensures
            final(self).config == old(self).config,
            newest_first(final(self).posts@),
            exists|ps: Seq<Post>|
                #[trigger] loaded_from(ps, files@) && ps.to_multiset() == final(self).posts@.to_multiset(),
    {
        let mut loaded: Vec<Post> = Vec::new();
        let mut i: usize = 0;
        while i < files.len()
            invariant
                i <= files@.len(),
                loaded@.len() == i,
                forall|k: int|
                    0 <= k < i ==> is_loaded(
                        #[trigger] loaded@[k],
                        files@[k].content@,
                        stem_view(files@[k]),
                        files@[k].fallback_date,
                    ),
            decreases files@.len() - i,
        {
            let f = &files[i];
            let stem = match &f.stem {
                Some(s) => Some(s.as_str()),
                None => None,
            };
            assert(opt_view_str(stem) == stem_view(files@[i as int]));
            let p = parse_post(f.content.as_str(), stem, f.fallback_date);
            loaded.push(p);
            i = i + 1;
        }
        let ghost ps = loaded@;
        self.posts = sort_posts(loaded);
        assert(ps.to_multiset() == self.posts@.to_multiset());
        assert(loaded_from(ps, files@));
    }
}

} // verus!

//! The document model: one `Post` per Markdown source file.

use vstd::prelude::*;

verus! {

/// An instant, as whole seconds since the Unix epoch and the nanoseconds past them.
#[derive(Clone, Copy, Debug, PartialEq, Eq, Structural)]
pub struct Timestamp {
    pub secs: i64,
    pub nanos: u32,
}

impl Timestamp {
    /// `self` comes strictly after `other`: by seconds, then by nanoseconds.
    pub open spec fn is_after(self, other: Timestamp) -> bool {
        self.secs > other.secs || (self.secs == other.secs && self.nanos > other.nanos)
    }

    /// Whether `self` comes strictly after `other`.
    pub fn after(&self, other: &Timestamp) -> (r: bool)
        ensures
            r == self.is_after(*other),
    {
        self.secs > other.secs || (self.secs == other.secs && self.nanos > other.nanos)
    }
}

/// One metadata field of the frontmatter: its key, and its text where the value
/// is a string.
#[derive(Clone, Debug)]
pub struct MetaEntry {
    pub key: String,
    pub text: Option<String>,
}

/// A document loaded from the source tree.
#[derive(Clone, Debug)]
pub struct Post {
    /// The canonical slug, `sanitize(original_slug)`.
    pub slug: String,
    /// The file stem as written.
    pub original_slug: String,
    pub title: String,
    pub date: Timestamp,
    pub excerpt: Option<String>,
    /// The Markdown body without its frontmatter.
    pub content: String,
    /// The rendered body.
    pub html_content: String,
    pub first_letter: Option<char>,
    pub frontmatter: Vec<MetaEntry>,
}

/// A document that links to another one.
#[derive(Clone, Debug)]
pub struct Backlink {
    pub title: String,
    pub url: String,
}

} // verus!

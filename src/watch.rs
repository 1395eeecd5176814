//! When a change in the watched tree calls for a new generation run.

use vstd::prelude::*;
use crate::text::{chars_of, seq_eq};

verus! {

/// The kind of a file-system change.
pub enum ChangeKind {
    Create,
    Modify,
    Remove,
    Other,
}

/// A changed path, as its extension and its file name.
pub struct ChangedPath {
    pub extension: Option<String>,
    pub file_name: Option<String>,
}

/// A change to a Markdown source or to the configuration file.
pub open spec fn is_relevant(p: ChangedPath) -> bool {
    (p.extension matches Some(e) && e@ == "md"@) || (p.file_name matches Some(n) && n@ == "config.json"@)
}

/// The least time, in milliseconds, between two generation runs.
pub const DEBOUNCE_MS: u64 = 1000;

fn is_relevant_exec(p: &ChangedPath) -> (r: bool)
    ensures
        r == is_relevant(*p),
{
    let md = chars_of("md");
    let config = chars_of("config.json");
    let by_extension = match &p.extension {
        Some(e) => {
            let ec = chars_of(e.as_str());
            seq_eq(&ec, &md)
        },
        None => false,
    };
    let by_name = match &p.file_name {
        Some(n) => {
            let nc = chars_of(n.as_str());
            seq_eq(&nc, &config)
        },
        None => false,
    };
    by_extension || by_name
}

/// Whether a change calls for regenerating the site: it creates, modifies or
/// removes a Markdown source or the configuration file, and more than
/// `DEBOUNCE_MS` have passed since the last run.
pub fn should_regenerate(kind: &ChangeKind, paths: &Vec<ChangedPath>, elapsed_ms: u64) -> (r: bool)
    ensures
        r == ((exists|i: int| 0 <= i < paths@.len() && is_relevant(#[trigger] paths@[i])) && elapsed_ms
            > DEBOUNCE_MS && !(*kind is Other)),
{
    let mut relevant = false;
    let mut i: usize = 0;
    while i < paths.len()
        invariant
            i <= paths@.len(),
            relevant == (exists|k: int| 0 <= k < i && is_relevant(#[trigger] paths@[k])),
        decreases paths@.len() - i,
    {
        if is_relevant_exec(&paths[i]) {
            relevant = true;
        }
        i = i + 1;
    }
    let change = match kind {
        ChangeKind::Other => false,
        _ => true,
    };
    relevant && elapsed_ms > DEBOUNCE_MS && change
}

} // verus!

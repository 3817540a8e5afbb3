//! The feed-source table of the first, single-user prototype: a feed is a
//! map from source ids to the URL and bookkeeping of each source.

use vstd::prelude::*;

verus! {

/// The id of a feed source.
pub type FeedSourceId = usize;

/// A table of sources by id; each entry holds the metadata of one URL.
pub type Feed = std::collections::HashMap<FeedSourceId, FeedSource>;

/// One source of a feed.
#[derive(Debug)]
pub struct FeedSource {
    /// The source's name.
    pub name: String,
    /// Its URL and what kind of document the URL serves.
    pub url: (String, UrlType),
    /// When the source was last checked.
    pub last_checked: String,
    /// When the source last changed.
    pub last_modified: String,
}

/// The kind of document a source URL serves; RSS is the only kind yet.
#[derive(Debug, PartialEq, Eq, Structural, Clone, Copy)]
pub enum UrlType {
    Rss,
}

impl Default for UrlType {
    fn default() -> (res: Self)
        ensures
            res == UrlType::Rss,
    {
        UrlType::Rss
    }
}

} // verus!

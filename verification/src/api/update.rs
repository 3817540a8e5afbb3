//! The bodies of the prototype's feed-management requests.

use vstd::prelude::*;
use crate::models::FeedSourceId;

verus! {

/// A request body that names one URL.
#[derive(Debug, Clone)]
pub struct UrlInput {
    pub url: String,
}

/// A request to point the feed source `id` at a new URL.
#[derive(Debug, Clone)]
pub struct FeedEdit {
    pub id: FeedSourceId,
    pub new_url: UrlInput,
}

} // verus!

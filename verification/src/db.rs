//! What the prototype's feed-source store decides; the SQL runs in the
//! application.

use vstd::prelude::*;
use crate::api::update::FeedEdit;
use crate::errors::ApplicationError;
use crate::models::FeedSourceId;

verus! {

/// The writes of an edit, in order: register `new_url` as a source of
/// `kind`, point feed `feed_id` at it, then drop `old_url`.
#[derive(Debug, Clone)]
pub struct EditPlan {
    pub new_url: String,
    pub kind: String,
    pub feed_id: FeedSourceId,
    pub old_url: String,
}

/// Plans the edit of a feed source once the feed's current URL has been
/// looked up: a feed that does not exist cannot be edited.
pub fn plan_edit(edit: FeedEdit, old_url: Option<String>) -> (res: Result<EditPlan, ApplicationError>)
    ensures
        match old_url {
            None => match res {
                Err(ApplicationError::UnexpectedError(m)) => m@ == "No matching feed for id found."@,
                _ => false,
            },
            Some(u) => match res {
                Ok(p) => p.new_url@ == edit.new_url.url@ && p.kind@ == "rss"@ && p.feed_id == edit.id && p.old_url@ == u@,
                Err(_) => false,
            },
        },
{
    match old_url {
        None => Err(ApplicationError::UnexpectedError("No matching feed for id found.")),
        Some(u) => Ok(EditPlan { new_url: edit.new_url.url, kind: "rss".to_owned(), feed_id: edit.id, old_url: u }),
    }
}

} // verus!

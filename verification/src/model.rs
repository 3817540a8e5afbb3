//! The records that sources, feeds, items and peers are kept as.

use vstd::prelude::*;
use crate::json::JsonValue;

verus! {

/// An origin that is polled for items.
#[derive(Debug, Clone)]
pub struct Source {
    pub id: String,
    pub url: String,
    pub kind: String,
    pub title: Option<String>,
    pub etag: Option<String>,
    pub last_modified: Option<String>,
    pub last_polled_at: Option<String>,
    pub next_poll_at: Option<String>,
    pub last_error: Option<String>,
    pub enabled: bool,
    pub created_at: String,
}

/// A canonical item, stored once and projected into any number of feeds.
#[derive(Debug, Clone)]
pub struct Item {
    pub id: String,
    pub source_id: Option<String>,
    pub external_id: String,
    pub url: Option<String>,
    pub title: Option<String>,
    pub summary: Option<String>,
    pub content: Option<String>,
    pub author: Option<String>,
    pub published_at: String,
    pub fetched_at: String,
    pub tags_json: String,
    pub raw_json: Option<String>,
    pub visibility: String,
}

/// A named feed with its optional comma-separated include and exclude terms.
#[derive(Debug, Clone)]
pub struct Feed {
    pub id: String,
    pub slug: String,
    pub title: String,
    pub description: Option<String>,
    pub include_terms: Option<String>,
    pub exclude_terms: Option<String>,
    pub public: bool,
    pub created_at: String,
}

/// A trusted node that public items are pulled from.
#[derive(Debug, Clone)]
pub struct Peer {
    pub id: String,
    pub base_url: String,
    pub shared_secret: String,
    pub enabled: bool,
    pub last_sync_at: Option<String>,
    pub created_at: String,
}

/// An item as a parser or a peer delivers it, before it is stored.
#[derive(Debug)]
pub struct NewItem {
    pub external_id: String,
    pub url: Option<String>,
    pub title: Option<String>,
    pub summary: Option<String>,
    pub content: Option<String>,
    pub author: Option<String>,
    pub published_at: String,
    pub tags: Vec<String>,
    pub raw: Option<JsonValue>,
    pub visibility: String,
}

/// A new item, field by field.
pub ghost struct NewItemV {
    pub external_id: Seq<char>,
    pub url: Option<Seq<char>>,
    pub title: Option<Seq<char>>,
    pub summary: Option<Seq<char>>,
    pub content: Option<Seq<char>>,
    pub author: Option<Seq<char>>,
    pub published_at: Seq<char>,
    pub tags: Seq<Seq<char>>,
    pub raw: Option<JsonValue>,
    pub visibility: Seq<char>,
}

pub open spec fn opt_view(o: Option<String>) -> Option<Seq<char>> {
    match o {
        Some(s) => Some(s@),
        None => None,
    }
}

pub open spec fn texts_view(v: Seq<String>) -> Seq<Seq<char>> {
    v.map_values(|s: String| s@)
}

pub open spec fn new_item_view(n: NewItem) -> NewItemV {
    NewItemV {
        external_id: n.external_id@,
        url: opt_view(n.url),
        title: opt_view(n.title),
        summary: opt_view(n.summary),
        content: opt_view(n.content),
        author: opt_view(n.author),
        published_at: n.published_at@,
        tags: texts_view(n.tags@),
        raw: n.raw,
        visibility: n.visibility@,
    }
}

pub open spec fn new_items_view(v: Seq<NewItem>) -> Seq<NewItemV> {
    v.map_values(|n: NewItem| new_item_view(n))
}

/// One page of results and the cursor of the next page, if there is one.
#[derive(Debug)]
pub struct Page<T> {
    pub items: Vec<T>,
    pub next_cursor: Option<String>,
}

/// The characters of an optional text, none when it is absent
/// (`as_deref().unwrap_or("")`).
pub open spec fn opt_text(o: Option<String>) -> Seq<char> {
    match o {
        Some(s) => s@,
        None => Seq::<char>::empty(),
    }
}

/// An optional text as a `&str`, empty when it is absent.
pub fn opt_str(o: &Option<String>) -> (res: &str)
    ensures
        res@ == opt_text(*o),
{
    match o {
        Some(s) => s.as_str(),
        None => {
            proof {
                reveal_strlit("");
            }
            ""
        },
    }
}

/// The visibility that an item gets when its document does not say.
pub fn public_visibility() -> (res: String)
    ensures
        res@ == "public"@,
{
    "public".to_owned()
}

} // verus!

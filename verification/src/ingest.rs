//! Reading origin documents into new items: JSON Feed, ActivityPub
//! collections, RSS/Atom through feed-rs, OPML subscription lists; and the
//! checks that keep fetching to public HTTP(S) origins within bounds.

pub mod jsonfeed;

use vstd::prelude::*;
use quick_xml::events::Event;
use crate::json::{
    JsonValue, get, get_str, get_string, json_parse, member, parse_json_bytes, same_text,
    spec_as_str, spec_get,
};
use crate::ingest::jsonfeed::{
    AuthorFields, FeedFields, ItemFields, dec_feed, decode_feed, feed_view, item_view, items_view,
    JsonAuthor, JsonFeedItem,
};
use crate::model::{NewItem, NewItemV, new_item_view, new_items_view, opt_view, public_visibility, texts_view};
use crate::text::{chars_of, contains_chars, contains_seq};
use vstd::string::StringSliceAdditionalSpecFns;
use crate::error::Error;
use crate::web::{WebUrl, join_url, parse_url, url_join, url_parse};

verus! {

// ---------------------------------------------------------------- JSON Feed

/// A document is a JSON Feed when its `version` is a string mentioning
/// jsonfeed.org.
pub open spec fn is_json_feed(v: JsonValue) -> bool {
    match get_str(v, "version"@) {
        Some(s) => contains_seq(s, "jsonfeed.org"@),
        None => false,
    }
}

pub open spec fn first_author_name(authors: Seq<AuthorFields>, author: Option<AuthorFields>) -> Option<Seq<char>> {
    if authors.len() > 0 {
        authors[0].name
    } else {
        match author {
            Some(a) => a.name,
            None => None,
        }
    }
}

pub open spec fn or_else(a: Option<Seq<char>>, b: Option<Seq<char>>) -> Option<Seq<char>> {
    match a {
        Some(x) => Some(x),
        None => b,
    }
}

pub open spec fn or_default(a: Option<Seq<char>>, d: Seq<char>) -> Seq<char> {
    match a {
        Some(x) => x,
        None => d,
    }
}

/// The new item that a JSON Feed item gives: HTML content before text, the
/// first listed author before the single one, the publication date before the
/// modification date before `now`.
pub open spec fn json_feed_item(i: ItemFields, now: Seq<char>) -> NewItemV {
    NewItemV {
        external_id: i.id,
        url: i.url,
        title: i.title,
        summary: i.summary,
        content: or_else(i.content_html, i.content_text),
        author: first_author_name(i.authors, i.author),
        published_at: or_default(or_else(i.date_published, i.date_modified), now),
        tags: i.tags,
        raw: None,
        visibility: "public"@,
    }
}

pub open spec fn json_feed_items(items: Seq<ItemFields>, now: Seq<char>) -> Seq<NewItemV> {
    items.map_values(|i: ItemFields| json_feed_item(i, now))
}

// ---------------------------------------------------------------- ActivityPub

/// `string_field`: a member that is a string, or an object whose `href` is.
pub open spec fn string_field(v: JsonValue, key: Seq<char>) -> Option<Seq<char>> {
    match spec_get(v, key) {
        Some(x) => match spec_as_str(x) {
            Some(s) => Some(s),
            None => get_str(x, "href"@),
        },
        None => None,
    }
}

/// The activities of a collection: its `orderedItems` (or, when there is no
/// such member, its `items`) when that is an array; else the document alone.
pub open spec fn activity_list(v: JsonValue) -> Seq<JsonValue> {
    let l = match spec_get(v, "orderedItems"@) {
        Some(x) => Some(x),
        None => spec_get(v, "items"@),
    };
    match l {
        Some(JsonValue::Array(a)) => a@,
        _ => seq![v],
    }
}

/// The object an activity carries when that is a JSON object, else the
/// activity itself.
pub open spec fn activity_object(a: JsonValue) -> JsonValue {
    match spec_get(a, "object"@) {
        Some(o) => if o is Object { o } else { a },
        None => a,
    }
}

pub open spec fn supported_kind(object: JsonValue) -> bool {
    let k = or_default(get_str(object, "type"@), Seq::<char>::empty());
    k == "Note"@ || k == "Article"@ || k == "Page"@ || k == "Event"@
}

/// The string `name`s of the elements of a `tag` array.
pub open spec fn tag_names(a: Seq<JsonValue>) -> Seq<Seq<char>>
    decreases a.len(),
{
    if a.len() == 0 {
        Seq::<Seq<char>>::empty()
    } else {
        let init = tag_names(a.drop_last());
        match get_str(a.last(), "name"@) {
            Some(n) => init.push(n),
            None => init,
        }
    }
}

pub open spec fn object_tags(object: JsonValue) -> Seq<Seq<char>> {
    match spec_get(object, "tag"@) {
        Some(JsonValue::Array(a)) => tag_names(a@),
        _ => Seq::<Seq<char>>::empty(),
    }
}

/// The new item of one supported activity; the whole activity is kept raw.
pub open spec fn activity_item(a: JsonValue, base: Seq<char>, now: Seq<char>) -> NewItemV {
    let o = activity_object(a);
    NewItemV {
        external_id: or_default(or_else(string_field(o, "id"@), string_field(o, "url"@)), base),
        url: string_field(o, "url"@),
        title: string_field(o, "name"@),
        summary: string_field(o, "summary"@),
        content: string_field(o, "content"@),
        author: or_else(get_str(o, "attributedTo"@), get_str(a, "actor"@)),
        published_at: or_default(or_else(string_field(o, "published"@), string_field(o, "updated"@)), now),
        tags: object_tags(o),
        raw: Some(a),
        visibility: "public"@,
    }
}

/// The items of the supported activities, in order.
pub open spec fn activity_items(list: Seq<JsonValue>, base: Seq<char>, now: Seq<char>) -> Seq<NewItemV>
    decreases list.len(),
{
    if list.len() == 0 {
        Seq::<NewItemV>::empty()
    } else {
        let init = activity_items(list.drop_last(), base, now);
        if supported_kind(activity_object(list.last())) {
            init.push(activity_item(list.last(), base, now))
        } else {
            init
        }
    }
}

/// What an ActivityPub document yields: its `name` and the items of its
/// supported activities.
pub open spec fn activitypub(v: JsonValue, base: Seq<char>, now: Seq<char>) -> (Option<Seq<char>>, Seq<NewItemV>) {
    (get_str(v, "name"@), activity_items(activity_list(v), base, now))
}

/// What a JSON document yields: a JSON Feed when it says so, ActivityPub
/// otherwise. An error is the text of an invalid-input error.
pub open spec fn spec_parse_json(bytes: Seq<u8>, base: Seq<char>, now: Seq<char>) -> Result<(Option<Seq<char>>, Seq<NewItemV>), Seq<char>> {
    match json_parse(bytes) {
        Err(e) => Err("invalid JSON feed: "@ + e),
        Ok(v) => if is_json_feed(v) {
            match dec_feed(v) {
                Err(m) => Err(m),
                Ok(f) => Ok((f.title, json_feed_items(f.items, now))),
            }
        } else {
            Ok(activitypub(v, base, now))
        },
    }
}

pub open spec fn parsed_view(r: Result<(Option<String>, Vec<NewItem>), crate::error::Error>) -> Result<(Option<Seq<char>>, Seq<NewItemV>), Seq<char>> {
    match r {
        Ok((t, items)) => Ok((opt_view(t), new_items_view(items@))),
        Err(crate::error::Error::Invalid(m)) => Err(m@),
        Err(_) => Err(Seq::<char>::empty()),
    }
}

fn clone_opt(o: &Option<String>) -> (res: Option<String>)
    ensures
        opt_view(res) == opt_view(*o),
{
    match o {
        Some(s) => Some(s.clone()),
        None => None,
    }
}

fn or_else_exec(a: Option<String>, b: Option<String>) -> (res: Option<String>)
    ensures
        opt_view(res) == or_else(opt_view(a), opt_view(b)),
{
    match a {
        Some(x) => Some(x),
        None => b,
    }
}

fn or_default_exec(a: Option<String>, d: &str) -> (res: String)
    ensures
        res@ == or_default(opt_view(a), d@),
{
    match a {
        Some(x) => x,
        None => d.to_owned(),
    }
}

fn first_author(authors: &Vec<JsonAuthor>, author: &Option<JsonAuthor>) -> (res: Option<String>)
    ensures
        opt_view(res) == first_author_name(
            crate::ingest::jsonfeed::authors_view(authors@),
            crate::ingest::jsonfeed::view_opt_author(*author),
        ),
{
    if authors.len() > 0 {
        clone_opt(&authors[0].name)
    } else {
        match author {
            Some(a) => clone_opt(&a.name),
            None => None,
        }
    }
}

/// The new item of a JSON Feed item.
pub fn json_feed_new_item(i: JsonFeedItem, now: &str) -> (res: NewItem)
    ensures
        new_item_view(res) == json_feed_item(item_view(i), now@),
{
    let author = first_author(&i.authors, &i.author);
    let ghost tv = texts_view(i.tags@);
    let res = NewItem {
        external_id: i.id,
        url: i.url,
        title: i.title,
        summary: i.summary,
        content: or_else_exec(i.content_html, i.content_text),
        author,
        published_at: or_default_exec(or_else_exec(i.date_published, i.date_modified), now),
        tags: i.tags,
        raw: None,
        visibility: public_visibility(),
    };
    assert(texts_view(res.tags@) == crate::ingest::jsonfeed::view_strings(res.tags@));
    res
}

/// The first byte that is not ASCII white space.
pub open spec fn first_non_space(bytes: Seq<u8>) -> Option<u8>
    decreases bytes.len(),
{
    if bytes.len() == 0 {
        None
    } else if is_ascii_space(bytes[0]) {
        first_non_space(bytes.drop_first())
    } else {
        Some(bytes[0])
    }
}

/// `u8::is_ascii_whitespace`: space, tab, line feed, form feed, carriage return.
pub open spec fn is_ascii_space(b: u8) -> bool {
    b == 32 || b == 9 || b == 10 || b == 12 || b == 13
}


// ---------------------------------------------------------------- reading

fn string_field_of(v: &JsonValue, key: &str) -> (res: Option<String>)
    ensures
        opt_view(res) == string_field(*v, key@),
{
    match get(v, key) {
        Some(x) => match crate::json::as_str(x) {
            Some(s) => Some(s.clone()),
            None => match get_string(x, "href") {
                Some(h) => Some(h.clone()),
                None => None,
            },
        },
        None => None,
    }
}

fn str_field_of(v: &JsonValue, key: &str) -> (res: Option<String>)
    ensures
        opt_view(res) == get_str(*v, key@),
{
    match get_string(v, key) {
        Some(s) => Some(s.clone()),
        None => None,
    }
}

fn object_of(a: &JsonValue) -> (res: &JsonValue)
    ensures
        *res == activity_object(*a),
{
    match get(a, "object") {
        Some(o) => match o {
            JsonValue::Object(_) => o,
            _ => a,
        },
        None => a,
    }
}

fn kind_supported(object: &JsonValue) -> (res: bool)
    ensures
        res == supported_kind(*object),
{
    proof {
        reveal_strlit("");
        assert(""@ =~= Seq::<char>::empty());
    }
    let k: &str = match get_string(object, "type") {
        Some(s) => s.as_str(),
        None => "",
    };
    let k = k.to_owned();
    same_text(&k, "Note") || same_text(&k, "Article") || same_text(&k, "Page") || same_text(&k, "Event")
}

fn tags_of(object: &JsonValue) -> (res: Vec<String>)
    ensures
        texts_view(res@) == object_tags(*object),
{
    let mut out: Vec<String> = Vec::new();
    match get(object, "tag") {
        Some(JsonValue::Array(a)) => {
            let mut i: usize = 0;
            assert(a@.take(0) =~= Seq::<JsonValue>::empty());
            assert(texts_view(out@) =~= Seq::<Seq<char>>::empty());
            while i < a.len()
                invariant
                    i <= a@.len(),
                    texts_view(out@) == tag_names(a@.take(i as int)),
                decreases a.len() - i,
            {
                assert(a@.take(i + 1).drop_last() == a@.take(i as int));
                match get_string(&a[i], "name") {
                    Some(n) => {
                        let ghost prev = out@;
                        out.push(n.clone());
                        assert(texts_view(out@) =~= texts_view(prev).push(n@));
                    },
                    None => {},
                }
                i = i + 1;
            }
            assert(a@.take(a@.len() as int) == a@);
            out
        },
        _ => {
            assert(texts_view(out@) =~= Seq::<Seq<char>>::empty());
            out
        },
    }
}

/// The new item of one activity, when its object is of a supported kind.
pub fn activity_new_item(a: JsonValue, base: &str, now: &str) -> (res: Option<NewItem>)
    ensures
        match res {
            Some(n) => supported_kind(activity_object(a)) && new_item_view(n) == activity_item(a, base@, now@),
            None => !supported_kind(activity_object(a)),
        },
{
    let o = object_of(&a);
    if !kind_supported(o) {
        return None;
    }
    let external_id = or_default_exec(or_else_exec(string_field_of(o, "id"), string_field_of(o, "url")), base);
    let url = string_field_of(o, "url");
    let title = string_field_of(o, "name");
    let summary = string_field_of(o, "summary");
    let content = string_field_of(o, "content");
    let author = or_else_exec(str_field_of(o, "attributedTo"), str_field_of(&a, "actor"));
    let published_at = or_default_exec(
        or_else_exec(string_field_of(o, "published"), string_field_of(o, "updated")),
        now,
    );
    let tags = tags_of(o);
    let ghost av = a;
    Some(NewItem {
        external_id,
        url,
        title,
        summary,
        content,
        author,
        published_at,
        tags,
        raw: Some(a),
        visibility: public_visibility(),
    })
}

/// Moves the array held by the last member named `key` out of an object.
fn take_array(value: JsonValue, key: &str) -> (res: Vec<JsonValue>)
    requires
        spec_get(value, key@) matches Some(JsonValue::Array(_)),
    ensures
        match spec_get(value, key@) {
            Some(JsonValue::Array(a)) => res@ == a@,
            _ => false,
        },
{
    match value {
        JsonValue::Object(mut fields) => {
            let ghost f0 = fields@;
            let mut i = fields.len();
            assert(fields@.take(i as int) == fields@);
            while i > 0
                invariant
                    i <= fields@.len(),
                    fields@ == f0,
                    spec_get(value, key@) == member(f0, key@),
                    member(f0, key@) == member(f0.take(i as int), key@),
                    member(f0, key@) matches Some(JsonValue::Array(_)),
                decreases i,
            {
                assert(f0.take(i as int).drop_last() == f0.take(i - 1));
                assert(f0.take(i as int).last() == f0[i - 1]);
                if same_text(&fields[i - 1].0, key) {
                    assert(member(f0.take(i as int), key@) == Some(f0[i - 1].1));
                    let (_, x) = fields.remove(i - 1);
                    match x {
                        JsonValue::Array(a) => { return a; },
                        _ => { return Vec::new(); },
                    }
                }
                i = i - 1;
            }
            Vec::new()
        },
        _ => Vec::new(),
    }
}

fn activities(value: JsonValue) -> (res: Vec<JsonValue>)
    ensures
        res@ == activity_list(value),
{
    let key: &str = if get(&value, "orderedItems").is_some() { "orderedItems" } else { "items" };
    let is_array = match get(&value, key) {
        Some(JsonValue::Array(_)) => true,
        _ => false,
    };
    if is_array {
        take_array(value, key)
    } else {
        let ghost v = value;
        let mut one: Vec<JsonValue> = Vec::new();
        one.push(value);
        assert(one@ =~= seq![v]);
        one
    }
}

/// The name and supported items of an ActivityPub document.
pub fn parse_activitypub(value: JsonValue, base: &str, now: &str) -> (res: (Option<String>, Vec<NewItem>))
    ensures
        (opt_view(res.0), new_items_view(res.1@)) == activitypub(value, base@, now@),
{
    let title = str_field_of(&value, "name");
    let ghost v = value;
    let list = activities(value);
    let ghost l = list@;
    let mut items: Vec<NewItem> = Vec::new();
    for activity in it: list.into_iter()
        invariant
            it.seq() == l,
            new_items_view(items@) == activity_items(l.take(it.index() as int), base@, now@),
    {
        proof {
            let k = it.index() as int;
            assert(l.take(k + 1).drop_last() == l.take(k));
            assert(l.take(k + 1).last() == l[k]);
        }
        let ghost prev = items@;
        match activity_new_item(activity, base, now) {
            Some(n) => {
                items.push(n);
                assert(new_items_view(items@) =~= new_items_view(prev).push(new_item_view(n)));
            },
            None => {},
        }
    }
    assert(l.take(l.len() as int) == l);
    assert(new_items_view(items@) == activity_items(l, base@, now@));
    (title, items)
}

/// Reads a JSON document: a JSON Feed when its `version` mentions
/// jsonfeed.org, an ActivityPub document or collection otherwise. Items
/// without a date get `now`.
pub fn parse_json(bytes: &[u8], base: &str, now: &str) -> (res: Result<(Option<String>, Vec<NewItem>), crate::error::Error>)
    ensures
        parsed_view(res) == spec_parse_json(bytes@, base@, now@),
        res matches Err(e) ==> e is Invalid,
{
    let value = match parse_json_bytes(bytes) {
        Ok(v) => v,
        Err(e) => {
            let mut m = "invalid JSON feed: ".to_owned();
            m.append(e.as_str());
            return Err(crate::error::Error::Invalid(m));
        },
    };
    let is_feed = match get_string(&value, "version") {
        Some(v) => contains_chars(&chars_of(v.as_str()), &chars_of("jsonfeed.org")),
        None => false,
    };
    if is_feed {
        let feed = match decode_feed(&value) {
            Ok(f) => f,
            Err(m) => { return Err(crate::error::Error::Invalid(m)); },
        };
        let ghost fv = feed_view(feed);
        let JsonFeedTitleItems { title, items: feed_items } = split_feed(feed);
        let ghost fi = feed_items@;
        let mut items: Vec<NewItem> = Vec::new();
        for i in it: feed_items.into_iter()
            invariant
                it.seq() == fi,
                new_items_view(items@) == json_feed_items(items_view(fi.take(it.index() as int)), now@),
        {
            proof {
                let k = it.index() as int;
                assert(items_view(fi.take(k + 1)) =~= items_view(fi.take(k)).push(item_view(fi[k])));
            }
            let ghost prev = items@;
            let n = json_feed_new_item(i, now);
            items.push(n);
            proof {
                let k = it.index() as int;
                assert(json_feed_items(items_view(fi.take(k + 1)), now@) =~= json_feed_items(items_view(fi.take(k)), now@).push(json_feed_item(item_view(fi[k]), now@)));
                assert(new_items_view(items@) =~= new_items_view(prev).push(new_item_view(n)));
            }
        }
        assert(fi.take(fi.len() as int) == fi);
        assert(items_view(fi) == fv.items);
        Ok((title, items))
    } else {
        Ok(parse_activitypub(value, base, now))
    }
}

struct JsonFeedTitleItems {
    title: Option<String>,
    items: Vec<JsonFeedItem>,
}

fn split_feed(f: crate::ingest::jsonfeed::JsonFeed) -> (res: JsonFeedTitleItems)
    ensures
        opt_view(res.title) == feed_view(f).title,
        items_view(res.items@) == feed_view(f).items,
        res.items@ == f.items@,
{
    JsonFeedTitleItems { title: f.title, items: f.items }
}


// ---------------------------------------------------------------- RSS and Atom

#[verifier::external_type_specification]
#[verifier::external_body]
pub struct ExFeedEntry(feed_rs::model::Entry);

/// What the item logic reads of a feed-rs entry: the link targets, author
/// names and category terms in order, the title, summary and content texts,
/// and the two dates written in RFC 3339.
#[derive(Debug)]
pub struct EntryFields {
    pub id: String,
    pub links: Vec<String>,
    pub title: Option<String>,
    pub summary: Option<String>,
    pub content: Option<String>,
    pub authors: Vec<String>,
    pub published: Option<String>,
    pub updated: Option<String>,
    pub categories: Vec<String>,
}

/// An RSS, Atom or JSON feed as feed-rs reads it: its title and entries.
#[derive(Debug)]
pub struct FeedDocument {
    pub title: Option<String>,
    pub entries: Vec<EntryFields>,
}

/// An entry as plain text: what feed-rs reads from the document alone. The
/// id is known only for an entry with a link (`linked_id`): one without a
/// link and without an id of its own gets a random one.
pub ghost struct EntryV {
    pub linked_id: Option<Seq<char>>,
    pub links: Seq<Seq<char>>,
    pub title: Option<Seq<char>>,
    pub summary: Option<Seq<char>>,
    pub content: Option<Seq<char>>,
    pub authors: Seq<Seq<char>>,
    pub published: Option<Seq<char>>,
    pub updated: Option<Seq<char>>,
    pub categories: Seq<Seq<char>>,
}

/// A parsed feed as plain text: its title and its entries without ids.
pub ghost struct FeedV {
    pub title: Option<Seq<char>>,
    pub entries: Seq<EntryV>,
}

pub open spec fn entry_view(e: EntryFields) -> EntryV {
    EntryV {
        linked_id: if e.links@.len() > 0 { Some(e.id@) } else { None },
        links: texts_view(e.links@),
        title: opt_view(e.title),
        summary: opt_view(e.summary),
        content: opt_view(e.content),
        authors: texts_view(e.authors@),
        published: opt_view(e.published),
        updated: opt_view(e.updated),
        categories: texts_view(e.categories@),
    }
}

pub open spec fn document_view(doc: FeedDocument) -> FeedV {
    FeedV { title: opt_view(doc.title), entries: doc.entries@.map_values(|e: EntryFields| entry_view(e)) }
}

/// What `feed_rs::parser::parse` reads from a document, apart from the ids
/// of entries without a link: the feed, or the text of its error.
pub uninterp spec fn feed_rs_parse(bytes: Seq<u8>) -> Result<FeedV, Seq<char>>;

/// Turns a feed-rs entry into its fields, one for one. Only `read_feed`
/// calls it.
#[verifier::external_body]
fn entry_fields(e: feed_rs::model::Entry) -> EntryFields {
    EntryFields {
        id: e.id,
        links: e.links.into_iter().map(|l| l.href).collect(),
        title: e.title.map(|t| t.content),
        summary: e.summary.map(|t| t.content),
        content: e.content.and_then(|c| c.body),
        authors: e.authors.into_iter().map(|p| p.name).collect(),
        published: e.published.map(|d| d.to_rfc3339()),
        updated: e.updated.map(|d| d.to_rfc3339()),
        categories: e.categories.into_iter().map(|c| c.term).collect(),
    }
}

/// Parses a feed with `feed_rs::parser::parse`. feed-rs gives an entry that
/// has no id one made from its first link and title, or, without a link, a
/// random UUID, so the ids of entries without a link are not a function of
/// the bytes. Claimed: everything else, or the error's text, is
/// (`feed_rs_parse`), and every entry has a non-empty id.
#[verifier::external_body]
pub(crate) fn read_feed(bytes: &[u8]) -> (res: Result<FeedDocument, String>)
    ensures
        match res {
            Ok(doc) => feed_rs_parse(bytes@) == Ok::<FeedV, Seq<char>>(document_view(doc))
                && forall|i: int| 0 <= i < doc.entries@.len() ==> #[trigger] doc.entries@[i].id@.len() > 0,
            Err(e) => feed_rs_parse(bytes@) == Err::<FeedV, Seq<char>>(e@),
        },
{
    match feed_rs::parser::parse(std::io::Cursor::new(bytes)) {
        Ok(f) => Ok(FeedDocument {
            title: f.title.map(|t| t.content),
            entries: f.entries.into_iter().map(entry_fields).collect(),
        }),
        Err(e) => Err(e.to_string()),
    }
}

/// The current time in RFC 3339, with chrono's `Utc::now().to_rfc3339()`.
/// Claimed: the text reads back as RFC 3339; which time it is, is not.
#[verifier::external_body]
pub(crate) fn now_rfc3339() -> (res: String)
    ensures
        crate::federation::rfc3339_instant(res@) is Some,
{
    chrono::Utc::now().to_rfc3339()
}

pub open spec fn first_text(v: Seq<String>) -> Option<Seq<char>> {
    if v.len() > 0 { Some(v[0]@) } else { None }
}

/// The new item of a feed entry: its id (or, lacking one, its first link,
/// or `fresh`), first link, first author, categories as tags, publication
/// date before update date before `now`.
pub open spec fn entry_item(e: EntryFields, fresh: Seq<char>, now: Seq<char>) -> NewItemV {
    NewItemV {
        external_id: if e.id@.len() == 0 { or_default(first_text(e.links@), fresh) } else { e.id@ },
        url: first_text(e.links@),
        title: opt_view(e.title),
        summary: opt_view(e.summary),
        content: opt_view(e.content),
        author: first_text(e.authors@),
        published_at: or_default(or_else(opt_view(e.published), opt_view(e.updated)), now),
        tags: texts_view(e.categories@),
        raw: None,
        visibility: "public"@,
    }
}

/// The new item of an entry read from a document, under the id it was
/// given.
pub open spec fn entry_item_of(e: EntryV, id: Seq<char>, now: Seq<char>) -> NewItemV {
    NewItemV {
        external_id: id,
        url: if e.links.len() > 0 { Some(e.links[0]) } else { None },
        title: e.title,
        summary: e.summary,
        content: e.content,
        author: if e.authors.len() > 0 { Some(e.authors[0]) } else { None },
        published_at: or_default(or_else(e.published, e.updated), now),
        tags: e.categories,
        raw: None,
        visibility: "public"@,
    }
}

/// The items that a feed gives, each under the id it was given (the
/// document's, for an entry with a link), stamped `now` where it has no
/// date.
pub open spec fn feed_items_match(f: FeedV, items: Seq<NewItem>, now: Seq<char>) -> bool {
    &&& items.len() == f.entries.len()
    &&& forall|i: int| 0 <= i < items.len() ==> #[trigger] items[i].external_id@.len() > 0
        && new_item_view(items[i]) == entry_item_of(f.entries[i], items[i].external_id@, now)
        && (f.entries[i].linked_id matches Some(id) ==> items[i].external_id@ == id)
}

fn first_of(v: &Vec<String>) -> (res: Option<String>)
    ensures
        opt_view(res) == first_text(v@),
{
    if v.len() > 0 { Some(v[0].clone()) } else { None }
}

/// The new item of a feed entry; `fresh` is used only when the entry has
/// neither an id nor a link.
pub fn normalize_entry(entry: EntryFields, fresh: String, now: &str) -> (res: NewItem)
    ensures
        new_item_view(res) == entry_item(entry, fresh@, now@),
{
    let url = first_of(&entry.links);
    let external_id = if entry.id.as_str().is_empty() {
        match first_of(&entry.links) {
            Some(l) => l,
            None => fresh,
        }
    } else {
        entry.id
    };
    NewItem {
        external_id,
        url,
        title: entry.title,
        summary: entry.summary,
        content: entry.content,
        author: first_of(&entry.authors),
        published_at: or_default_exec(or_else_exec(entry.published, entry.updated), now),
        tags: entry.categories,
        raw: None,
        visibility: public_visibility(),
    }
}

/// A random (version 4) UUID from `uuid::Uuid::new_v4`, written in its
/// hyphenated form of 36 characters. Nothing else is claimed of it.
#[verifier::external_body]
fn new_uuid_v4() -> (res: String)
    ensures
        res@.len() == 36,
{
    uuid::Uuid::new_v4().to_string()
}

/// The items of a parsed feed, in order. An entry with neither an id nor a
/// link gets a fresh random id.
pub fn feed_document_items(doc: FeedDocument, now: &str) -> (res: (Option<String>, Vec<NewItem>))
    ensures
        opt_view(res.0) == opt_view(doc.title),
        res.1@.len() == doc.entries@.len(),
        forall|i: int| 0 <= i < res.1@.len() ==> new_item_view(#[trigger] res.1@[i])
            == entry_item(doc.entries@[i], res.1@[i].external_id@, now@),
{
    let ghost es = doc.entries@;
    let FeedDocument { title, entries } = doc;
    let mut items: Vec<NewItem> = Vec::new();
    for e in it: entries.into_iter()
        invariant
            it.seq() == es,
            items@.len() == it.index(),
            forall|i: int| 0 <= i < items@.len() ==> new_item_view(#[trigger] items@[i])
                == entry_item(es[i], items@[i].external_id@, now@),
    {
        let fresh = if e.id.as_str().is_empty() && e.links.len() == 0 {
            new_uuid_v4()
        } else {
            String::new()
        };
        let n = normalize_entry(e, fresh, now);
        assert(new_item_view(n).external_id == n.external_id@);
        items.push(n);
    }
    (title, items)
}

// ---------------------------------------------------------------- documents

/// A document is read as JSON when its content type mentions json or its
/// first non-blank byte opens an object or an array.
pub open spec fn looks_like_json(bytes: Seq<u8>, content_type: Seq<char>) -> bool {
    contains_seq(content_type, "json"@) || first_non_space(bytes) == Some(123u8)
        || first_non_space(bytes) == Some(91u8)
}

fn first_non_space_byte(bytes: &[u8]) -> (res: Option<u8>)
    ensures
        res == first_non_space(bytes@),
{
    let mut i: usize = 0;
    assert(bytes@.skip(0) == bytes@);
    while i < bytes.len()
        invariant
            i <= bytes@.len(),
            first_non_space(bytes@) == first_non_space(bytes@.skip(i as int)),
        decreases bytes.len() - i,
    {
        let b = bytes[i];
        if !(b == 32 || b == 9 || b == 10 || b == 12 || b == 13) {
            return Some(b);
        }
        assert(bytes@.skip(i as int).drop_first() == bytes@.skip(i + 1));
        i = i + 1;
    }
    assert(bytes@.skip(i as int).len() == 0);
    None
}

/// Whether a document is read as JSON.
pub fn is_json_document(bytes: &[u8], content_type: &str) -> (res: bool)
    ensures
        res == looks_like_json(bytes@, content_type@),
{
    let first = first_non_space_byte(bytes);
    contains_chars(&chars_of(content_type), &chars_of("json")) || first == Some(123u8) || first == Some(91u8)
}

/// Reads an origin document, fetched from `base`, into its title and new
/// items: JSON documents as JSON Feed or ActivityPub, anything else through
/// feed-rs. Items without a
/// date get the current time; entries without an id or a link get a random
/// one.
pub fn parse_document(bytes: &[u8], content_type: &str, base: &WebUrl) -> (res: Result<(Option<String>, Vec<NewItem>), crate::error::Error>)
    ensures
        looks_like_json(bytes@, content_type@) ==> exists|now: Seq<char>| parsed_view(res) == spec_parse_json(bytes@, base.href@, now),
        !looks_like_json(bytes@, content_type@) ==> match res {
            Ok((title, items)) => match feed_rs_parse(bytes@) {
                Ok(f) => opt_view(title) == f.title && exists|now: Seq<char>| feed_items_match(f, items@, now),
                Err(_) => false,
            },
            Err(crate::error::Error::Invalid(m)) => match feed_rs_parse(bytes@) {
                Err(e) => m@ == "unsupported feed: "@ + e,
                Ok(_) => false,
            },
            Err(_) => false,
        },
        match res {
            Err(crate::error::Error::Invalid(_)) => true,
            Err(_) => false,
            Ok(_) => true,
        },
{
    let now = now_rfc3339();
    if is_json_document(bytes, content_type) {
        let res = parse_json(bytes, base.href.as_str(), now.as_str());
        assert(parsed_view(res) == spec_parse_json(bytes@, base.href@, now@));
        res
    } else {
        match read_feed(bytes) {
            Ok(doc) => {
                let ghost dv = document_view(doc);
                let ghost es = doc.entries@;
                assert forall|i: int| 0 <= i < es.len() implies #[trigger] es[i].id@.len() > 0 by {}
                let (title, items) = feed_document_items(doc, now.as_str());
                assert forall|i: int| 0 <= i < items@.len() implies #[trigger] items@[i].external_id@.len() > 0
                    && new_item_view(items@[i]) == entry_item_of(dv.entries[i], items@[i].external_id@, now@)
                    && (dv.entries[i].linked_id matches Some(id) ==> items@[i].external_id@ == id) by {
                    assert(es[i].id@.len() > 0);
                    assert(new_item_view(items@[i]).external_id == items@[i].external_id@);
                    assert(dv.entries[i] == entry_view(es[i]));
                    assert(new_item_view(items@[i]) == entry_item_of(dv.entries[i], items@[i].external_id@, now@));
                }
                assert(feed_items_match(dv, items@, now@));
                Ok((title, items))
            },
            Err(e) => {
                let mut m = "unsupported feed: ".to_owned();
                m.append(e.as_str());
                Err(crate::error::Error::Invalid(m))
            },
        }
    }
}


// ---------------------------------------------------------------- OPML

/// An attribute of a start or empty tag: its key and its value decoded and
/// unescaped (or the text of the decoding error); `Malformed` where the tag's
/// attribute list could not be read.
#[derive(Debug)]
pub enum XmlAttr {
    Malformed,
    Attr { key: Vec<u8>, value: Result<String, String> },
}

/// An event of the XML reader, as far as OPML reading needs it.
#[derive(Debug)]
pub enum XmlEvent {
    Element { name: Vec<u8>, attributes: Vec<XmlAttr> },
    Other,
    Eof,
    Failure(String),
}

/// The events that quick-xml's `Reader::read_event` yields for a document,
/// up to and including the first end of input or error.
pub uninterp spec fn xml_events(bytes: Seq<u8>) -> Seq<XmlEvent>;

/// The reader's input as quick-xml sees it.
#[verifier::external_type_specification]
#[verifier::external_body]
#[verifier::reject_recursive_types(R)]
pub struct ExXmlReader<R>(quick_xml::Reader<R>);

/// Whether an event ends reading: the end of input or an error.
pub open spec fn is_last_event(e: XmlEvent) -> bool {
    e is Eof || e is Failure
}

/// The events that a quick-xml reader over a byte slice has still to yield,
/// up to and including the first end of input or error.
pub uninterp spec fn xml_pending(reader: quick_xml::Reader<&[u8]>) -> Seq<XmlEvent>;

/// Opens a quick-xml reader over a document (`Reader::from_reader`).
/// Claimed: the events still to come are those of the document, and they
/// end with the first end of input or error.
#[verifier::external_body]
fn xml_reader<'a>(bytes: &'a [u8]) -> (res: quick_xml::Reader<&'a [u8]>)
    ensures
        xml_pending(res) == xml_events(bytes@),
        xml_pending(res).len() > 0,
        is_last_event(xml_pending(res).last()),
        forall|i: int| 0 <= i < xml_pending(res).len() - 1 ==> !is_last_event(#[trigger] xml_pending(res)[i]),
{
    quick_xml::Reader::from_reader(bytes)
}

/// The next event of a reader (`Reader::read_event`), with a start or empty
/// tag turned into its name and attributes. Claimed: it is the first of the
/// events still to come, and the reader moves past it.
#[verifier::external_body]
fn next_xml_event<'a>(reader: &mut quick_xml::Reader<&'a [u8]>) -> (res: XmlEvent)
    requires
        xml_pending(*old(reader)).len() > 0,
    ensures
        res == xml_pending(*old(reader))[0],
        xml_pending(*final(reader)) == xml_pending(*old(reader)).drop_first(),
{
    match reader.read_event() {
        Ok(Event::Start(t)) | Ok(Event::Empty(t)) => XmlEvent::Element { name: t.name().as_ref().to_vec(), attributes: t.attributes().map(|a| match a {
            Ok(a) => XmlAttr::Attr { key: a.key.as_ref().to_vec(), value: a.decode_and_unescape_value(reader.decoder()).map(|v| v.into_owned()).map_err(|e| e.to_string()) },
            Err(_) => XmlAttr::Malformed }).collect() },
        Ok(Event::Eof) => XmlEvent::Eof,
        Err(e) => XmlEvent::Failure(e.to_string()),
        Ok(_) => XmlEvent::Other,
    }
}

/// The events of a document, read up to the end of input or the first
/// error.
fn read_xml_events(bytes: &[u8]) -> (res: Vec<XmlEvent>)
    ensures
        res@ == xml_events(bytes@),
{
    let mut reader = xml_reader(bytes);
    let ghost all = xml_pending(reader);
    let mut out: Vec<XmlEvent> = Vec::new();
    loop
        invariant
            all == xml_events(bytes@),
            all.len() > 0,
            is_last_event(all.last()),
            forall|i: int| 0 <= i < all.len() - 1 ==> !is_last_event(#[trigger] all[i]),
            out@.len() < all.len(),
            all == out@ + xml_pending(reader),
        decreases xml_pending(reader).len(),
    {
        proof {
            assert(xml_pending(reader).len() > 0);
        }
        let e = next_xml_event(&mut reader);
        let last = match e {
            XmlEvent::Eof => true,
            XmlEvent::Failure(_) => true,
            _ => false,
        };
        out.push(e);
        proof {
            assert(all[out@.len() - 1] == e);
        }
        if last {
            assert(out@.len() == all.len());
            assert(out@ == all);
            return out;
        }
        assert(all == out@ + xml_pending(reader));
    }
}

/// The bytes of a text.
pub open spec fn lit_bytes(s: &str) -> Seq<u8> {
    s.spec_bytes()
}

/// An outline's (feed URL, title) read so far: the last `xmlUrl`, the first
/// `title` or `text`; every value must decode.
pub open spec fn outline_step(acc: (Option<Seq<char>>, Option<Seq<char>>), a: XmlAttr) -> Result<(Option<Seq<char>>, Option<Seq<char>>), Seq<char>> {
    match a {
        XmlAttr::Malformed => Ok(acc),
        XmlAttr::Attr { key, value } => match value {
            Err(e) => Err(e@),
            Ok(v) => if key@ == lit_bytes("xmlUrl") {
                Ok((Some(v@), acc.1))
            } else if (key@ == lit_bytes("title") || key@ == lit_bytes("text")) && acc.1 is None {
                Ok((acc.0, Some(v@)))
            } else {
                Ok(acc)
            },
        },
    }
}

pub open spec fn outline_fields(attrs: Seq<XmlAttr>) -> Result<(Option<Seq<char>>, Option<Seq<char>>), Seq<char>>
    decreases attrs.len(),
{
    if attrs.len() == 0 {
        Ok((None, None))
    } else {
        match outline_fields(attrs.drop_last()) {
            Err(e) => Err(e),
            Ok(acc) => outline_step(acc, attrs.last()),
        }
    }
}

/// The subscriptions read from events: for each `outline` tag with an
/// `xmlUrl`, that URL and the tag's title, up to the end of input; the first
/// reader error ends reading with "invalid OPML: ..." and the first value
/// that does not decode with that error's text. `true` once the end is met.
pub open spec fn opml_events(events: Seq<XmlEvent>) -> Result<(bool, Seq<(Seq<char>, Option<Seq<char>>)>), Seq<char>>
    decreases events.len(),
{
    if events.len() == 0 {
        Ok((false, Seq::<(Seq<char>, Option<Seq<char>>)>::empty()))
    } else {
        match opml_events(events.drop_last()) {
            Err(e) => Err(e),
            Ok((done, found)) => if done {
                Ok((done, found))
            } else {
                match events.last() {
                    XmlEvent::Eof => Ok((true, found)),
                    XmlEvent::Failure(e) => Err("invalid OPML: "@ + e@),
                    XmlEvent::Other => Ok((false, found)),
                    XmlEvent::Element { name, attributes } => if name@ == lit_bytes("outline") {
                        match outline_fields(attributes@) {
                            Err(e) => Err(e),
                            Ok((Some(url), title)) => Ok((false, found.push((url, title)))),
                            Ok((None, _)) => Ok((false, found)),
                        }
                    } else {
                        Ok((false, found))
                    },
                }
            },
        }
    }
}

/// The subscriptions that a run of reader events yields, or the error's
/// text.
pub open spec fn opml_result(events: Seq<XmlEvent>) -> Result<Seq<(Seq<char>, Option<Seq<char>>)>, Seq<char>> {
    match opml_events(events) {
        Ok((_, found)) => Ok(found),
        Err(e) => Err(e),
    }
}

/// What an OPML document yields: its subscriptions, or the error's text.
pub open spec fn spec_parse_opml(bytes: Seq<u8>) -> Result<Seq<(Seq<char>, Option<Seq<char>>)>, Seq<char>> {
    opml_result(xml_events(bytes))
}

pub open spec fn pairs_view(v: Seq<(String, Option<String>)>) -> Seq<(Seq<char>, Option<Seq<char>>)> {
    v.map_values(|p: (String, Option<String>)| (p.0@, opt_view(p.1)))
}

fn bytes_equal(a: &[u8], b: &[u8]) -> (res: bool)
    ensures
        res == (a@ == b@),
{
    if a.len() != b.len() {
        return false;
    }
    let mut i: usize = 0;
    while i < a.len()
        invariant
            a@.len() == b@.len(),
            i <= a@.len(),
            forall|j: int| 0 <= j < i ==> a@[j] == b@[j],
        decreases a.len() - i,
    {
        if a[i] != b[i] {
            return false;
        }
        i = i + 1;
    }
    assert(a@ =~= b@);
    true
}

fn outline_of(attrs: &Vec<XmlAttr>) -> (res: Result<(Option<String>, Option<String>), String>)
    ensures
        match res {
            Ok((u, t)) => outline_fields(attrs@) == Ok::<(Option<Seq<char>>, Option<Seq<char>>), Seq<char>>((opt_view(u), opt_view(t))),
            Err(e) => outline_fields(attrs@) == Err::<(Option<Seq<char>>, Option<Seq<char>>), Seq<char>>(e@),
        },
{
    let mut url: Option<String> = None;
    let mut title: Option<String> = None;
    let mut i: usize = 0;
    assert(attrs@.take(0) =~= Seq::<XmlAttr>::empty());
    while i < attrs.len()
        invariant
            i <= attrs@.len(),
            outline_fields(attrs@.take(i as int)) == Ok::<(Option<Seq<char>>, Option<Seq<char>>), Seq<char>>((opt_view(url), opt_view(title))),
        decreases attrs.len() - i,
    {
        assert(attrs@.take(i + 1).drop_last() == attrs@.take(i as int));
        match &attrs[i] {
            XmlAttr::Malformed => {},
            XmlAttr::Attr { key, value } => match value {
                Err(e) => {
                    proof { lemma_outline_err(attrs@, i + 1); }
                    return Err(e.clone());
                },
                Ok(v) => {
                    if bytes_equal(key.as_slice(), "xmlUrl".as_bytes()) {
                        url = Some(v.clone());
                    } else if (bytes_equal(key.as_slice(), "title".as_bytes()) || bytes_equal(key.as_slice(), "text".as_bytes())) && title.is_none() {
                        title = Some(v.clone());
                    }
                },
            },
        }
        i = i + 1;
    }
    assert(attrs@.take(attrs@.len() as int) == attrs@);
    Ok((url, title))
}

proof fn lemma_outline_err(a: Seq<XmlAttr>, n: int)
    requires
        0 <= n <= a.len(),
        outline_fields(a.take(n)) is Err,
    ensures
        outline_fields(a) == outline_fields(a.take(n)),
    decreases a.len() - n,
{
    if n < a.len() {
        assert(a.take(n + 1).drop_last() == a.take(n));
        lemma_outline_err(a, n + 1);
    } else {
        assert(a.take(n) == a);
    }
}

proof fn lemma_opml_stop(ev: Seq<XmlEvent>, n: int)
    requires
        0 <= n <= ev.len(),
        opml_events(ev.take(n)) is Err || opml_events(ev.take(n)) matches Ok((true, _)),
    ensures
        opml_events(ev) == opml_events(ev.take(n)),
    decreases ev.len() - n,
{
    if n < ev.len() {
        assert(ev.take(n + 1).drop_last() == ev.take(n));
        lemma_opml_stop(ev, n + 1);
    } else {
        assert(ev.take(n) == ev);
    }
}

/// The subscriptions that the events of an XML reader give: the `xmlUrl`
/// and the title (from `title` or `text`) of every `outline` tag that has an
/// `xmlUrl`, in order, up to the end of input; a reader error or a value that
/// does not decode fails.
pub fn opml_from_events(events: &Vec<XmlEvent>) -> (res: Result<Vec<(String, Option<String>)>, crate::error::Error>)
    ensures
        match res {
            Ok(found) => opml_result(events@) == Ok::<Seq<(Seq<char>, Option<Seq<char>>)>, Seq<char>>(pairs_view(found@)),
            Err(crate::error::Error::Invalid(m)) => opml_result(events@) == Err::<Seq<(Seq<char>, Option<Seq<char>>)>, Seq<char>>(m@),
            Err(_) => false,
        },
{
    let ghost ev = events@;
    let mut found: Vec<(String, Option<String>)> = Vec::new();
    let mut i: usize = 0;
    assert(ev.take(0) =~= Seq::<XmlEvent>::empty());
    assert(pairs_view(found@) =~= Seq::<(Seq<char>, Option<Seq<char>>)>::empty());
    while i < events.len()
        invariant
            ev == events@,
            i <= ev.len(),
            opml_events(ev.take(i as int)) == Ok::<(bool, Seq<(Seq<char>, Option<Seq<char>>)>), Seq<char>>((false, pairs_view(found@))),
        decreases events.len() - i,
    {
        assert(ev.take(i + 1).drop_last() == ev.take(i as int));
        match &events[i] {
            XmlEvent::Eof => {
                proof { lemma_opml_stop(ev, i + 1); }
                return Ok(found);
            },
            XmlEvent::Failure(e) => {
                let mut m = "invalid OPML: ".to_owned();
                m.append(e.as_str());
                proof { lemma_opml_stop(ev, i + 1); }
                return Err(crate::error::Error::Invalid(m));
            },
            XmlEvent::Other => {},
            XmlEvent::Element { name, attributes } => {
                if bytes_equal(name.as_slice(), "outline".as_bytes()) {
                    match outline_of(attributes) {
                        Err(e) => {
                            proof { lemma_opml_stop(ev, i + 1); }
                            return Err(crate::error::Error::Invalid(e));
                        },
                        Ok((Some(url), title)) => {
                            let ghost prev = found@;
                            let ghost pv = (url@, opt_view(title));
                            found.push((url, title));
                            assert(pairs_view(found@) =~= pairs_view(prev).push(pv));
                        },
                        Ok((None, _)) => {},
                    }
                }
            },
        }
        i = i + 1;
    }
    assert(ev.take(ev.len() as int) == ev);
    Ok(found)
}

/// Reads the subscriptions of an OPML document: the `xmlUrl` and the title
/// (from `title` or `text`) of every `outline` tag that has an `xmlUrl`, in
/// document order.
pub fn parse_opml(bytes: &[u8]) -> (res: Result<Vec<(String, Option<String>)>, crate::error::Error>)
    ensures
        match res {
            Ok(found) => spec_parse_opml(bytes@) == Ok::<Seq<(Seq<char>, Option<Seq<char>>)>, Seq<char>>(pairs_view(found@)),
            Err(crate::error::Error::Invalid(m)) => spec_parse_opml(bytes@) == Err::<Seq<(Seq<char>, Option<Seq<char>>)>, Seq<char>>(m@),
            Err(_) => false,
        },
{
    let events = read_xml_events(bytes);
    opml_from_events(&events)
}


// ---------------------------------------------------------------- fetching

/// The address a source is fetched from: its stored URL, parsed; a URL that
/// does not parse is refused with "invalid source URL: " and the parser's
/// message.
pub fn source_url(url: &str) -> (res: Result<WebUrl, Error>)
    ensures
        match res {
            Ok(u) => url_parse(url@) == Ok::<WebUrl, Seq<char>>(u),
            Err(Error::Invalid(m)) => exists|e: Seq<char>| url_parse(url@) == Err::<WebUrl, Seq<char>>(e) && m@ == "invalid source URL: "@ + e,
            Err(_) => false,
        },
{
    match parse_url(url) {
        Ok(u) => Ok(u),
        Err(e) => {
            let mut m = "invalid source URL: ".to_owned();
            m.append(e.as_str());
            Err(Error::Invalid(m))
        },
    }
}

/// The media types a source fetch asks for, in order of preference.
pub open spec fn accept_types() -> Seq<char> {
    "application/atom+xml, application/rss+xml, application/feed+json, application/activity+json, application/json;q=0.8, */*;q=0.1"@
}

/// The headers of a source request: `Accept` always; on the first request
/// (not on a redirect) the conditional headers for the stored validators.
pub open spec fn spec_request_headers(hop: u32, etag: Option<Seq<char>>, last_modified: Option<Seq<char>>) -> Seq<(Seq<char>, Seq<char>)> {
    let base = seq![("Accept"@, accept_types())];
    let with_etag = match etag {
        Some(e) if hop == 0 => base.push(("if-none-match"@, e)),
        _ => base,
    };
    match last_modified {
        Some(m) if hop == 0 => with_etag.push(("if-modified-since"@, m)),
        _ => with_etag,
    }
}

pub open spec fn headers_view(v: Seq<(String, String)>) -> Seq<(Seq<char>, Seq<char>)> {
    v.map_values(|p: (String, String)| (p.0@, p.1@))
}

/// The headers of the request made at redirect hop `hop`.
pub fn request_headers(hop: u32, etag: &Option<String>, last_modified: &Option<String>) -> (res: Vec<(String, String)>)
    ensures
        headers_view(res@) == spec_request_headers(hop, opt_view(*etag), opt_view(*last_modified)),
{
    let mut h: Vec<(String, String)> = Vec::new();
    h.push(("Accept".to_owned(), "application/atom+xml, application/rss+xml, application/feed+json, application/activity+json, application/json;q=0.8, */*;q=0.1".to_owned()));
    let ghost h1 = headers_view(h@);
    assert(h1 =~= seq![("Accept"@, accept_types())]);
    if hop == 0 {
        match etag {
            Some(e) => { h.push(("if-none-match".to_owned(), e.clone())); },
            None => {},
        }
    }
    let ghost h2 = headers_view(h@);
    assert(h2 =~= (match opt_view(*etag) { Some(e) if hop == 0 => h1.push(("if-none-match"@, e)), _ => h1 }));
    if hop == 0 {
        match last_modified {
            Some(m) => { h.push(("if-modified-since".to_owned(), m.clone())); },
            None => {},
        }
    }
    assert(headers_view(h@) =~= (match opt_view(*last_modified) { Some(m) if hop == 0 => h2.push(("if-modified-since"@, m)), _ => h2 }));
    h
}

/// What to do after a response: fetch the redirect target, or read this one.
#[derive(Debug)]
pub enum FetchStep {
    Follow(WebUrl),
    Read,
}

/// The step after the response to request number `hop` (from 0): a 3xx
/// answer other than 304 Not Modified is followed to its `Location`,
/// resolved against the address, unless it was the sixth request; any other
/// answer, 304 among them, is read.
pub open spec fn spec_after_response(hop: u32, url: WebUrl, status: u16, location: Option<Seq<char>>) -> Result<Option<WebUrl>, Seq<char>> {
    if 300 <= status && status <= 399 && status != 304 {
        match location {
            None => Err("redirect missing Location"@),
            Some(l) => match url_join(url, l) {
                Err(e) => Err("invalid redirect: "@ + e),
                Ok(next) => if hop >= 5 { Err("too many redirects"@) } else { Ok(Some(next)) },
            },
        }
    } else {
        Ok(None)
    }
}

pub fn after_response(hop: u32, url: &WebUrl, status: u16, location: Option<&str>) -> (res: Result<FetchStep, Error>)
    ensures
        match res {
            Ok(FetchStep::Follow(next)) => spec_after_response(hop, *url, status, match location { Some(l) => Some(l@), None => None }) == Ok::<Option<WebUrl>, Seq<char>>(Some(next)),
            Ok(FetchStep::Read) => spec_after_response(hop, *url, status, match location { Some(l) => Some(l@), None => None }) == Ok::<Option<WebUrl>, Seq<char>>(None),
            Err(Error::Invalid(m)) => spec_after_response(hop, *url, status, match location { Some(l) => Some(l@), None => None }) == Err::<Option<WebUrl>, Seq<char>>(m@),
            Err(_) => false,
        },
{
    if 300 <= status && status <= 399 && status != 304 {
        match location {
            None => Err(Error::Invalid("redirect missing Location".to_owned())),
            Some(l) => match join_url(url, l) {
                Err(e) => {
                    let mut m = "invalid redirect: ".to_owned();
                    m.append(e.as_str());
                    Err(Error::Invalid(m))
                },
                Ok(next) => if hop >= 5 {
                    Err(Error::Invalid("too many redirects".to_owned()))
                } else {
                    Ok(FetchStep::Follow(next))
                },
            },
        }
    } else {
        Ok(FetchStep::Read)
    }
}

/// How a final response is handled.
#[derive(Debug, PartialEq, Eq)]
pub enum FinalResponse {
    NotModified,
    ReadBody,
}

/// A final response: 304 keeps the stored copy; any other status outside
/// 2xx fails with the status line; a declared length above the limit fails.
pub open spec fn spec_final_response(status: u16, status_line: Seq<char>, content_length: Option<u64>, max: usize) -> Result<bool, Seq<char>> {
    if status == 304 {
        Ok(false)
    } else if !(200 <= status && status <= 299) {
        Err("origin returned "@ + status_line)
    } else if content_length matches Some(n) && n > max {
        Err("source response is too large"@)
    } else {
        Ok(true)
    }
}

pub fn final_response(status: u16, status_line: &str, content_length: Option<u64>, max: usize) -> (res: Result<FinalResponse, Error>)
    ensures
        match res {
            Ok(FinalResponse::NotModified) => spec_final_response(status, status_line@, content_length, max) == Ok::<bool, Seq<char>>(false),
            Ok(FinalResponse::ReadBody) => spec_final_response(status, status_line@, content_length, max) == Ok::<bool, Seq<char>>(true),
            Err(Error::Invalid(m)) => spec_final_response(status, status_line@, content_length, max) == Err::<bool, Seq<char>>(m@),
            Err(_) => false,
        },
{
    if status == 304 {
        return Ok(FinalResponse::NotModified);
    }
    if !(200 <= status && status <= 299) {
        let mut m = "origin returned ".to_owned();
        m.append(status_line);
        return Err(Error::Invalid(m));
    }
    match content_length {
        Some(n) => if n > max as u64 {
            return Err(Error::Invalid("source response is too large".to_owned()));
        },
        None => {},
    }
    Ok(FinalResponse::ReadBody)
}

/// Adds a received chunk to a body, refusing to let the body grow past
/// `max` bytes; `what` names the response in the error ("source" or
/// "peer").
pub fn append_chunk(body: &mut Vec<u8>, chunk: &[u8], max: usize, what: &str) -> (res: Result<(), Error>)
    requires
        old(body)@.len() <= max,
    ensures
        final(body)@.len() <= max,
        old(body)@.len() + chunk@.len() > max ==> final(body)@ == old(body)@ && match res {
            Err(Error::Invalid(m)) => m@ == what@ + " response is too large"@,
            _ => false,
        },
        old(body)@.len() + chunk@.len() <= max ==> res is Ok && final(body)@ == old(body)@ + chunk@,
{
    if chunk.len() > max - body.len() {
        let mut m = what.to_owned();
        m.append(" response is too large");
        return Err(Error::Invalid(m));
    }
    let mut i: usize = 0;
    let ghost start = body@;
    while i < chunk.len()
        invariant
            i <= chunk@.len(),
            start.len() + chunk@.len() <= max,
            body@ == start + chunk@.take(i as int),
        decreases chunk.len() - i,
    {
        body.push(chunk[i]);
        assert(chunk@.take(i + 1) == chunk@.take(i as int).push(chunk@[i as int]));
        i = i + 1;
    }
    assert(chunk@.take(chunk@.len() as int) == chunk@);
    Ok(())
}

// ---------------------------------------------------------------- schedule

/// The longest span, in whole seconds, that chrono's `TimeDelta` holds:
/// `i64::MAX` milliseconds.
pub open spec fn max_delta_secs() -> int {
    9_223_372_036_854_775
}

/// The seconds until a source or peer is polled again: the fetch interval,
/// or 15 minutes where the interval is longer than a `TimeDelta` can hold
/// (`TimeDelta::from_std` refuses it).
pub fn poll_delay_secs(interval_secs: u64) -> (res: i64)
    ensures
        res == if interval_secs <= max_delta_secs() { interval_secs as int } else { 900 },
{
    if interval_secs <= 9_223_372_036_854_775 {
        interval_secs as i64
    } else {
        900
    }
}

/// How far back cached items are kept, in seconds: nothing is pruned when
/// the retention is zero days, otherwise items older than that many days go.
pub fn retention_window_secs(retention_days: u64) -> (res: Option<i64>)
    requires
        retention_days * 86400 <= max_delta_secs(),
    ensures
        res == if retention_days == 0 { None::<i64> } else { Some((retention_days * 86400) as i64) },
{
    if retention_days == 0 {
        None
    } else {
        Some((retention_days * 86400) as i64)
    }
}

// ---------------------------------------------------------------- laws

proof fn lemma_supported_activities(list: Seq<JsonValue>, base: Seq<char>, now: Seq<char>)
    requires
        forall|i: int| 0 <= i < list.len() ==> supported_kind(activity_object(#[trigger] list[i])),
    ensures
        activity_items(list, base, now).len() == list.len(),
        forall|i: int| 0 <= i < list.len() ==> (#[trigger] activity_items(list, base, now)[i]).raw == Some(list[i]),
    decreases list.len(),
{
    if list.len() > 0 {
        let init = list.drop_last();
        assert forall|i: int| 0 <= i < init.len() implies supported_kind(activity_object(#[trigger] init[i])) by {
            assert(init[i] == list[i]);
        }
        lemma_supported_activities(init, base, now);
        assert(supported_kind(activity_object(list[list.len() - 1])));
        assert forall|i: int| 0 <= i < list.len() implies (#[trigger] activity_items(list, base, now)[i]).raw == Some(list[i]) by {
            if i < list.len() - 1 {
                assert(init[i] == list[i]);
            }
        }
    }
}

/// A collection without `orderedItems` whose `items` is an array is read
/// through that array: when every element carries a note, article, page or
/// event, each element gives exactly one item, in order, holding that element
/// as its raw document; and the collection's `name` is the title.
pub proof fn law_collection_items_are_read(v: JsonValue, a: Seq<JsonValue>, base: Seq<char>, now: Seq<char>)
    requires
        spec_get(v, "orderedItems"@) is None,
        spec_get(v, "items"@) matches Some(JsonValue::Array(x)) && x@ == a,
        forall|i: int| 0 <= i < a.len() ==> supported_kind(activity_object(#[trigger] a[i])),
    ensures
        activitypub(v, base, now).0 == get_str(v, "name"@),
        activitypub(v, base, now).1.len() == a.len(),
        forall|i: int| 0 <= i < a.len() ==> (#[trigger] activitypub(v, base, now).1[i]).raw == Some(a[i]),
{
    assert(activity_list(v) == a);
    lemma_supported_activities(a, base, now);
}

/// A collection's `orderedItems` array, when present, is what is read: each
/// of its supported elements gives one item, in order.
pub proof fn law_ordered_items_are_read(v: JsonValue, a: Seq<JsonValue>, base: Seq<char>, now: Seq<char>)
    requires
        spec_get(v, "orderedItems"@) matches Some(JsonValue::Array(x)) && x@ == a,
        forall|i: int| 0 <= i < a.len() ==> supported_kind(activity_object(#[trigger] a[i])),
    ensures
        activitypub(v, base, now).1.len() == a.len(),
        forall|i: int| 0 <= i < a.len() ==> (#[trigger] activitypub(v, base, now).1[i]).raw == Some(a[i]),
{
    assert(activity_list(v) == a);
    lemma_supported_activities(a, base, now);
}

/// A JSON Feed is read item for item: one new item per feed item, in order,
/// each under the item's id and with its URL, title, summary, tags and
/// (HTML before text) content unchanged; the feed's title is the title.
pub proof fn law_json_feed_items_keep_their_fields(bytes: Seq<u8>, v: JsonValue, f: FeedFields, base: Seq<char>, now: Seq<char>)
    requires
        json_parse(bytes) == Ok::<JsonValue, Seq<char>>(v),
        is_json_feed(v),
        dec_feed(v) == Ok::<FeedFields, Seq<char>>(f),
    ensures
        match spec_parse_json(bytes, base, now) {
            Ok((title, items)) => {
                &&& title == f.title
                &&& items.len() == f.items.len()
                &&& forall|i: int| 0 <= i < items.len() ==> {
                    &&& (#[trigger] items[i]).external_id == f.items[i].id
                    &&& items[i].url == f.items[i].url
                    &&& items[i].title == f.items[i].title
                    &&& items[i].summary == f.items[i].summary
                    &&& items[i].tags == f.items[i].tags
                    &&& items[i].content == (if f.items[i].content_html is Some { f.items[i].content_html } else { f.items[i].content_text })
                    &&& items[i].raw is None
                    &&& items[i].visibility == "public"@
                }
            },
            Err(_) => false,
        },
{
}

} // verus!

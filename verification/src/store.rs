//! What the store decides about items and feeds; the SQL itself runs in the
//! application.

use vstd::prelude::*;
use crate::json::{JsonValue, all_strings, json_parse, json_text, string_texts, write_json};
use crate::ingest::jsonfeed::lemma_strings_of_all_strings;
use crate::model::{Feed, Item, NewItem, Source, opt_str, opt_text, opt_view, texts_view};
use vstd::string::StringSliceAdditionalSpecFns;
use crate::text::{
    ascii_lower, is_ascii_text, lemma_ascii_lower_concat, lemma_contains_in_middle,
    chars_of, contains_chars, contains_seq, lowercase, split_chars, split_on, string_of,
    to_lowercase, trim, trim_chars,
};

verus! {

/// The terms of a comma-separated list: each piece trimmed, empty pieces
/// dropped, the rest lower-cased.
pub open spec fn term_list(pieces: Seq<Seq<char>>) -> Seq<Seq<char>>
    decreases pieces.len(),
{
    if pieces.len() == 0 {
        Seq::<Seq<char>>::empty()
    } else {
        let init = term_list(pieces.drop_last());
        let t = trim(pieces.last());
        if t.len() > 0 {
            init.push(lowercase(t))
        } else {
            init
        }
    }
}

/// The filter terms that a feed's optional list gives.
pub open spec fn filter_terms(list: Option<String>) -> Seq<Seq<char>> {
    term_list(split_on(opt_text(list), ','))
}

/// The lower-cased text that filters are matched against: title, summary,
/// content and tags, separated by spaces.
pub open spec fn haystack(item: Item) -> Seq<char> {
    lowercase(
        opt_text(item.title) + " "@ + opt_text(item.summary) + " "@ + opt_text(item.content) + " "@
            + item.tags_json@,
    )
}

/// Some term of `terms` occurs in `hay`.
pub open spec fn any_term_in(hay: Seq<char>, terms: Seq<Seq<char>>) -> bool {
    exists|k: int| 0 <= k < terms.len() && contains_seq(hay, #[trigger] terms[k])
}

/// An item belongs to a feed's projection when the feed has no wanted terms
/// or one of them occurs, and none of its unwanted terms occurs.
pub open spec fn spec_matches_filter(feed: Feed, item: Item) -> bool {
    let hay = haystack(item);
    &&& (filter_terms(feed.include_terms).len() == 0 || any_term_in(
        hay,
        filter_terms(feed.include_terms),
    ))
    &&& !any_term_in(hay, filter_terms(feed.exclude_terms))
}

fn terms_of(list: &Option<String>) -> (res: Vec<Vec<char>>)
    ensures
        res@.len() == filter_terms(*list).len(),
        forall|k: int| 0 <= k < res@.len() ==> #[trigger] res@[k]@ == filter_terms(*list)[k],
{
    let cs = chars_of(opt_str(list));
    let pieces = split_chars(&cs, ',');
    let ghost ps = split_on(opt_text(*list), ',');
    let mut res: Vec<Vec<char>> = Vec::new();
    let mut i: usize = 0;
    while i < pieces.len()
        invariant
            i <= pieces@.len() == ps.len(),
            forall|k: int| 0 <= k < pieces@.len() ==> #[trigger] pieces@[k]@ == ps[k],
            res@.len() == term_list(ps.take(i as int)).len(),
            forall|k: int|
                0 <= k < res@.len() ==> #[trigger] res@[k]@ == term_list(ps.take(i as int))[k],
        decreases pieces.len() - i,
    {
        assert(ps.take(i + 1).drop_last() == ps.take(i as int));
        assert(ps.take(i + 1).last() == ps[i as int]);
        let t = trim_chars(&pieces[i]);
        if t.len() > 0 {
            let s = string_of(&t);
            let lower = to_lowercase(s.as_str());
            res.push(chars_of(lower.as_str()));
        }
        i = i + 1;
    }
    assert(ps.take(pieces@.len() as int) == ps);
    res
}

fn any_term(hay: &Vec<char>, terms: &Vec<Vec<char>>) -> (res: bool)
    ensures
        res == (exists|k: int| 0 <= k < terms@.len() && contains_seq(hay@, #[trigger] terms@[k]@)),
{
    let mut i: usize = 0;
    while i < terms.len()
        invariant
            i <= terms@.len(),
            forall|k: int| 0 <= k < i ==> !contains_seq(hay@, #[trigger] terms@[k]@),
        decreases terms.len() - i,
    {
        if contains_chars(hay, &terms[i]) {
            return true;
        }
        i = i + 1;
    }
    false
}

/// The item's texts are all ASCII.
pub open spec fn ascii_item(item: Item) -> bool {
    &&& is_ascii_text(opt_text(item.title))
    &&& is_ascii_text(opt_text(item.summary))
    &&& is_ascii_text(opt_text(item.content))
    &&& is_ascii_text(item.tags_json@)
}

/// Some term of `terms` occurs in the ASCII lower case of `text`.
pub open spec fn term_in_lowered(text: Seq<char>, terms: Seq<Seq<char>>) -> bool {
    exists|k: int| 0 <= k < terms.len() && contains_seq(ascii_lower(text), #[trigger] terms[k])
}

/// Where an item's matched text lower-cases as ASCII does, a term found in
/// its lower-cased content is found in the matched text.
proof fn lemma_content_term_in_haystack(item: Item, t: Seq<char>)
    requires
        ascii_item(item),
        haystack(item) == ascii_lower(
            opt_text(item.title) + " "@ + opt_text(item.summary) + " "@ + opt_text(item.content) + " "@ + item.tags_json@,
        ),
        contains_seq(ascii_lower(opt_text(item.content)), t),
    ensures
        contains_seq(haystack(item), t),
{
    let pre = opt_text(item.title) + " "@ + opt_text(item.summary) + " "@;
    let post = " "@ + item.tags_json@;
    let c = opt_text(item.content);
    assert(opt_text(item.title) + " "@ + opt_text(item.summary) + " "@ + c + " "@ + item.tags_json@ =~= pre + c + post);
    lemma_ascii_lower_concat(pre, c);
    lemma_ascii_lower_concat(pre + c, post);
    lemma_contains_in_middle(ascii_lower(pre), ascii_lower(c), ascii_lower(post), t);
}

/// Whether an item passes a feed's wanted and unwanted terms. For an item
/// whose texts are ASCII, a wanted term in its content admits it (when the
/// feed has no unwanted terms) and an unwanted term in its content excludes
/// it, whatever the case of the letters.
pub fn matches_filter(feed: &Feed, item: &Item) -> (res: bool)
    ensures
        res == spec_matches_filter(*feed, *item),
        ascii_item(*item) && filter_terms(feed.exclude_terms).len() == 0
            && term_in_lowered(opt_text(item.content), filter_terms(feed.include_terms)) ==> res,
        ascii_item(*item) && term_in_lowered(opt_text(item.content), filter_terms(feed.exclude_terms)) ==> !res,
{
    let mut text = String::new();
    text.append(opt_str(&item.title));
    text.append(" ");
    text.append(opt_str(&item.summary));
    text.append(" ");
    text.append(opt_str(&item.content));
    text.append(" ");
    text.append(item.tags_json.as_str());
    let lower = to_lowercase(text.as_str());
    proof {
        assert(text@ =~= opt_text(item.title) + " "@ + opt_text(item.summary) + " "@ + opt_text(item.content) + " "@ + item.tags_json@);
        if ascii_item(*item) {
            reveal_strlit(" ");
            assert(is_ascii_text(" "@));
            let t = opt_text(item.title);
            let su = opt_text(item.summary);
            let co = opt_text(item.content);
            lemma_ascii_lower_concat(t, " "@);
            lemma_ascii_lower_concat(t + " "@, su);
            lemma_ascii_lower_concat(t + " "@ + su, " "@);
            lemma_ascii_lower_concat(t + " "@ + su + " "@, co);
            lemma_ascii_lower_concat(t + " "@ + su + " "@ + co, " "@);
            lemma_ascii_lower_concat(t + " "@ + su + " "@ + co + " "@, item.tags_json@);
            assert(is_ascii_text(text@));
            let fi = filter_terms(feed.include_terms);
            let fe = filter_terms(feed.exclude_terms);
            if term_in_lowered(co, fi) {
                let k = choose|k: int| 0 <= k < fi.len() && contains_seq(ascii_lower(co), #[trigger] fi[k]);
                lemma_content_term_in_haystack(*item, fi[k]);
                assert(any_term_in(haystack(*item), fi));
            }
            if term_in_lowered(co, fe) {
                let k = choose|k: int| 0 <= k < fe.len() && contains_seq(ascii_lower(co), #[trigger] fe[k]);
                lemma_content_term_in_haystack(*item, fe[k]);
                assert(any_term_in(haystack(*item), fe));
            }
        }
    }
    let hay = chars_of(lower.as_str());
    let wanted = terms_of(&feed.include_terms);
    let unwanted = terms_of(&feed.exclude_terms);
    let inc_any = any_term(&hay, &wanted);
    let exc_any = any_term(&hay, &unwanted);
    proof {
        let fi = filter_terms(feed.include_terms);
        let fe = filter_terms(feed.exclude_terms);
        assert(inc_any == any_term_in(hay@, fi)) by {
            if inc_any {
                let k = choose|k: int| 0 <= k < wanted@.len() && contains_seq(hay@, #[trigger] wanted@[k]@);
                assert(fi[k] == wanted@[k]@);
            }
            if any_term_in(hay@, fi) {
                let k = choose|k: int| 0 <= k < fi.len() && contains_seq(hay@, #[trigger] fi[k]);
                assert(fi[k] == wanted@[k]@);
            }
        }
        assert(exc_any == any_term_in(hay@, fe)) by {
            if exc_any {
                let k = choose|k: int| 0 <= k < unwanted@.len() && contains_seq(hay@, #[trigger] unwanted@[k]@);
                assert(fe[k] == unwanted@[k]@);
            }
            if any_term_in(hay@, fe) {
                let k = choose|k: int| 0 <= k < fe.len() && contains_seq(hay@, #[trigger] fe[k]);
                assert(fe[k] == unwanted@[k]@);
            }
        }
    }
    (wanted.len() == 0 || inc_any) && !exc_any
}


/// The text a version 5 UUID in the URL namespace is written as, for a name.
pub uninterp spec fn uuid_v5_url(name: Seq<u8>) -> Seq<char>;

/// Makes a name-based UUID with `uuid::Uuid::new_v5(&Uuid::NAMESPACE_URL,
/// name)` and writes it hyphenated. Claimed: a function of the name.
#[verifier::external_body]
fn uuid_v5_text(name: &[u8]) -> (res: String)
    ensures
        res@ == uuid_v5_url(name@),
{
    uuid::Uuid::new_v5(&uuid::Uuid::NAMESPACE_URL, name).to_string()
}

/// What identifies an item across fetches and nodes: its URL when it has
/// one, else the source (or "peer") and the external id.
pub open spec fn stable_key(source_id: Option<Seq<char>>, url: Option<Seq<char>>, external_id: Seq<char>) -> Seq<char> {
    match url {
        Some(u) => u,
        None => (match source_id { Some(s) => s, None => "peer"@ }) + ":"@ + external_id,
    }
}

/// The id under which an item is stored.
pub open spec fn spec_item_id(source_id: Option<Seq<char>>, url: Option<Seq<char>>, external_id: Seq<char>) -> Seq<char> {
    uuid_v5_url(vstd::utf8::encode_utf8(stable_key(source_id, url, external_id)))
}

/// The stable id of a new item from a source (or, without one, a peer).
pub fn item_id(source_id: Option<&str>, item: &NewItem) -> (res: String)
    ensures
        res@ == spec_item_id(match source_id { Some(s) => Some(s@), None => None }, opt_view(item.url), item.external_id@),
{
    let key: String = match &item.url {
        Some(u) => u.clone(),
        None => {
            let mut k: String = match source_id { Some(s) => s.to_owned(), None => "peer".to_owned() };
            k.append(":");
            k.append(item.external_id.as_str());
            k
        },
    };
    uuid_v5_text(key.as_str().as_bytes())
}

pub open spec fn is_string_array(v: JsonValue, tags: Seq<String>) -> bool {
    match v {
        JsonValue::Array(a) => a@.len() == tags.len() && forall|i: int| 0 <= i < tags.len() ==> (#[trigger] a@[i] matches JsonValue::String(s) && s@ == tags[i]@),
        _ => false,
    }
}

/// The stored JSON text of an item's tags: the compact JSON of the array of
/// its tags, which a peer reads back as the same tags.
pub fn tags_json(tags: &Vec<String>) -> (res: String)
    ensures
        exists|v: JsonValue| is_string_array(v, tags@) && res@ == json_text(v),
        crate::federation::spec_item_tags(res@) == texts_view(tags@),
{
    let mut a: Vec<JsonValue> = Vec::new();
    let mut i: usize = 0;
    while i < tags.len()
        invariant
            i <= tags@.len(),
            a@.len() == i,
            forall|j: int| 0 <= j < i ==> (#[trigger] a@[j] matches JsonValue::String(s) && s@ == tags@[j]@),
        decreases tags.len() - i,
    {
        a.push(JsonValue::String(tags[i].clone()));
        i = i + 1;
    }
    let ghost items = a@;
    let v = JsonValue::Array(a);
    let res = write_json(&v);
    assert(is_string_array(v, tags@));
    proof {
        assert(all_strings(items)) by {
            assert forall|j: int| 0 <= j < items.len() implies #[trigger] items[j] is String by {
                assert(items[j] matches JsonValue::String(s) && s@ == tags@[j]@);
            }
        }
        assert(string_texts(items) =~= texts_view(tags@)) by {
            assert forall|j: int| 0 <= j < items.len() implies #[trigger] string_texts(items)[j] == texts_view(tags@)[j] by {
                assert(items[j] matches JsonValue::String(s) && s@ == tags@[j]@);
            }
        }
        match json_parse(vstd::utf8::encode_utf8(res@)) {
            Ok(JsonValue::Array(b)) => {
                lemma_strings_of_all_strings(b@);
            },
            _ => {},
        }
    }
    res
}

/// The stored JSON text of an item's raw document.
pub fn raw_json(raw: &Option<JsonValue>) -> (res: Option<String>)
    ensures
        opt_view(res) == match raw { Some(v) => Some(json_text(*v)), None => None },
{
    match raw {
        Some(v) => Some(write_json(v)),
        None => None,
    }
}

/// The items that pass a feed's filter, in their order.
pub open spec fn matching_items(feed: Feed, items: Seq<Item>) -> Seq<Item> {
    items.filter(|i: Item| spec_matches_filter(feed, i))
}

/// Keeps the items that pass a feed's filter.
pub fn retain_matching(feed: &Feed, items: Vec<Item>) -> (res: Vec<Item>)
    ensures
        res@ == matching_items(*feed, items@),
{
    let ghost all = items@;
    let ghost pred = |i: Item| spec_matches_filter(*feed, i);
    let mut out: Vec<Item> = Vec::new();
    for item in it: items.into_iter()
        invariant
            it.seq() == all,
            pred == (|i: Item| spec_matches_filter(*feed, i)),
            out@ == all.take(it.index() as int).filter(pred),
    {
        proof {
            let k = it.index() as int;
            assert(all.take(k + 1).drop_last() == all.take(k));
            reveal_with_fuel(Seq::<Item>::filter, 1);
        }
        if matches_filter(feed, &item) {
            out.push(item);
        }
    }
    assert(all.take(all.len() as int) == all);
    out
}

/// A source after a poll: a new title, entity tag or modification date
/// replaces the stored one and an absent one keeps it; the error is the
/// poll's (none after a success); the poll time and the next poll time are
/// the given ones; everything else stays.
pub fn after_poll(
    old: &Source,
    title: Option<String>,
    etag: Option<String>,
    last_modified: Option<String>,
    error: Option<String>,
    polled_at: String,
    next_poll_at: String,
) -> (res: Source)
    ensures
        opt_view(res.title) == (if title is Some { opt_view(title) } else { opt_view(old.title) }),
        opt_view(res.etag) == (if etag is Some { opt_view(etag) } else { opt_view(old.etag) }),
        opt_view(res.last_modified) == (if last_modified is Some { opt_view(last_modified) } else { opt_view(old.last_modified) }),
        opt_view(res.last_error) == opt_view(error),
        opt_view(res.last_polled_at) == Some(polled_at@),
        opt_view(res.next_poll_at) == Some(next_poll_at@),
        res.id@ == old.id@,
        res.url@ == old.url@,
        res.kind@ == old.kind@,
        res.enabled == old.enabled,
        res.created_at@ == old.created_at@,
{
    Source {
        id: old.id.clone(),
        url: old.url.clone(),
        kind: old.kind.clone(),
        title: match title { Some(t) => Some(t), None => clone_text(&old.title) },
        etag: match etag { Some(t) => Some(t), None => clone_text(&old.etag) },
        last_modified: match last_modified { Some(t) => Some(t), None => clone_text(&old.last_modified) },
        last_polled_at: Some(polled_at),
        next_poll_at: Some(next_poll_at),
        last_error: error,
        enabled: old.enabled,
        created_at: old.created_at.clone(),
    }
}

fn clone_text(o: &Option<String>) -> (res: Option<String>)
    ensures
        opt_view(res) == opt_view(*o),
{
    match o {
        Some(t) => Some(t.clone()),
        None => None,
    }
}

/// The cursor of a feed page: items published before it; the first page
/// starts after the end of time.
pub fn page_cursor<'a>(cursor: Option<&'a str>) -> (res: &'a str)
    ensures
        res@ == match cursor { Some(c) => c@, None => "9999-12-31T23:59:59Z"@ },
{
    match cursor {
        Some(c) => c,
        None => "9999-12-31T23:59:59Z",
    }
}

/// An item is in a feed when its source is attached to the feed and it
/// passes the feed's filter.
pub fn item_in_feed(attached_sources: i64, feed: &Feed, item: &Item) -> (res: bool)
    ensures
        res == (attached_sources > 0 && spec_matches_filter(*feed, *item)),
{
    attached_sources > 0 && matches_filter(feed, item)
}

/// The resource a source poll leases.
pub fn lease_resource(source_id: &str) -> (res: String)
    ensures
        res@ == "source:"@ + source_id@,
{
    let mut r = "source:".to_owned();
    r.append(source_id);
    r
}

/// How long a poll lease lasts, in seconds: the fetch timeout plus 30.
pub fn lease_seconds(fetch_timeout_secs: u64) -> (res: i64)
    requires
        fetch_timeout_secs + 30 <= i64::MAX,
    ensures
        res == fetch_timeout_secs + 30,
{
    (fetch_timeout_secs + 30) as i64
}

/// `s` without trailing slashes (`trim_end_matches('/')`).
pub open spec fn trim_slashes(s: Seq<char>) -> Seq<char>
    decreases s.len(),
{
    if s.len() > 0 && s.last() == '/' { trim_slashes(s.drop_last()) } else { s }
}

/// Drops the trailing slashes of a base address.
pub fn trim_trailing_slashes(s: &str) -> (res: String)
    ensures
        res@ == trim_slashes(s@),
{
    let cs = chars_of(s);
    let mut end = cs.len();
    assert(cs@.take(end as int) == cs@);
    while end > 0 && cs[end - 1] == '/'
        invariant
            end <= cs@.len(),
            trim_slashes(cs@) == trim_slashes(cs@.take(end as int)),
        decreases end,
    {
        assert(cs@.take(end as int).drop_last() == cs@.take(end - 1));
        end = end - 1;
    }
    let mut out: Vec<char> = Vec::new();
    let mut i: usize = 0;
    while i < end
        invariant
            i <= end <= cs@.len(),
            out@ == cs@.take(i as int),
        decreases end - i,
    {
        out.push(cs[i]);
        assert(cs@.take(i + 1) == cs@.take(i as int).push(cs@[i as int]));
        i = i + 1;
    }
    string_of(&out)
}

// ---------------------------------------------------------------- laws

/// Items with a URL get the same id whatever source (or peer) they came
/// from and whatever the source calls them: copies of one article converge.
pub proof fn law_item_id_follows_url(
    source_a: Option<Seq<char>>,
    source_b: Option<Seq<char>>,
    url: Seq<char>,
    external_a: Seq<char>,
    external_b: Seq<char>,
)
    ensures
        spec_item_id(source_a, Some(url), external_a) == spec_item_id(source_b, Some(url), external_b),
{
}

/// A cached item that a peer hands over is stored under the id its origin
/// copy has, when it has a URL.
pub proof fn law_peer_copy_converges(item: Item, origin_source: Seq<char>)
    requires
        item.url is Some,
    ensures
        spec_item_id(None, crate::federation::spec_candidate(item).url, crate::federation::spec_candidate(item).external_id)
            == spec_item_id(Some(origin_source), opt_view(item.url), item.external_id@),
{
}

/// Without a URL, an item from a source is keyed by that source and its
/// external id, so two sources never share an id through equal external ids.
pub proof fn law_item_key_without_url(source: Seq<char>, external_id: Seq<char>)
    ensures
        stable_key(Some(source), None, external_id) == source + ":"@ + external_id,
        stable_key(None, None, external_id) == "peer:"@ + external_id,
{
    assert(stable_key(None, None, external_id) =~= "peer:"@ + external_id) by {
        reveal_strlit("peer");
        reveal_strlit(":");
        reveal_strlit("peer:");
    }
}

/// An item in which one of a feed's unwanted terms occurs is never in the
/// feed, whatever its wanted terms are.
pub proof fn law_unwanted_term_excludes(feed: Feed, item: Item, k: int)
    requires
        0 <= k < filter_terms(feed.exclude_terms).len(),
        contains_seq(haystack(item), filter_terms(feed.exclude_terms)[k]),
    ensures
        !spec_matches_filter(feed, item),
{
}

/// A feed without wanted or unwanted terms admits every item.
pub proof fn law_unfiltered_feed_admits_all(feed: Feed, item: Item)
    requires
        filter_terms(feed.include_terms).len() == 0,
        filter_terms(feed.exclude_terms).len() == 0,
    ensures
        spec_matches_filter(feed, item),
{
}

/// A feed's projection keeps exactly the items that pass its filter: each
/// kept item passes, and each passing item is kept.
pub proof fn law_projection_is_the_filter(feed: Feed, items: Seq<Item>)
    ensures
        forall|i: int| 0 <= i < matching_items(feed, items).len() ==> spec_matches_filter(feed, #[trigger] matching_items(feed, items)[i]),
        forall|i: int| 0 <= i < items.len() && spec_matches_filter(feed, items[i]) ==> #[trigger] matching_items(feed, items).contains(items[i]),
        matching_items(feed, items).len() <= items.len(),
{
    broadcast use vstd::seq_lib::group_filter_ensures;
    let pred = |i: Item| spec_matches_filter(feed, i);
    assert forall|i: int| 0 <= i < items.len() && spec_matches_filter(feed, items[i]) implies #[trigger] matching_items(feed, items).contains(items[i]) by {
        assert(pred(items[i]));
    }
}

/// The text that feed terms are matched against is the lower case of a text
/// that holds the item's content whole: nothing of the content is left out
/// of the matching.
pub proof fn law_content_is_matched(item: Item)
    ensures
        exists|pre: Seq<char>, post: Seq<char>| haystack(item) == lowercase(#[trigger] (pre + opt_text(item.content) + post)),
{
    let pre = opt_text(item.title) + " "@ + opt_text(item.summary) + " "@;
    let post = " "@ + item.tags_json@;
    assert(opt_text(item.title) + " "@ + opt_text(item.summary) + " "@ + opt_text(item.content) + " "@ + item.tags_json@
        =~= pre + opt_text(item.content) + post);
    assert(haystack(item) == lowercase(pre + opt_text(item.content) + post));
}

} // verus!

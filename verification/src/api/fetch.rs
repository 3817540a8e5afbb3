//! The prototype's merged reading list: the posts of every source's RSS
//! channel that carry a title, a link and a description.

use vstd::prelude::*;

verus! {

/// A post of the merged reading list.
#[derive(Debug, Clone)]
pub struct Post {
    pub title: String,
    pub url: String,
    pub summary: String,
}

/// The parts of an RSS item that the reading list uses.
#[derive(Debug, Clone)]
pub struct RssItem {
    pub title: Option<String>,
    pub link: Option<String>,
    pub description: Option<String>,
}

pub open spec fn text_of(o: Option<String>) -> Option<Seq<char>> {
    match o {
        Some(s) => Some(s@),
        None => None,
    }
}

/// An RSS item as plain text: title, link and description.
pub open spec fn rss_item_view(i: RssItem) -> (Option<Seq<char>>, Option<Seq<char>>, Option<Seq<char>>) {
    (text_of(i.title), text_of(i.link), text_of(i.description))
}

pub open spec fn rss_items_view(v: Seq<RssItem>) -> Seq<(Option<Seq<char>>, Option<Seq<char>>, Option<Seq<char>>)> {
    v.map_values(|i: RssItem| rss_item_view(i))
}

/// The items of the RSS channel that `rss::Channel::read_from` reads from a
/// document, or `None` where it refuses the document.
pub uninterp spec fn rss_channel_items(bytes: Seq<u8>) -> Option<Seq<(Option<Seq<char>>, Option<Seq<char>>, Option<Seq<char>>)>>;

/// Reads an RSS channel with `rss::Channel::read_from` and hands out the
/// title, link and description of each item, in order. Claimed: the result
/// is a function of the bytes alone.
#[verifier::external_body]
fn read_rss_items(bytes: &[u8]) -> (res: Option<Vec<RssItem>>)
    ensures
        match res {
            Some(v) => rss_channel_items(bytes@) == Some(rss_items_view(v@)),
            None => rss_channel_items(bytes@) is None,
        },
{
    let channel = rss::Channel::read_from(bytes).ok()?;
    let items = channel.into_items().into_iter();
    Some(items.map(|i| RssItem { title: i.title, link: i.link, description: i.description }).collect())
}

pub open spec fn post_view(p: Post) -> (Seq<char>, Seq<char>, Seq<char>) {
    (p.title@, p.url@, p.summary@)
}

pub open spec fn posts_view(v: Seq<Post>) -> Seq<(Seq<char>, Seq<char>, Seq<char>)> {
    v.map_values(|p: Post| post_view(p))
}

/// The posts of a list of items: those with a title, a link and a
/// description, in order.
pub open spec fn spec_posts(items: Seq<(Option<Seq<char>>, Option<Seq<char>>, Option<Seq<char>>)>) -> Seq<(Seq<char>, Seq<char>, Seq<char>)>
    decreases items.len(),
{
    if items.len() == 0 {
        Seq::empty()
    } else {
        let init = spec_posts(items.drop_last());
        match items.last() {
            (Some(t), Some(l), Some(d)) => init.push((t, l, d)),
            _ => init,
        }
    }
}

/// Turns RSS items into posts, dropping those that lack a title, a link or
/// a description.
pub fn posts_from_items(items: Vec<RssItem>) -> (res: Vec<Post>)
    ensures
        posts_view(res@) == spec_posts(rss_items_view(items@)),
{
    let ghost all = items@;
    let mut out: Vec<Post> = Vec::new();
    for item in it: items.into_iter()
        invariant
            it.seq() == all,
            posts_view(out@) == spec_posts(rss_items_view(all.take(it.index() as int))),
    {
        let ghost k = it.index() as int;
        proof {
            assert(rss_items_view(all.take(k + 1)).drop_last() == rss_items_view(all.take(k)));
            assert(rss_items_view(all.take(k + 1)).last() == rss_item_view(all[k]));
        }
        match (item.title, item.link, item.description) {
            (Some(title), Some(url), Some(summary)) => {
                out.push(Post { title, url, summary });
                proof {
                    assert(posts_view(out@) == posts_view(out@.drop_last()).push(post_view(out@.last())));
                }
            },
            _ => {},
        }
    }
    assert(all.take(all.len() as int) == all);
    out
}

/// The posts of an RSS document; a document that is no RSS channel has
/// none.
pub fn posts_from_rss(bytes: &[u8]) -> (res: Vec<Post>)
    ensures
        posts_view(res@) == match rss_channel_items(bytes@) {
            Some(items) => spec_posts(items),
            None => Seq::empty(),
        },
{
    match read_rss_items(bytes) {
        Some(items) => posts_from_items(items),
        None => Vec::new(),
    }
}

/// The posts of a source's answer: none unless the status is a success.
pub fn posts_from_response(status: u16, body: &[u8]) -> (res: Vec<Post>)
    ensures
        posts_view(res@) == if 200 <= status <= 299 {
            match rss_channel_items(body@) {
                Some(items) => spec_posts(items),
                None => Seq::empty(),
            }
        } else {
            Seq::empty()
        },
{
    if 200 <= status && status <= 299 {
        posts_from_rss(body)
    } else {
        Vec::new()
    }
}

} // verus!

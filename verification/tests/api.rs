use sidefeed::api::fetch::{posts_from_items, posts_from_response, posts_from_rss, RssItem};
use sidefeed::api::update::{FeedEdit, UrlInput};
use sidefeed::api::{access_feed, authorize};
use sidefeed::db::plan_edit;
use sidefeed::error::Error;
use sidefeed::errors::ApplicationError;
use sidefeed::models::UrlType;

#[test]
fn management_requires_the_configured_token() {
    let token = Some("test-secret".to_string());
    assert!(matches!(authorize(&token, None), Err(Error::Unauthorized)));
    assert!(matches!(authorize(&token, Some("Bearer wrong")), Err(Error::Unauthorized)));
    assert!(matches!(authorize(&token, Some("test-secret")), Err(Error::Unauthorized)));
    assert!(authorize(&token, Some("Bearer test-secret")).is_ok());
    assert!(authorize(&None, None).is_ok());
}

#[test]
fn public_feeds_are_open_and_private_ones_guarded() {
    let token = Some("t".to_string());
    assert!(access_feed(true, &token, None).is_ok());
    assert!(matches!(access_feed(false, &token, None), Err(Error::Unauthorized)));
    assert!(access_feed(false, &token, Some("Bearer t")).is_ok());
}

fn rss_item(title: Option<&str>, link: Option<&str>, description: Option<&str>) -> RssItem {
    RssItem { title: title.map(str::to_owned), link: link.map(str::to_owned), description: description.map(str::to_owned) }
}

#[test]
fn posts_need_title_link_and_description() {
    let posts = posts_from_items(vec![
        rss_item(Some("A"), Some("https://a/1"), Some("a")),
        rss_item(Some("B"), None, Some("b")),
        rss_item(Some("C"), Some("https://a/3"), Some("c")),
    ]);
    assert_eq!(posts.len(), 2);
    assert_eq!((posts[0].title.as_str(), posts[0].url.as_str(), posts[0].summary.as_str()), ("A", "https://a/1", "a"));
    assert_eq!(posts[1].title, "C");
}

#[test]
fn rss_documents_give_posts() {
    let doc = br#"<rss version="2.0"><channel><title>c</title><link>https://c/</link><description>d</description>
        <item><title>One</title><link>https://c/1</link><description>first</description></item>
        <item><title>Two</title></item></channel></rss>"#;
    let posts = posts_from_rss(doc);
    assert_eq!(posts.len(), 1);
    assert_eq!(posts[0].url, "https://c/1");
    assert_eq!(posts[0].summary, "first");
    assert!(posts_from_rss(b"not rss").is_empty());
    assert!(posts_from_response(500, doc).is_empty());
    assert_eq!(posts_from_response(200, doc).len(), 1);
}

#[test]
fn edits_need_an_existing_feed() {
    let edit = FeedEdit { id: 3, new_url: UrlInput { url: "https://new/".into() } };
    match plan_edit(edit.clone(), None) {
        Err(ApplicationError::UnexpectedError(m)) => assert_eq!(m, "No matching feed for id found."),
        _ => panic!("expected an unknown feed"),
    }
    let plan = plan_edit(edit, Some("https://old/".into())).unwrap();
    assert_eq!(plan.new_url, "https://new/");
    assert_eq!(plan.kind, "rss");
    assert_eq!(plan.feed_id, 3);
    assert_eq!(plan.old_url, "https://old/");
}

#[test]
fn url_type_defaults_to_rss() {
    assert_eq!(UrlType::default(), UrlType::Rss);
}

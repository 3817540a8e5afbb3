use sidefeed::json::JsonValue;
use sidefeed::model::{Feed, Item, NewItem, Source};
use sidefeed::store::{
    after_poll,
    item_id, item_in_feed, lease_resource, lease_seconds, matches_filter, page_cursor, raw_json,
    retain_matching, tags_json, trim_trailing_slashes,
};

fn feed(wanted: Option<&str>, unwanted: Option<&str>) -> Feed {
    Feed {
        id: "f".into(),
        slug: "daily".into(),
        title: "Daily".into(),
        description: None,
        include_terms: wanted.map(str::to_owned),
        exclude_terms: unwanted.map(str::to_owned),
        public: true,
        created_at: "2024-01-01T00:00:00Z".into(),
    }
}

fn item(title: &str, tags_json: &str) -> Item {
    Item {
        id: title.into(),
        source_id: Some("s".into()),
        external_id: "e".into(),
        url: None,
        title: Some(title.into()),
        summary: Some("A complete aggregation path".into()),
        content: None,
        author: None,
        published_at: "2024-01-01T00:00:00Z".into(),
        fetched_at: "2024-01-01T00:00:00Z".into(),
        tags_json: tags_json.into(),
        raw_json: None,
        visibility: "public".into(),
    }
}

fn new_item(url: Option<&str>, external_id: &str) -> NewItem {
    NewItem {
        external_id: external_id.into(),
        url: url.map(str::to_owned),
        title: None,
        summary: None,
        content: None,
        author: None,
        published_at: "2024-01-01T00:00:00Z".into(),
        tags: vec![],
        raw: None,
        visibility: "public".into(),
    }
}

#[test]
fn feeds_without_terms_admit_everything() {
    assert!(matches_filter(&feed(None, None), &item("Anything", "[]")));
    assert!(matches_filter(&feed(Some(" , ,"), Some("")), &item("Anything", "[]")));
}

#[test]
fn wanted_terms_match_case_insensitively_anywhere() {
    let f = feed(Some("Rust, sqlite"), None);
    assert!(matches_filter(&f, &item("Learning RUST", "[]")));
    assert!(matches_filter(&f, &item("Other", r#"["SQLite"]"#)));
    assert!(matches_filter(&f, &item("Aggregation", "[]")) == false);
    assert!(matches_filter(&feed(Some("aggregation"), None), &item("x", "[]")));
}

#[test]
fn unwanted_terms_always_exclude() {
    let f = feed(Some("rust"), Some(" Crypto "));
    assert!(matches_filter(&f, &item("Rust news", "[]")));
    assert!(!matches_filter(&f, &item("Rust crypto news", "[]")));
    assert!(!matches_filter(&feed(None, Some("path")), &item("x", "[]")));
}

#[test]
fn projection_keeps_matching_items_in_order() {
    let f = feed(Some("rust"), Some("spam"));
    let items = vec![item("rust 1", "[]"), item("go", "[]"), item("rust spam", "[]"), item("rust 2", "[]")];
    let kept = retain_matching(&f, items);
    let titles: Vec<_> = kept.iter().map(|i| i.title.clone().unwrap()).collect();
    assert_eq!(titles, vec!["rust 1".to_string(), "rust 2".to_string()]);
}

#[test]
fn membership_needs_an_attached_source_and_the_filter() {
    let f = feed(Some("rust"), None);
    assert!(item_in_feed(1, &f, &item("rust", "[]")));
    assert!(!item_in_feed(0, &f, &item("rust", "[]")));
    assert!(!item_in_feed(2, &f, &item("go", "[]")));
}

#[test]
fn ids_follow_the_url() {
    let a = item_id(Some("src-1"), &new_item(Some("https://example.com/article-1"), "x"));
    let b = item_id(None, &new_item(Some("https://example.com/article-1"), "y"));
    assert_eq!(a, "a81cacd4-2102-5eda-ad4a-a88e32c9deec");
    assert_eq!(a, b);
}

#[test]
fn ids_without_url_use_source_and_external_id() {
    assert_eq!(item_id(Some("src-1"), &new_item(None, "ext-9")), "00a8916f-d867-578a-8050-d0ac47c02a33");
    assert_eq!(item_id(None, &new_item(None, "ext-9")), "fded121a-d8d4-5654-988b-f2bc14086431");
}

#[test]
fn stored_json_texts() {
    assert_eq!(tags_json(&vec!["rust".to_string(), "a\"b".to_string()]), r#"["rust","a\"b"]"#);
    assert_eq!(tags_json(&vec![]), "[]");
    assert_eq!(raw_json(&None), None);
    let raw = JsonValue::Object(vec![("k".to_string(), JsonValue::String("v".to_string()))]);
    assert_eq!(raw_json(&Some(raw)), Some(r#"{"k":"v"}"#.to_string()));
}

#[test]
fn first_page_starts_at_the_end_of_time() {
    assert_eq!(page_cursor(None), "9999-12-31T23:59:59Z");
    assert_eq!(page_cursor(Some("2024-01-01T00:00:00Z")), "2024-01-01T00:00:00Z");
}

#[test]
fn leases_name_the_source_and_outlast_the_timeout() {
    assert_eq!(lease_resource("abc"), "source:abc");
    assert_eq!(lease_seconds(20), 50);
}

#[test]
fn trailing_slashes_are_dropped() {
    assert_eq!(trim_trailing_slashes("https://a.example///"), "https://a.example");
    assert_eq!(trim_trailing_slashes("///"), "");
    assert_eq!(trim_trailing_slashes("a/b"), "a/b");
}

#[test]
fn polls_keep_validators_they_did_not_get() {
    let old = Source {
        id: "s".into(), url: "https://a/feed".into(), kind: "rss".into(), title: Some("Old".into()),
        etag: Some("\"1\"".into()), last_modified: None, last_polled_at: None, next_poll_at: None,
        last_error: Some("boom".into()), enabled: true, created_at: "c".into(),
    };
    let s = after_poll(&old, None, None, Some("Mon".into()), None, "now".into(), "later".into());
    assert_eq!(s.title.as_deref(), Some("Old"));
    assert_eq!(s.etag.as_deref(), Some("\"1\""));
    assert_eq!(s.last_modified.as_deref(), Some("Mon"));
    assert_eq!(s.last_error, None);
    assert_eq!(s.last_polled_at.as_deref(), Some("now"));
    assert_eq!(s.next_poll_at.as_deref(), Some("later"));
    let s = after_poll(&old, Some("New".into()), None, None, Some("failed".into()), "n".into(), "l".into());
    assert_eq!(s.title.as_deref(), Some("New"));
    assert_eq!(s.last_error.as_deref(), Some("failed"));
    assert_eq!(s.id, "s");
}

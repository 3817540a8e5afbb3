use sidefeed::error::Error;
use sidefeed::ingest::{
    after_response, append_chunk, final_response, is_json_document, opml_from_events, parse_document, parse_json,
    parse_opml, poll_delay_secs, request_headers, retention_window_secs, source_url, FetchStep,
    FinalResponse, XmlAttr, XmlEvent,
};
use sidefeed::web::{blocked_ip, check_resolved, public_target, IpAddress};

#[test]
fn parses_json_feed() {
    let base = source_url("https://example.com/feed").unwrap();
    let (_, items) = parse_document(
        br#"{"version":"https://jsonfeed.org/version/1.1","title":"x","items":[{"id":"1","content_text":"hello"}]}"#,
        "application/feed+json",
        &base,
    )
    .unwrap();
    assert_eq!(items[0].external_id, "1");
}

#[test]
fn parses_opml_urls() {
    let feeds = parse_opml(br#"<opml><body><outline text="Example" xmlUrl="https://example.com/rss"/></body></opml>"#).unwrap();
    assert_eq!(feeds[0].0, "https://example.com/rss");
}

#[test]
fn blocks_private_addresses() {
    assert!(blocked_ip(IpAddress::V4([127, 0, 0, 1])));
    assert!(!blocked_ip(IpAddress::V4([1, 1, 1, 1])));
}

#[test]
fn json_feed_fields_are_carried_over() {
    let doc = br#"{"version":"https://jsonfeed.org/version/1","title":"Blog","items":[
        {"id":"a","url":"https://b.example/a","title":"A","summary":"S","content_html":"<p>h</p>","content_text":"t",
         "date_modified":"2024-01-02T00:00:00Z","tags":["x","y"],"author":{"name":"Ann"}},
        {"id":"b","authors":[{"name":"Bo"}],"author":{"name":"Ann"},"date_published":"2024-01-01T00:00:00Z"}]}"#;
    let (title, items) = parse_json(doc, "https://b.example/feed", "NOW").unwrap();
    assert_eq!(title.as_deref(), Some("Blog"));
    assert_eq!(items.len(), 2);
    assert_eq!(items[0].url.as_deref(), Some("https://b.example/a"));
    assert_eq!(items[0].content.as_deref(), Some("<p>h</p>"));
    assert_eq!(items[0].author.as_deref(), Some("Ann"));
    assert_eq!(items[0].published_at, "2024-01-02T00:00:00Z");
    assert_eq!(items[0].tags, vec!["x".to_string(), "y".to_string()]);
    assert_eq!(items[0].visibility, "public");
    assert_eq!(items[1].author.as_deref(), Some("Bo"));
    assert_eq!(items[1].published_at, "2024-01-01T00:00:00Z");
}

#[test]
fn json_feed_item_without_date_gets_now() {
    let doc = br#"{"version":"https://jsonfeed.org/version/1.1","items":[{"id":"1"}]}"#;
    let (title, items) = parse_json(doc, "https://x.example/", "2030-01-01T00:00:00+00:00").unwrap();
    assert_eq!(title, None);
    assert_eq!(items[0].published_at, "2030-01-01T00:00:00+00:00");
}

#[test]
fn json_feed_item_without_id_is_refused() {
    let doc = br#"{"version":"https://jsonfeed.org/version/1.1","items":[{"title":"no id"}]}"#;
    match parse_json(doc, "https://x.example/", "now") {
        Err(Error::Invalid(m)) => assert!(m.starts_with("missing field `id`"), "{m}"),
        other => panic!("unexpected {:?}", other.map(|r| r.1.len())),
    }
}

#[test]
fn invalid_json_is_refused() {
    match parse_json(b"{not json", "https://x.example/", "now") {
        Err(Error::Invalid(m)) => assert!(m.starts_with("invalid JSON feed: "), "{m}"),
        _ => panic!("expected an invalid-input error"),
    }
}

#[test]
fn activitypub_collection_keeps_supported_objects() {
    let doc = br##"{"name":"Outbox","orderedItems":[
        {"type":"Create","actor":"https://m.example/u/al","object":{"type":"Note","id":"https://m.example/n/1","content":"hi",
          "published":"2024-05-01T00:00:00Z","tag":[{"name":"#rust"},{"href":"x"}]}},
        {"type":"Like","object":"https://m.example/n/9"},
        {"type":"Create","object":{"type":"Article","url":{"href":"https://m.example/a/2"},"name":"Title","attributedTo":"https://m.example/u/bo"}}]}"##;
    let (title, items) = parse_json(doc, "https://m.example/outbox", "NOW").unwrap();
    assert_eq!(title.as_deref(), Some("Outbox"));
    assert_eq!(items.len(), 2);
    assert_eq!(items[0].external_id, "https://m.example/n/1");
    assert_eq!(items[0].author.as_deref(), Some("https://m.example/u/al"));
    assert_eq!(items[0].tags, vec!["#rust".to_string()]);
    assert_eq!(items[0].published_at, "2024-05-01T00:00:00Z");
    assert!(items[0].raw.is_some());
    assert_eq!(items[1].external_id, "https://m.example/a/2");
    assert_eq!(items[1].url.as_deref(), Some("https://m.example/a/2"));
    assert_eq!(items[1].title.as_deref(), Some("Title"));
    assert_eq!(items[1].author.as_deref(), Some("https://m.example/u/bo"));
    assert_eq!(items[1].published_at, "NOW");
}

#[test]
fn single_activitypub_object_without_id_uses_the_base() {
    let doc = br#"{"type":"Note","content":"solo"}"#;
    let (_, items) = parse_json(doc, "https://m.example/base", "NOW").unwrap();
    assert_eq!(items.len(), 1);
    assert_eq!(items[0].external_id, "https://m.example/base");
    assert_eq!(items[0].content.as_deref(), Some("solo"));
}

#[test]
fn rss_documents_go_through_feed_rs() {
    let rss = br#"<?xml version="1.0"?><rss version="2.0"><channel><title>Chan</title><link>https://r.example/</link><description>d</description>
        <item><title>One</title><link>https://r.example/1</link><guid>g1</guid><category>c</category></item></channel></rss>"#;
    let base = source_url("https://r.example/feed").unwrap();
    let (title, items) = parse_document(rss, "application/rss+xml", &base).unwrap();
    assert_eq!(title.as_deref(), Some("Chan"));
    assert_eq!(items.len(), 1);
    assert_eq!(items[0].external_id, "g1");
    assert_eq!(items[0].url.as_deref(), Some("https://r.example/1"));
    assert_eq!(items[0].title.as_deref(), Some("One"));
    assert_eq!(items[0].tags, vec!["c".to_string()]);
    assert!(items[0].raw.is_none());
}

#[test]
fn unknown_documents_are_unsupported() {
    let base = source_url("https://x.example/").unwrap();
    match parse_document(b"plain text", "text/plain", &base) {
        Err(Error::Invalid(m)) => assert!(m.starts_with("unsupported feed: "), "{m}"),
        _ => panic!("expected an unsupported feed"),
    }
}

#[test]
fn json_is_recognised_by_type_or_first_byte() {
    assert!(is_json_document(b"<x/>", "application/activity+json"));
    assert!(is_json_document(b"  \n[1]", "text/plain"));
    assert!(is_json_document(b"{}", ""));
    assert!(!is_json_document(b"<rss/>", "application/xml"));
}

#[test]
fn opml_reads_titles_and_skips_outlines_without_feeds() {
    let doc = br#"<opml><body><outline text="Group"><outline title="T" text="X" xmlUrl="https://a.example/f"/></outline>
        <outline text="Only text" xmlUrl="https://b.example/f"/></body></opml>"#;
    let feeds = parse_opml(doc).unwrap();
    assert_eq!(feeds.len(), 2);
    assert_eq!(feeds[0], ("https://a.example/f".to_string(), Some("T".to_string())));
    assert_eq!(feeds[1], ("https://b.example/f".to_string(), Some("Only text".to_string())));
}

#[test]
fn opml_unescapes_values() {
    let feeds = parse_opml(br#"<opml><outline xmlUrl="https://a.example/?a=1&amp;b=2"/></opml>"#).unwrap();
    assert_eq!(feeds, vec![("https://a.example/?a=1&b=2".to_string(), None)]);
}

#[test]
fn broken_opml_is_refused() {
    match parse_opml(b"<opml><body></opml>") {
        Err(Error::Invalid(m)) => assert!(m.starts_with("invalid OPML: "), "{m}"),
        _ => panic!("expected invalid OPML"),
    }
}

#[test]
fn conditional_headers_only_on_the_first_request() {
    let etag = Some("\"v1\"".to_string());
    let modified = Some("Wed, 01 May 2024 00:00:00 GMT".to_string());
    let first = request_headers(0, &etag, &modified);
    assert_eq!(first.len(), 3);
    assert_eq!(first[0].0, "Accept");
    assert!(first[0].1.starts_with("application/atom+xml"));
    assert_eq!(first[1], ("if-none-match".to_string(), "\"v1\"".to_string()));
    assert_eq!(first[2].0, "if-modified-since");
    let later = request_headers(1, &etag, &modified);
    assert_eq!(later.len(), 1);
    assert_eq!(request_headers(0, &None, &None).len(), 1);
}

#[test]
fn redirects_are_followed_five_times() {
    let url = source_url("https://a.example/feed").unwrap();
    match after_response(0, &url, 301, Some("/moved")).unwrap() {
        FetchStep::Follow(next) => assert_eq!(next.href, "https://a.example/moved"),
        FetchStep::Read => panic!("expected a redirect"),
    }
    assert!(matches!(after_response(4, &url, 302, Some("https://b.example/")), Ok(FetchStep::Follow(_))));
    match after_response(5, &url, 302, Some("https://b.example/")) {
        Err(Error::Invalid(m)) => assert_eq!(m, "too many redirects"),
        _ => panic!("expected too many redirects"),
    }
    match after_response(0, &url, 307, None) {
        Err(Error::Invalid(m)) => assert_eq!(m, "redirect missing Location"),
        _ => panic!("expected a missing location"),
    }
    assert!(matches!(after_response(0, &url, 200, None), Ok(FetchStep::Read)));
    assert!(matches!(after_response(5, &url, 404, None), Ok(FetchStep::Read)));
    assert!(matches!(after_response(0, &url, 304, None), Ok(FetchStep::Read)));
    assert!(matches!(after_response(0, &url, 304, Some("/elsewhere")), Ok(FetchStep::Read)));
}

#[test]
fn invalid_source_urls_are_refused() {
    match source_url("not a url") {
        Err(Error::Invalid(m)) => assert!(m.starts_with("invalid source URL: "), "{m}"),
        _ => panic!("expected an invalid URL"),
    }
}

#[test]
fn final_responses_are_classified() {
    assert_eq!(final_response(304, "304 Not Modified", None, 10).unwrap(), FinalResponse::NotModified);
    assert_eq!(final_response(200, "200 OK", Some(10), 10).unwrap(), FinalResponse::ReadBody);
    match final_response(200, "200 OK", Some(11), 10) {
        Err(Error::Invalid(m)) => assert_eq!(m, "source response is too large"),
        _ => panic!("expected too large"),
    }
    match final_response(503, "503 Service Unavailable", None, 10) {
        Err(Error::Invalid(m)) => assert_eq!(m, "origin returned 503 Service Unavailable"),
        _ => panic!("expected an origin error"),
    }
}

#[test]
fn bodies_are_bounded() {
    let mut body = Vec::new();
    append_chunk(&mut body, b"abc", 5, "source").unwrap();
    append_chunk(&mut body, b"de", 5, "source").unwrap();
    assert_eq!(body, b"abcde".to_vec());
    match append_chunk(&mut body, b"f", 5, "peer") {
        Err(Error::Invalid(m)) => assert_eq!(m, "peer response is too large"),
        _ => panic!("expected too large"),
    }
    assert_eq!(body, b"abcde".to_vec());
}

#[test]
fn schedule_falls_back_to_fifteen_minutes() {
    assert_eq!(poll_delay_secs(900), 900);
    assert_eq!(poll_delay_secs(9_223_372_036_854_775), 9_223_372_036_854_775);
    assert_eq!(poll_delay_secs(9_223_372_036_854_776), 900);
    assert_eq!(poll_delay_secs(u64::MAX), 900);
}

#[test]
fn retention_zero_keeps_everything() {
    assert_eq!(retention_window_secs(0), None);
    assert_eq!(retention_window_secs(90), Some(90 * 86400));
}

#[test]
fn only_public_http_targets_are_resolved() {
    let u = source_url("https://a.example/feed").unwrap();
    assert_eq!(public_target(&u).unwrap(), ("a.example".to_string(), 443));
    let u = source_url("http://a.example:8080/").unwrap();
    assert_eq!(public_target(&u).unwrap(), ("a.example".to_string(), 8080));
    let u = source_url("ftp://a.example/").unwrap();
    match public_target(&u) {
        Err(Error::Invalid(m)) => assert_eq!(m, "only http(s) sources are allowed"),
        _ => panic!("expected a refused scheme"),
    }
}

#[test]
fn resolved_addresses_must_all_be_public() {
    assert!(check_resolved(&vec![IpAddress::V4([93, 184, 216, 34])]).is_ok());
    assert!(check_resolved(&vec![]).is_err());
    match check_resolved(&vec![IpAddress::V4([93, 184, 216, 34]), IpAddress::V4([10, 0, 0, 1])]) {
        Err(Error::Invalid(m)) => assert_eq!(m, "private or non-routable source address rejected"),
        _ => panic!("expected a rejected address"),
    }
    assert!(blocked_ip(IpAddress::V4([172, 16, 0, 1])));
    assert!(!blocked_ip(IpAddress::V4([172, 32, 0, 1])));
    assert!(blocked_ip(IpAddress::V4([169, 254, 1, 1])));
    assert!(blocked_ip(IpAddress::V4([0, 1, 2, 3])));
    assert!(blocked_ip(IpAddress::V4([224, 0, 0, 1])));
    assert!(blocked_ip(IpAddress::V4([255, 255, 255, 255])));
    assert!(blocked_ip(IpAddress::V6([0, 0, 0, 0, 0, 0, 0, 1])));
    assert!(blocked_ip(IpAddress::V6([0xfd00, 0, 0, 0, 0, 0, 0, 1])));
    assert!(blocked_ip(IpAddress::V6([0xfe80, 0, 0, 0, 0, 0, 0, 1])));
    assert!(blocked_ip(IpAddress::V6([0xff02, 0, 0, 0, 0, 0, 0, 1])));
    assert!(!blocked_ip(IpAddress::V6([0x2606, 0x4700, 0, 0, 0, 0, 0, 0x1111])));
    assert!(blocked_ip(IpAddress::V6([0, 0, 0, 0, 0, 0xffff, 0x7f00, 0x0001])));
    assert!(blocked_ip(IpAddress::V6([0, 0, 0, 0, 0, 0xffff, 0x0a00, 0x0001])));
    assert!(blocked_ip(IpAddress::V6([0, 0, 0, 0, 0, 0xffff, 0xc0a8, 0x0101])));
    assert!(!blocked_ip(IpAddress::V6([0, 0, 0, 0, 0, 0xffff, 0x0101, 0x0101])));
    assert!(check_resolved(&vec![IpAddress::V6([0, 0, 0, 0, 0, 0xffff, 0x7f00, 0x0001])]).is_err());
}

#[test]
fn opml_events_are_read_up_to_the_end() {
    let attr = |k: &str, v: &str| XmlAttr::Attr { key: k.as_bytes().to_vec(), value: Ok(v.to_string()) };
    let outline = |attributes: Vec<XmlAttr>| XmlEvent::Element { name: b"outline".to_vec(), attributes };
    let events = vec![
        XmlEvent::Other,
        outline(vec![attr("text", "A"), XmlAttr::Malformed, attr("xmlUrl", "https://a/")]),
        outline(vec![attr("title", "no feed")]),
        XmlEvent::Eof,
        outline(vec![attr("xmlUrl", "https://after-end/")]),
    ];
    let found = opml_from_events(&events).unwrap();
    assert_eq!(found, vec![("https://a/".to_string(), Some("A".to_string()))]);
    let broken = vec![outline(vec![XmlAttr::Attr { key: b"xmlUrl".to_vec(), value: Err("bad escape".to_string()) }])];
    match opml_from_events(&broken) {
        Err(sidefeed::error::Error::Invalid(m)) => assert_eq!(m, "bad escape"),
        _ => panic!("expected a decoding error"),
    }
    match opml_from_events(&vec![XmlEvent::Failure("boom".to_string())]) {
        Err(sidefeed::error::Error::Invalid(m)) => assert_eq!(m, "invalid OPML: boom"),
        _ => panic!("expected a reader error"),
    }
}

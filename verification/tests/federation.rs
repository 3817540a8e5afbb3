use sidefeed::error::Error;
use sidefeed::federation::{
    candidate_from_item, check_peer_secret, check_peer_status, check_request_headers, export_window,
    peer_address, peer_due, peer_request, public_only, sign, verify_request,
};
use sidefeed::model::{Item, Peer};

fn peer(last_sync_at: Option<&str>) -> Peer {
    Peer {
        id: "p1".into(),
        base_url: "https://friend.example".into(),
        shared_secret: "secret-secret-secret-secret-32chars".into(),
        enabled: true,
        last_sync_at: last_sync_at.map(str::to_owned),
        created_at: "2024-01-01T00:00:00Z".into(),
    }
}

#[test]
fn signatures_are_stable() {
    assert_eq!(sign(&"x".repeat(32), "1", "GET", "/items").unwrap(), sign(&"x".repeat(32), "1", "GET", "/items").unwrap());
}

#[test]
fn signature_is_the_hex_hmac_of_the_signed_text() {
    assert_eq!(
        sign(&"x".repeat(32), "1", "GET", "/items").unwrap(),
        "c1bf3c191c83806f8625df014d161a3d572defa8ee2f7d569c8e419fc5ef2721"
    );
    let s = sign("", "", "", "").unwrap();
    assert_eq!(s.len(), 64);
    assert!(s.chars().all(|c| c.is_ascii_digit() || ('a'..='f').contains(&c)));
}

#[test]
fn signed_requests_within_five_minutes_are_accepted() {
    let secret = "x".repeat(32);
    let secrets = vec!["another-secret-another-secret-123".to_string(), secret.clone()];
    let sig = sign(&secret, "1000", "GET", "/federation/v1/items").unwrap();
    assert!(verify_request(&secrets, Some("1000"), Some(&sig), 1300, "GET", "/federation/v1/items").is_ok());
    assert!(verify_request(&secrets, Some("1000"), Some(&sig), 700, "GET", "/federation/v1/items").is_ok());
    assert!(matches!(verify_request(&secrets, Some("1000"), Some(&sig), 1301, "GET", "/federation/v1/items"), Err(Error::Unauthorized)));
    assert!(matches!(verify_request(&secrets, Some("1000"), Some(&sig), 699, "GET", "/federation/v1/items"), Err(Error::Unauthorized)));
}

#[test]
fn tampered_or_unsigned_requests_are_refused() {
    let secret = "x".repeat(32);
    let secrets = vec![secret.clone()];
    let sig = sign(&secret, "1000", "GET", "/federation/v1/items").unwrap();
    assert!(matches!(verify_request(&secrets, Some("1000"), Some(&sig), 1000, "GET", "/federation/v1/items?limit=5"), Err(Error::Unauthorized)));
    assert!(matches!(verify_request(&secrets, Some("1000"), Some(&sig), 1000, "POST", "/federation/v1/items"), Err(Error::Unauthorized)));
    assert!(matches!(verify_request(&secrets, None, Some(&sig), 1000, "GET", "/federation/v1/items"), Err(Error::Unauthorized)));
    assert!(matches!(verify_request(&secrets, Some("1000"), None, 1000, "GET", "/federation/v1/items"), Err(Error::Unauthorized)));
    assert!(matches!(verify_request(&secrets, Some("soon"), Some(&sig), 1000, "GET", "/federation/v1/items"), Err(Error::Unauthorized)));
    assert!(matches!(verify_request(&secrets, Some("1000"), Some("zz"), 1000, "GET", "/federation/v1/items"), Err(Error::Unauthorized)));
    assert!(matches!(verify_request(&vec![], Some("1000"), Some(&sig), 1000, "GET", "/federation/v1/items"), Err(Error::Unauthorized)));
}

#[test]
fn header_check_yields_the_signed_text_and_tag() {
    let (message, tag) = check_request_headers(Some("5"), Some("0aFF"), 5, "GET", "/p").unwrap();
    assert_eq!(message, "5\nGET\n/p");
    assert_eq!(tag, vec![0x0a, 0xff]);
}

#[test]
fn export_window_defaults_and_bounds() {
    assert_eq!(export_window(None, None, 500).unwrap(), ("1970-01-01T00:00:00Z".to_string(), 100));
    assert_eq!(export_window(Some("2024-01-01T00:00:00Z"), Some(0), 500).unwrap().1, 1);
    assert_eq!(export_window(None, Some(900), 500).unwrap().1, 500);
    assert_eq!(export_window(None, Some(50), 500).unwrap().1, 50);
    assert_eq!(export_window(None, None, 20).unwrap().1, 20);
    match export_window(Some("yesterday"), None, 500) {
        Err(Error::Invalid(m)) => assert_eq!(m, "since must be RFC3339"),
        _ => panic!("expected an invalid since"),
    }
}

#[test]
fn peers_are_due_when_never_synced_or_stale() {
    let cutoff = (1_704_067_200, 0); // 2024-01-01T00:00:00Z
    assert!(peer_due(&peer(None), cutoff));
    assert!(peer_due(&peer(Some("not a time")), cutoff));
    assert!(peer_due(&peer(Some("2023-12-31T23:59:59Z")), cutoff));
    assert!(!peer_due(&peer(Some("2024-01-01T00:00:00Z")), cutoff));
    assert!(peer_due(&peer(Some("2024-01-01T01:00:00+01:00")), (1_704_067_200, 1)));
}

#[test]
fn peer_secrets_need_32_characters() {
    assert!(check_peer_secret(&"s".repeat(32)).is_ok());
    assert!(check_peer_secret(&"é".repeat(32)).is_ok());
    assert!(check_peer_secret(&"é".repeat(31)).is_err());
    match check_peer_secret(&"s".repeat(31)) {
        Err(Error::Invalid(m)) => assert_eq!(m, "peer secret must be at least 32 characters"),
        _ => panic!("expected a short secret"),
    }
}

#[test]
fn peer_addresses_lose_trailing_slashes() {
    let (u, stored) = peer_address("https://friend.example/").unwrap();
    assert_eq!(u.href, "https://friend.example/");
    assert_eq!(stored, "https://friend.example");
    let (_, stored) = peer_address("https://friend.example/node//").unwrap();
    assert_eq!(stored, "https://friend.example/node");
    assert!(matches!(peer_address("::"), Err(Error::Invalid(_))));
}

#[test]
fn peer_requests_are_signed_over_path_and_query() {
    let r = peer_request(&peer(None), 1_700_000_000, 100).unwrap();
    assert_eq!(r.url.href, "https://friend.example/federation/v1/items?since=1970-01-01T00%3A00%3A00Z&limit=100");
    assert_eq!(r.timestamp, "1700000000");
    assert_eq!(r.signature, "2d5fa75c6bd5824081f754a11c43ae60bb1c7468341c1e921a7924bd02ec70ef");
    let r = peer_request(&peer(Some("2024-02-02T00:00:00Z")), -5, 7).unwrap();
    assert_eq!(r.url.path_and_query, "/federation/v1/items?since=2024-02-02T00%3A00%3A00Z&limit=7");
    assert_eq!(r.timestamp, "-5");
}

#[test]
fn peer_answers_must_succeed() {
    assert!(check_peer_status(200, "200 OK").is_ok());
    match check_peer_status(401, "401 Unauthorized") {
        Err(Error::Invalid(m)) => assert_eq!(m, "peer returned 401 Unauthorized"),
        _ => panic!("expected a refused answer"),
    }
}

#[test]
fn exported_items_become_candidates() {
    let item = Item {
        id: "i".into(),
        source_id: Some("s".into()),
        external_id: "e".into(),
        url: Some("https://o.example/a".into()),
        title: Some("T".into()),
        summary: None,
        content: Some("C".into()),
        author: None,
        published_at: "2024-01-01T00:00:00Z".into(),
        fetched_at: "2024-01-02T00:00:00Z".into(),
        tags_json: r#"["a","b"]"#.into(),
        raw_json: Some(r#"{"k":1}"#.into()),
        visibility: "public".into(),
    };
    let c = candidate_from_item(item.clone());
    assert_eq!(c.external_id, "e");
    assert_eq!(c.url.as_deref(), Some("https://o.example/a"));
    assert_eq!(c.tags, vec!["a".to_string(), "b".to_string()]);
    assert!(c.raw.is_some());
    let broken = Item { tags_json: "[1]".into(), raw_json: Some("{".into()), ..item };
    let c = candidate_from_item(broken);
    assert!(c.tags.is_empty());
    assert!(c.raw.is_none());
}

#[test]
fn only_public_items_are_exported() {
    let item = |id: &str, visibility: &str| Item {
        id: id.into(), source_id: None, external_id: id.into(), url: None, title: None, summary: None, content: None,
        author: None, published_at: "p".into(), fetched_at: "f".into(), tags_json: "[]".into(), raw_json: None,
        visibility: visibility.into(),
    };
    let batch = public_only(vec![item("a", "public"), item("b", "private"), item("c", "public")]);
    let ids: Vec<_> = batch.iter().map(|i| i.id.as_str()).collect();
    assert_eq!(ids, vec!["a", "c"]);
}

use sidefeed::ai::{check_query, embedding_field, item_text, provider, semantic_limit};
use sidefeed::config::Config;
use sidefeed::error::Error;
use sidefeed::json::JsonValue;
use sidefeed::model::Item;

fn config(provider: &str, url: Option<&str>) -> Config {
    let mut c = Config::from_env(&vec![]).unwrap();
    c.embedding_provider = provider.into();
    c.embedding_url = url.map(str::to_owned);
    c.embedding_token = Some("tok".into());
    c
}

fn s(v: &str) -> JsonValue {
    JsonValue::String(v.to_string())
}

fn obj(fields: Vec<(&str, JsonValue)>) -> JsonValue {
    JsonValue::Object(fields.into_iter().map(|(k, v)| (k.to_string(), v)).collect())
}

#[test]
fn item_text_joins_the_parts_by_lines() {
    let item = Item {
        id: "i".into(), source_id: None, external_id: "e".into(), url: None,
        title: Some("T".into()), summary: None, content: Some("C".into()), author: None,
        published_at: "p".into(), fetched_at: "f".into(), tags_json: "[]".into(), raw_json: None,
        visibility: "public".into(),
    };
    assert_eq!(item_text(&item), "T\n\nC");
}

#[test]
fn providers_are_selected_by_name() {
    let r = provider(&config("remote", Some("https://e.example/embed"))).unwrap();
    assert_eq!(r.url, "https://e.example/embed");
    assert_eq!(r.token.as_deref(), Some("tok"));
    for (name, url, message) in [
        ("remote", None, "SIDEFEED_EMBEDDING_URL is required for remote embeddings"),
        ("burn-local", None, "rebuild with --features burn-local"),
        ("disabled", Some("https://e.example/"), "embedding provider is disabled"),
        ("magic", None, "unknown embedding provider: magic"),
    ] {
        match provider(&config(name, url)) {
            Err(Error::Config(m)) => assert_eq!(m, message),
            _ => panic!("expected a configuration error for {name}"),
        }
    }
}

#[test]
fn vectors_are_found_at_the_top_or_in_data() {
    let top = obj(vec![("embedding", s("top")), ("data", JsonValue::Array(vec![obj(vec![("embedding", s("inner"))])]))]);
    assert!(matches!(embedding_field(&top), Some(JsonValue::String(v)) if v == "top"));
    let openai = obj(vec![("data", JsonValue::Array(vec![obj(vec![("embedding", s("inner"))])]))]);
    assert!(matches!(embedding_field(&openai), Some(JsonValue::String(v)) if v == "inner"));
    let keyed = obj(vec![("data", obj(vec![("0", obj(vec![("embedding", s("keyed"))]))]))]);
    assert!(matches!(embedding_field(&keyed), Some(JsonValue::String(v)) if v == "keyed"));
    assert!(embedding_field(&obj(vec![("data", JsonValue::Array(vec![]))])).is_none());
    assert!(embedding_field(&JsonValue::Null).is_none());
}

#[test]
fn semantic_queries_need_text() {
    assert!(check_query(" rust ").is_ok());
    match check_query(" \t\n") {
        Err(Error::Invalid(m)) => assert_eq!(m, "q is required"),
        _ => panic!("expected a missing query"),
    }
}

#[test]
fn semantic_limits_are_clamped() {
    assert_eq!(semantic_limit(None), 20);
    assert_eq!(semantic_limit(Some(0)), 1);
    assert_eq!(semantic_limit(Some(5)), 5);
    assert_eq!(semantic_limit(Some(1000)), 100);
}

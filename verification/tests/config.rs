use sidefeed::config::Config;
use sidefeed::error::Error;

fn vars(pairs: &[(&str, &str)]) -> Vec<(String, String)> {
    pairs.iter().map(|(k, v)| (k.to_string(), v.to_string())).collect()
}

#[test]
fn defaults_apply_to_unset_variables() {
    let c = Config::from_env(&vars(&[("PATH", "/bin")])).unwrap();
    assert_eq!(c.listen, "0.0.0.0:8080");
    assert_eq!(c.database_url, "sqlite://sidefeed.db?mode=rwc");
    assert_eq!(c.public_url, "http://localhost:8080");
    assert_eq!(c.fetch_interval_secs, 900);
    assert_eq!(c.fetch_timeout_secs, 20);
    assert_eq!(c.max_response_bytes, 5_242_880);
    assert_eq!(c.peer_max_items, 500);
    assert_eq!(c.retention_days, 90);
    assert_eq!(c.admin_token, None);
    assert_eq!(c.embedding_provider, "disabled");
    assert_eq!(c.embedding_url, None);
    assert_eq!(c.embedding_token, None);
}

#[test]
fn variables_override_defaults() {
    let c = Config::from_env(&vars(&[
        ("SIDEFEED_PUBLIC_URL", "https://feeds.example//"),
        ("SIDEFEED_FETCH_INTERVAL_SECONDS", "60"),
        ("SIDEFEED_PEER_MAX_ITEMS", "+7"),
        ("SIDEFEED_RETENTION_DAYS", "0"),
        ("SIDEFEED_ADMIN_TOKEN", "change-me"),
        ("SIDEFEED_EMBEDDING_PROVIDER", "remote"),
        ("SIDEFEED_EMBEDDING_URL", ""),
        ("SIDEFEED_LISTEN", "127.0.0.1:9000"),
    ]))
    .unwrap();
    assert_eq!(c.public_url, "https://feeds.example");
    assert_eq!(c.fetch_interval_secs, 60);
    assert_eq!(c.peer_max_items, 7);
    assert_eq!(c.retention_days, 0);
    assert_eq!(c.admin_token.as_deref(), Some("change-me"));
    assert_eq!(c.embedding_provider, "remote");
    assert_eq!(c.embedding_url, None);
    assert_eq!(c.listen, "127.0.0.1:9000");
}

#[test]
fn the_first_invalid_number_is_reported() {
    match Config::from_env(&vars(&[("SIDEFEED_PEER_MAX_ITEMS", "-1"), ("SIDEFEED_FETCH_TIMEOUT_SECONDS", "soon")])) {
        Err(Error::Config(m)) => assert_eq!(m, "invalid SIDEFEED_FETCH_TIMEOUT_SECONDS"),
        _ => panic!("expected a configuration error"),
    }
    match Config::from_env(&vars(&[("SIDEFEED_PEER_MAX_ITEMS", "4294967296")])) {
        Err(Error::Config(m)) => assert_eq!(m, "invalid SIDEFEED_PEER_MAX_ITEMS"),
        _ => panic!("expected a configuration error"),
    }
    match Config::from_env(&vars(&[("SIDEFEED_RETENTION_DAYS", "")])) {
        Err(Error::Config(m)) => assert_eq!(m, "invalid SIDEFEED_RETENTION_DAYS"),
        _ => panic!("expected a configuration error"),
    }
}

#[test]
fn the_listen_address_must_be_a_socket_address() {
    assert_eq!(Config::from_env(&vars(&[("SIDEFEED_LISTEN", "[::1]:9000")])).unwrap().listen, "[::1]:9000");
    match Config::from_env(&vars(&[("SIDEFEED_LISTEN", "localhost"), ("SIDEFEED_FETCH_INTERVAL_SECONDS", "abc")])) {
        Err(Error::Config(m)) => assert_eq!(m, "invalid SIDEFEED_LISTEN"),
        _ => panic!("expected a configuration error"),
    }
    match Config::from_env(&vars(&[("SIDEFEED_FETCH_INTERVAL_SECONDS", "abc")])) {
        Err(Error::Config(m)) => assert_eq!(m, "invalid SIDEFEED_FETCH_INTERVAL_SECONDS"),
        _ => panic!("expected a configuration error"),
    }
}

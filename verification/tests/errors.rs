use sidefeed::error::Error;
use sidefeed::errors::ApplicationError;
use sidefeed::json::JsonValue;

#[test]
fn each_error_has_its_status_and_text() {
    let cases = [
        (Error::Config("x".into()), 500, "configuration error: x"),
        (Error::Database("x".into()), 500, "database error: x"),
        (Error::Network("x".into()), 500, "network error: x"),
        (Error::Invalid("x".into()), 400, "invalid input: x"),
        (Error::NotFound, 404, "not found"),
        (Error::Unauthorized, 401, "unauthorized"),
        (Error::Conflict("x".into()), 409, "conflict: x"),
        (Error::Internal("x".into()), 500, "internal error: x"),
    ];
    for (e, status, text) in cases {
        assert_eq!(e.status_code(), status);
        assert_eq!(e.message(), text);
        let shown = if status == 500 { "internal server error" } else { text };
        assert_eq!(e.client_message(), shown);
        match e.response_body() {
            JsonValue::Object(fields) => {
                assert_eq!(fields.len(), 1);
                assert_eq!(fields[0].0, "error");
                assert!(matches!(&fields[0].1, JsonValue::String(m) if m == shown));
            }
            _ => panic!("expected an object"),
        }
    }
}

#[test]
fn unique_violations_are_conflicts() {
    assert!(matches!(Error::from_write_failure(true, "UNIQUE".into()), Error::Conflict(m) if m == "resource already exists"));
    assert!(matches!(Error::from_write_failure(false, "disk full".into()), Error::Database(m) if m == "disk full"));
}

#[test]
fn application_errors_read_as_their_debug_form() {
    assert_eq!(ApplicationError::DatabaseQueryError.describe(), "DatabaseQueryError");
    assert_eq!(ApplicationError::ServerFailure.describe(), "ServerFailure");
    let e = ApplicationError::UnexpectedError("No matching feed for id found.");
    assert_eq!(e.describe(), format!("{:?}", e));
    assert_eq!(e.describe(), "UnexpectedError(\"No matching feed for id found.\")");
}

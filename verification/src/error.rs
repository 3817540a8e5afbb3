//! The error kinds of the service and the HTTP answers they turn into.

use vstd::prelude::*;
use crate::json::JsonValue;

verus! {

/// What can go wrong. The database and network variants carry the text that
/// the failing driver reported.
#[derive(Debug)]
pub enum Error {
    Config(String),
    Database(String),
    Network(String),
    Invalid(String),
    NotFound,
    Unauthorized,
    Conflict(String),
    Internal(String),
}

/// The text of an error, as the service reports it.
pub open spec fn error_text(e: Error) -> Seq<char> {
    match e {
        Error::Config(m) => "configuration error: "@ + m@,
        Error::Database(m) => "database error: "@ + m@,
        Error::Network(m) => "network error: "@ + m@,
        Error::Invalid(m) => "invalid input: "@ + m@,
        Error::NotFound => "not found"@,
        Error::Unauthorized => "unauthorized"@,
        Error::Conflict(m) => "conflict: "@ + m@,
        Error::Internal(m) => "internal error: "@ + m@,
    }
}

/// The HTTP status that answers an error.
pub open spec fn status_of(e: Error) -> u16 {
    match e {
        Error::Invalid(_) => 400,
        Error::NotFound => 404,
        Error::Unauthorized => 401,
        Error::Conflict(_) => 409,
        _ => 500,
    }
}

/// What a client is told: the error's text, except that a server-side
/// failure is not described.
pub open spec fn client_text(e: Error) -> Seq<char> {
    if status_of(e) == 500 {
        "internal server error"@
    } else {
        error_text(e)
    }
}

fn prefixed(prefix: &str, m: &String) -> (res: String)
    ensures
        res@ == prefix@ + m@,
{
    let mut s = prefix.to_owned();
    s.append(m.as_str());
    s
}

impl Error {
    /// The error's text.
    pub fn message(&self) -> (res: String)
        ensures
            res@ == error_text(*self),
    {
        match self {
            Error::Config(m) => prefixed("configuration error: ", m),
            Error::Database(m) => prefixed("database error: ", m),
            Error::Network(m) => prefixed("network error: ", m),
            Error::Invalid(m) => prefixed("invalid input: ", m),
            Error::NotFound => "not found".to_owned(),
            Error::Unauthorized => "unauthorized".to_owned(),
            Error::Conflict(m) => prefixed("conflict: ", m),
            Error::Internal(m) => prefixed("internal error: ", m),
        }
    }

    /// The HTTP status code of the answer.
    pub fn status_code(&self) -> (res: u16)
        ensures
            res == status_of(*self),
    {
        match self {
            Error::Invalid(_) => 400,
            Error::NotFound => 404,
            Error::Unauthorized => 401,
            Error::Conflict(_) => 409,
            _ => 500,
        }
    }

    /// The text that the answer carries.
    pub fn client_message(&self) -> (res: String)
        ensures
            res@ == client_text(*self),
    {
        if self.status_code() == 500 {
            "internal server error".to_owned()
        } else {
            self.message()
        }
    }

    /// The JSON body of the answer: an object whose one member, `error`,
    /// holds the client text.
    pub fn response_body(&self) -> (res: JsonValue)
        ensures
            match res {
                JsonValue::Object(fields) => fields@.len() == 1 && fields@[0].0@ == "error"@
                    && match fields@[0].1 {
                    JsonValue::String(m) => m@ == client_text(*self),
                    _ => false,
                },
                _ => false,
            },
    {
        let mut fields: Vec<(String, JsonValue)> = Vec::new();
        fields.push(("error".to_owned(), JsonValue::String(self.client_message())));
        JsonValue::Object(fields)
    }

    /// A failed write: a unique-key violation is a conflict, anything else a
    /// database error with the driver's text.
    pub fn from_write_failure(unique_violation: bool, driver_text: String) -> (res: Error)
        ensures
            unique_violation ==> match res {
                Error::Conflict(m) => m@ == "resource already exists"@,
                _ => false,
            },
            !unique_violation ==> res == Error::Database(driver_text),
    {
        if unique_violation {
            Error::Conflict("resource already exists".to_owned())
        } else {
            Error::Database(driver_text)
        }
    }
}

} // verus!

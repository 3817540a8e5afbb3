//! Who may use the HTTP interface, and the request and response shapes of
//! the prototype's interface.

pub mod fetch;
pub mod update;

use vstd::prelude::*;
use crate::error::Error;

verus! {

/// The `Authorization` value that carries the admin token.
pub open spec fn bearer(token: Seq<char>) -> Seq<char> {
    "Bearer "@ + token
}

/// A management request is allowed when no admin token is configured, or
/// when it carries that token as a bearer credential.
pub open spec fn spec_authorized(admin_token: Option<String>, authorization: Option<Seq<char>>) -> bool {
    match admin_token {
        None => true,
        Some(t) => authorization == Some(bearer(t@)),
    }
}

/// Checks a management request's `Authorization` header.
pub fn authorize(admin_token: &Option<String>, authorization: Option<&str>) -> (res: Result<(), Error>)
    ensures
        match res {
            Ok(()) => spec_authorized(*admin_token, match authorization { Some(a) => Some(a@), None => None }),
            Err(e) => e is Unauthorized && !spec_authorized(*admin_token, match authorization { Some(a) => Some(a@), None => None }),
        },
{
    match admin_token {
        None => Ok(()),
        Some(t) => {
            let mut expected = "Bearer ".to_owned();
            expected.append(t.as_str());
            match authorization {
                Some(a) => if crate::json::same_text(&expected, a) { Ok(()) } else { Err(Error::Unauthorized) },
                None => Err(Error::Unauthorized),
            }
        },
    }
}

/// Reading a feed: public feeds are open to all; a private feed needs what
/// a management request needs.
pub fn access_feed(public: bool, admin_token: &Option<String>, authorization: Option<&str>) -> (res: Result<(), Error>)
    ensures
        match res {
            Ok(()) => public || spec_authorized(*admin_token, match authorization { Some(a) => Some(a@), None => None }),
            Err(e) => e is Unauthorized && !public && !spec_authorized(*admin_token, match authorization { Some(a) => Some(a@), None => None }),
        },
{
    if public {
        Ok(())
    } else {
        authorize(admin_token, authorization)
    }
}

/// With an admin token configured, a management request without that exact
/// bearer credential is refused; with the credential it is allowed.
pub proof fn law_token_guards_management(token: String, authorization: Option<Seq<char>>)
    ensures
        spec_authorized(Some(token), authorization) <==> authorization == Some(bearer(token@)),
        spec_authorized(Some(token), Some(bearer(token@))),
        !spec_authorized(Some(token), None),
{
}

/// A node without an admin token leaves management open, as for a
/// single-user deployment on localhost.
pub proof fn law_no_token_is_open(authorization: Option<Seq<char>>)
    ensures
        spec_authorized(None, authorization),
{
}

} // verus!

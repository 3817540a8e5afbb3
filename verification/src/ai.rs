//! What the optional embedding stage decides: which provider serves, what
//! text an item is embedded from, where a remote service puts the vector and
//! how a semantic query is bounded. The vectors themselves are floating point
//! and stay with the application.

use vstd::prelude::*;
use crate::config::Config;
use crate::error::Error;
use crate::json::{JsonValue, get, spec_get};
use crate::model::{Item, opt_str, opt_text};
use crate::text::{chars_of, trim, trim_chars};

verus! {

/// The text an item is embedded from: title, summary and content on lines
/// of their own, an absent part as an empty line.
pub open spec fn spec_item_text(item: Item) -> Seq<char> {
    opt_text(item.title) + "\n"@ + opt_text(item.summary) + "\n"@ + opt_text(item.content)
}

/// The text an item is embedded from.
pub fn item_text(item: &Item) -> (res: String)
    ensures
        res@ == spec_item_text(*item),
{
    let mut t = opt_str(&item.title).to_owned();
    t.append("\n");
    t.append(opt_str(&item.summary));
    t.append("\n");
    t.append(opt_str(&item.content));
    t
}

/// Where the remote embedding service is reached.
#[derive(Debug, Clone)]
pub struct RemoteSettings {
    pub url: String,
    pub token: Option<String>,
}

/// The provider that a configuration selects: `remote` needs an endpoint;
/// this build has no local encoder; `disabled` and unknown names refuse.
pub open spec fn spec_provider(provider: Seq<char>, url: Option<String>, token: Option<String>) -> Result<(Seq<char>, Option<Seq<char>>), Seq<char>> {
    if provider == "remote"@ {
        match url {
            Some(u) => Ok((u@, match token { Some(t) => Some(t@), None => None })),
            None => Err("SIDEFEED_EMBEDDING_URL is required for remote embeddings"@),
        }
    } else if provider == "burn-local"@ {
        Err("rebuild with --features burn-local"@)
    } else if provider == "disabled"@ {
        Err("embedding provider is disabled"@)
    } else {
        Err("unknown embedding provider: "@ + provider)
    }
}

fn is(a: &String, b: &str) -> (res: bool)
    ensures
        res == (a@ == b@),
{
    crate::json::same_text(a, b)
}

/// Selects the embedding provider of a configuration; every refusal is a
/// configuration error.
pub fn provider(config: &Config) -> (res: Result<RemoteSettings, Error>)
    ensures
        match res {
            Ok(r) => spec_provider(config.embedding_provider@, config.embedding_url, config.embedding_token)
                == Ok::<(Seq<char>, Option<Seq<char>>), Seq<char>>((r.url@, match r.token { Some(t) => Some(t@), None => None })),
            Err(Error::Config(m)) => spec_provider(config.embedding_provider@, config.embedding_url, config.embedding_token)
                == Err::<(Seq<char>, Option<Seq<char>>), Seq<char>>(m@),
            Err(_) => false,
        },
{
    let p = &config.embedding_provider;
    if is(p, "remote") {
        match &config.embedding_url {
            Some(u) => Ok(RemoteSettings { url: u.clone(), token: config.embedding_token.clone() }),
            None => Err(Error::Config("SIDEFEED_EMBEDDING_URL is required for remote embeddings".to_owned())),
        }
    } else if is(p, "burn-local") {
        Err(Error::Config("rebuild with --features burn-local".to_owned()))
    } else if is(p, "disabled") {
        Err(Error::Config("embedding provider is disabled".to_owned()))
    } else {
        let mut m = "unknown embedding provider: ".to_owned();
        m.append(p.as_str());
        Err(Error::Config(m))
    }
}

/// The first element of `data`, read as the JSON pointer `/data/0` reads
/// it: index 0 of an array, or the member named "0" of an object.
pub open spec fn first_data(v: JsonValue) -> Option<JsonValue> {
    match spec_get(v, "data"@) {
        Some(JsonValue::Array(a)) => if a@.len() > 0 { Some(a@[0]) } else { None },
        Some(d) => spec_get(d, "0"@),
        None => None,
    }
}

/// Where a remote service's answer holds the vector: a top-level
/// `embedding`, else `data[0].embedding`.
pub open spec fn spec_embedding_field(v: JsonValue) -> Option<JsonValue> {
    match spec_get(v, "embedding"@) {
        Some(e) => Some(e),
        None => match first_data(v) {
            Some(d) => spec_get(d, "embedding"@),
            None => None,
        },
    }
}

/// Finds the vector in a remote embedding service's answer.
pub fn embedding_field(v: &JsonValue) -> (res: Option<&JsonValue>)
    ensures
        match res {
            Some(r) => spec_embedding_field(*v) == Some(*r),
            None => spec_embedding_field(*v) is None,
        },
{
    match get(v, "embedding") {
        Some(e) => return Some(e),
        None => {},
    }
    let first: Option<&JsonValue> = match get(v, "data") {
        Some(JsonValue::Array(a)) => if a.len() > 0 { Some(&a[0]) } else { None },
        Some(d) => get(d, "0"),
        None => None,
    };
    match first {
        Some(d) => get(d, "embedding"),
        None => None,
    }
}

/// A semantic query needs some text besides white space.
pub fn check_query(q: &str) -> (res: Result<(), Error>)
    ensures
        match res {
            Ok(()) => trim(q@).len() > 0,
            Err(Error::Invalid(m)) => trim(q@).len() == 0 && m@ == "q is required"@,
            Err(_) => false,
        },
{
    let cs = chars_of(q);
    if trim_chars(&cs).len() == 0 {
        Err(Error::Invalid("q is required".to_owned()))
    } else {
        Ok(())
    }
}

/// How many results a semantic query returns: the asked number, 20 by
/// default, kept between 1 and 100.
pub fn semantic_limit(limit: Option<u32>) -> (res: u32)
    ensures
        res == match limit {
            None => 20,
            Some(n) => if n < 1 { 1 } else if n > 100 { 100 } else { n },
        },
{
    match limit {
        None => 20,
        Some(n) => if n < 1 { 1 } else if n > 100 { 100 } else { n },
    }
}

} // verus!

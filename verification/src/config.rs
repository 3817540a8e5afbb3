//! The node's settings, read from `SIDEFEED_*` environment variables.

use vstd::prelude::*;
use crate::error::Error;
use crate::json::same_text;
use crate::model::opt_view;
use crate::store::{trim_slashes, trim_trailing_slashes};
use crate::text::{parse_integer, parse_u32, parse_u64, parse_usize};

verus! {

/// The settings of a node. `listen` is the text of the socket address the
/// server binds; the durations are whole seconds.
#[derive(Debug, Clone)]
pub struct Config {
    pub listen: String,
    pub database_url: String,
    pub public_url: String,
    pub fetch_interval_secs: u64,
    pub fetch_timeout_secs: u64,
    pub max_response_bytes: usize,
    pub peer_max_items: u32,
    pub retention_days: u64,
    pub admin_token: Option<String>,
    pub embedding_provider: String,
    pub embedding_url: Option<String>,
    pub embedding_token: Option<String>,
}

/// The value of the first variable named `name`.
pub open spec fn setting(vars: Seq<(String, String)>, name: Seq<char>) -> Option<Seq<char>>
    decreases vars.len(),
{
    if vars.len() == 0 {
        None
    } else if vars[0].0@ == name {
        Some(vars[0].1@)
    } else {
        setting(vars.drop_first(), name)
    }
}

/// The value of a variable, or `default` where it is unset.
pub open spec fn setting_or(vars: Seq<(String, String)>, name: Seq<char>, default: Seq<char>) -> Seq<char> {
    match setting(vars, name) {
        Some(v) => v,
        None => default,
    }
}

/// The value of a variable that is set and not empty.
pub open spec fn nonempty_setting(vars: Seq<(String, String)>, name: Seq<char>) -> Option<Seq<char>> {
    match setting(vars, name) {
        Some(v) => if v.len() > 0 { Some(v) } else { None },
        None => None,
    }
}

/// A numeric setting with its default, read as an unsigned number up to `max`.
pub open spec fn number_setting(vars: Seq<(String, String)>, name: Seq<char>, default: Seq<char>, max: int) -> Option<int> {
    parse_integer(setting_or(vars, name, default), false, 0, max)
}

pub open spec fn interval_setting(vars: Seq<(String, String)>) -> Option<int> {
    number_setting(vars, "SIDEFEED_FETCH_INTERVAL_SECONDS"@, "900"@, u64::MAX as int)
}

pub open spec fn timeout_setting(vars: Seq<(String, String)>) -> Option<int> {
    number_setting(vars, "SIDEFEED_FETCH_TIMEOUT_SECONDS"@, "20"@, u64::MAX as int)
}

pub open spec fn max_bytes_setting(vars: Seq<(String, String)>) -> Option<int> {
    number_setting(vars, "SIDEFEED_MAX_RESPONSE_BYTES"@, "5242880"@, usize::MAX as int)
}

pub open spec fn peer_items_setting(vars: Seq<(String, String)>) -> Option<int> {
    number_setting(vars, "SIDEFEED_PEER_MAX_ITEMS"@, "500"@, u32::MAX as int)
}

pub open spec fn retention_setting(vars: Seq<(String, String)>) -> Option<int> {
    number_setting(vars, "SIDEFEED_RETENTION_DAYS"@, "90"@, u64::MAX as int)
}

/// The text of the listen address: `SIDEFEED_LISTEN`, or `0.0.0.0:8080`.
pub open spec fn listen_text(vars: Seq<(String, String)>) -> Seq<char> {
    setting_or(vars, "SIDEFEED_LISTEN"@, "0.0.0.0:8080"@)
}

/// Whether a text reads as a socket address (`FromStr` for `SocketAddr`).
pub uninterp spec fn socket_address_text(s: Seq<char>) -> bool;

/// Whether a text reads as a socket address, with `FromStr` for
/// `core::net::SocketAddr` (the type `std::net::SocketAddr` names); parsing
/// touches no socket. Claimed: a function of the text alone.
#[verifier::external_body]
fn reads_as_socket_address(s: &str) -> (res: bool)
    ensures
        res == socket_address_text(s@),
{
    s.parse::<core::net::SocketAddr>().is_ok()
}

/// The first setting, in the order they are read, that does not read as its
/// type: the listen address, then the numbers.
pub open spec fn first_invalid(vars: Seq<(String, String)>) -> Option<Seq<char>> {
    if !socket_address_text(listen_text(vars)) {
        Some("SIDEFEED_LISTEN"@)
    } else if interval_setting(vars) is None {
        Some("SIDEFEED_FETCH_INTERVAL_SECONDS"@)
    } else if timeout_setting(vars) is None {
        Some("SIDEFEED_FETCH_TIMEOUT_SECONDS"@)
    } else if max_bytes_setting(vars) is None {
        Some("SIDEFEED_MAX_RESPONSE_BYTES"@)
    } else if peer_items_setting(vars) is None {
        Some("SIDEFEED_PEER_MAX_ITEMS"@)
    } else if retention_setting(vars) is None {
        Some("SIDEFEED_RETENTION_DAYS"@)
    } else {
        None
    }
}

/// The configuration that a set of variables gives, when every numeric
/// setting is valid.
pub open spec fn configured(vars: Seq<(String, String)>, c: Config) -> bool {
    &&& c.listen@ == listen_text(vars)
    &&& c.database_url@ == setting_or(vars, "SIDEFEED_DATABASE_URL"@, "sqlite://sidefeed.db?mode=rwc"@)
    &&& c.public_url@ == trim_slashes(setting_or(vars, "SIDEFEED_PUBLIC_URL"@, "http://localhost:8080"@))
    &&& interval_setting(vars) == Some(c.fetch_interval_secs as int)
    &&& timeout_setting(vars) == Some(c.fetch_timeout_secs as int)
    &&& max_bytes_setting(vars) == Some(c.max_response_bytes as int)
    &&& peer_items_setting(vars) == Some(c.peer_max_items as int)
    &&& retention_setting(vars) == Some(c.retention_days as int)
    &&& opt_view(c.admin_token) == nonempty_setting(vars, "SIDEFEED_ADMIN_TOKEN"@)
    &&& c.embedding_provider@ == setting_or(vars, "SIDEFEED_EMBEDDING_PROVIDER"@, "disabled"@)
    &&& opt_view(c.embedding_url) == nonempty_setting(vars, "SIDEFEED_EMBEDDING_URL"@)
    &&& opt_view(c.embedding_token) == nonempty_setting(vars, "SIDEFEED_EMBEDDING_TOKEN"@)
}

/// The value of the first variable named `name`.
fn lookup<'a>(vars: &'a Vec<(String, String)>, name: &str) -> (res: Option<&'a String>)
    ensures
        match res {
            Some(v) => setting(vars@, name@) == Some(v@),
            None => setting(vars@, name@) is None,
        },
{
    let mut i: usize = 0;
    assert(vars@.skip(0) == vars@);
    while i < vars.len()
        invariant
            i <= vars@.len(),
            setting(vars@, name@) == setting(vars@.skip(i as int), name@),
        decreases vars.len() - i,
    {
        if same_text(&vars[i].0, name) {
            return Some(&vars[i].1);
        }
        assert(vars@.skip(i as int).drop_first() == vars@.skip(i + 1));
        i = i + 1;
    }
    None
}

fn value_or(vars: &Vec<(String, String)>, name: &str, default: &str) -> (res: String)
    ensures
        res@ == setting_or(vars@, name@, default@),
{
    match lookup(vars, name) {
        Some(v) => v.clone(),
        None => default.to_owned(),
    }
}

fn nonempty(vars: &Vec<(String, String)>, name: &str) -> (res: Option<String>)
    ensures
        opt_view(res) == nonempty_setting(vars@, name@),
{
    match lookup(vars, name) {
        Some(v) => if v.as_str().unicode_len() > 0 { Some(v.clone()) } else { None },
        None => None,
    }
}

fn invalid(name: &str) -> (res: Error)
    ensures
        res == Error::Config(res->Config_0),
        res->Config_0@ == "invalid "@ + name@,
{
    let mut m = "invalid ".to_owned();
    m.append(name);
    Error::Config(m)
}

impl Config {
    /// The text of the listen address that the settings give.
    pub fn listen_setting(vars: &Vec<(String, String)>) -> (res: String)
        ensures
            res@ == listen_text(vars@),
    {
        value_or(vars, "SIDEFEED_LISTEN", "0.0.0.0:8080")
    }

    /// Reads the settings from the process's variables, given as name and
    /// value pairs. Unset variables take their defaults; the public URL loses
    /// its trailing slashes; empty tokens and URLs count as unset. A listen
    /// address that is no socket address, or a numeric setting that is not a
    /// number of its type, fails with `Config("invalid NAME")`, the first
    /// such in reading order.
    pub fn from_env(vars: &Vec<(String, String)>) -> (res: Result<Config, Error>)
        ensures
            match res {
                Ok(c) => first_invalid(vars@) is None && configured(vars@, c),
                Err(Error::Config(m)) => first_invalid(vars@) matches Some(name) && m@ == "invalid "@ + name,
                Err(_) => false,
            },
    {
        let listen = Config::listen_setting(vars);
        if !reads_as_socket_address(listen.as_str()) {
            return Err(invalid("SIDEFEED_LISTEN"));
        }
        let interval = value_or(vars, "SIDEFEED_FETCH_INTERVAL_SECONDS", "900");
        let fetch_interval_secs = match parse_u64(interval.as_str()) {
            Some(v) => v,
            None => return Err(invalid("SIDEFEED_FETCH_INTERVAL_SECONDS")),
        };
        let timeout = value_or(vars, "SIDEFEED_FETCH_TIMEOUT_SECONDS", "20");
        let fetch_timeout_secs = match parse_u64(timeout.as_str()) {
            Some(v) => v,
            None => return Err(invalid("SIDEFEED_FETCH_TIMEOUT_SECONDS")),
        };
        let max_bytes = value_or(vars, "SIDEFEED_MAX_RESPONSE_BYTES", "5242880");
        let max_response_bytes = match parse_usize(max_bytes.as_str()) {
            Some(v) => v,
            None => return Err(invalid("SIDEFEED_MAX_RESPONSE_BYTES")),
        };
        let peer_items = value_or(vars, "SIDEFEED_PEER_MAX_ITEMS", "500");
        let peer_max_items = match parse_u32(peer_items.as_str()) {
            Some(v) => v,
            None => return Err(invalid("SIDEFEED_PEER_MAX_ITEMS")),
        };
        let retention = value_or(vars, "SIDEFEED_RETENTION_DAYS", "90");
        let retention_days = match parse_u64(retention.as_str()) {
            Some(v) => v,
            None => return Err(invalid("SIDEFEED_RETENTION_DAYS")),
        };
        let public = value_or(vars, "SIDEFEED_PUBLIC_URL", "http://localhost:8080");
        Ok(Config {
            listen,
            database_url: value_or(vars, "SIDEFEED_DATABASE_URL", "sqlite://sidefeed.db?mode=rwc"),
            public_url: trim_trailing_slashes(public.as_str()),
            fetch_interval_secs,
            fetch_timeout_secs,
            max_response_bytes,
            peer_max_items,
            retention_days,
            admin_token: nonempty(vars, "SIDEFEED_ADMIN_TOKEN"),
            embedding_provider: value_or(vars, "SIDEFEED_EMBEDDING_PROVIDER", "disabled"),
            embedding_url: nonempty(vars, "SIDEFEED_EMBEDDING_URL"),
            embedding_token: nonempty(vars, "SIDEFEED_EMBEDDING_TOKEN"),
        })
    }
}

} // verus!

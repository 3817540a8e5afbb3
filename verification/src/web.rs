//! Web addresses and the network policy for fetching: only HTTP(S) origins
//! whose host resolves to public, routable addresses.

use vstd::prelude::*;
use crate::error::Error;
use crate::json::same_text;

verus! {

#[verifier::external_type_specification]
#[verifier::external_body]
pub struct ExUrl(url::Url);

/// A parsed web address with the parts the policy reads: scheme, host,
/// port (given or the scheme's default) and the path with its query.
#[derive(Debug)]
pub struct WebUrl {
    pub parsed: url::Url,
    pub href: String,
    pub scheme: String,
    pub host: Option<String>,
    pub port: Option<u16>,
    pub path_and_query: String,
}

/// What `url::Url::parse` makes of a text: the address, or the error's text.
pub uninterp spec fn url_parse(s: Seq<char>) -> Result<WebUrl, Seq<char>>;

/// What `url::Url::join` makes of a reference relative to an address.
pub uninterp spec fn url_join(base: WebUrl, reference: Seq<char>) -> Result<WebUrl, Seq<char>>;

/// The address after `query_pairs_mut().append_pair(key, value)`.
pub uninterp spec fn url_append_pair(u: WebUrl, key: Seq<char>, value: Seq<char>) -> WebUrl;

/// Reads an address with `url::Url::parse` and takes its parts (`as_str`,
/// `scheme`, `host_str`, `port_or_known_default`, and the text from the path
/// on). Claimed: the outcome is a function of the text alone.
#[verifier::external_body]
pub(crate) fn parse_url(s: &str) -> (res: Result<WebUrl, String>)
    ensures
        match res {
            Ok(u) => url_parse(s@) == Ok::<WebUrl, Seq<char>>(u),
            Err(e) => url_parse(s@) == Err::<WebUrl, Seq<char>>(e@),
        },
{
    match url::Url::parse(s) {
        Ok(u) => Ok(WebUrl { href: u.as_str().to_owned(), scheme: u.scheme().to_owned(),
            host: u.host_str().map(str::to_owned), port: u.port_or_known_default(),
            path_and_query: u[url::Position::BeforePath..].to_owned(), parsed: u }),
        Err(e) => Err(e.to_string()),
    }
}

/// Resolves a reference against an address with `url::Url::join`, then takes
/// the parts as `parse_url` does. Claimed: a function of the two arguments.
#[verifier::external_body]
pub(crate) fn join_url(base: &WebUrl, reference: &str) -> (res: Result<WebUrl, String>)
    ensures
        match res {
            Ok(u) => url_join(*base, reference@) == Ok::<WebUrl, Seq<char>>(u),
            Err(e) => url_join(*base, reference@) == Err::<WebUrl, Seq<char>>(e@),
        },
{
    match base.parsed.join(reference) {
        Ok(u) => Ok(WebUrl { href: u.as_str().to_owned(), scheme: u.scheme().to_owned(),
            host: u.host_str().map(str::to_owned), port: u.port_or_known_default(),
            path_and_query: u[url::Position::BeforePath..].to_owned(), parsed: u }),
        Err(e) => Err(e.to_string()),
    }
}

/// Appends one form-encoded query pair with
/// `query_pairs_mut().append_pair`. Claimed: a function of the arguments.
#[verifier::external_body]
pub(crate) fn append_query_pair(u: &WebUrl, key: &str, value: &str) -> (res: WebUrl)
    ensures
        res == url_append_pair(*u, key@, value@),
{
    let mut p = u.parsed.clone();
    p.query_pairs_mut().append_pair(key, value);
    WebUrl { href: p.as_str().to_owned(), scheme: p.scheme().to_owned(),
        host: p.host_str().map(str::to_owned), port: p.port_or_known_default(),
        path_and_query: p[url::Position::BeforePath..].to_owned(), parsed: p }
}

/// The host and port to resolve for an address that may be fetched, or why
/// it may not: only `http` and `https`, with a host and a port.
pub open spec fn spec_public_target(u: WebUrl) -> Result<(Seq<char>, u16), Seq<char>> {
    if !(u.scheme@ == "http"@ || u.scheme@ == "https"@) {
        Err("only http(s) sources are allowed"@)
    } else {
        match u.host {
            None => Err("URL has no host"@),
            Some(h) => match u.port {
                None => Err("URL has no port"@),
                Some(p) => Ok((h@, p)),
            },
        }
    }
}

/// The host and port to resolve before fetching an address.
pub fn public_target(u: &WebUrl) -> (res: Result<(String, u16), Error>)
    ensures
        match res {
            Ok((h, p)) => spec_public_target(*u) == Ok::<(Seq<char>, u16), Seq<char>>((h@, p)),
            Err(Error::Invalid(m)) => spec_public_target(*u) == Err::<(Seq<char>, u16), Seq<char>>(m@),
            Err(_) => false,
        },
{
    if !(same_text(&u.scheme, "http") || same_text(&u.scheme, "https")) {
        return Err(Error::Invalid("only http(s) sources are allowed".to_owned()));
    }
    match &u.host {
        None => Err(Error::Invalid("URL has no host".to_owned())),
        Some(h) => match u.port {
            None => Err(Error::Invalid("URL has no port".to_owned())),
            Some(p) => Ok((h.clone(), p)),
        },
    }
}

/// An IP address: four octets or eight 16-bit segments.
#[derive(Debug, Clone, Copy, PartialEq, Eq)]
pub enum IpAddress {
    V4([u8; 4]),
    V6([u16; 8]),
}

/// The IPv4 ranges that are never fetched from: private, loopback,
/// link-local, broadcast, unspecified, multicast and 0.0.0.0/8.
pub open spec fn spec_blocked_v4(o: Seq<u8>) -> bool {
    let (a, b) = (o[0], o[1]);
    ||| a == 10
    ||| (a == 172 && 16 <= b && b <= 31)
    ||| (a == 192 && b == 168)
    ||| a == 127
    ||| (a == 169 && b == 254)
    ||| (a == 255 && b == 255 && o[2] == 255 && o[3] == 255)
    ||| (224 <= a && a <= 239)
    ||| a == 0
}

/// Whether an IPv6 address is an IPv4-mapped one (`::ffff:a.b.c.d`).
pub open spec fn is_v4_mapped(s: Seq<u16>) -> bool {
    s[0] == 0 && s[1] == 0 && s[2] == 0 && s[3] == 0 && s[4] == 0 && s[5] == 0xffffu16
}

/// The IPv4 address that the last two segments of an IPv6 address spell.
pub open spec fn mapped_octets(s: Seq<u16>) -> Seq<u8> {
    seq![(s[6] / 256) as u8, (s[6] % 256) as u8, (s[7] / 256) as u8, (s[7] % 256) as u8]
}

/// The address ranges that are never fetched from: the IPv4 ranges above;
/// for IPv6 loopback, unspecified, multicast, unique-local (fc00::/7) and
/// link-local (fe80::/10); and an IPv4-mapped IPv6 address is judged as the
/// IPv4 address it maps.
pub open spec fn spec_blocked(ip: IpAddress) -> bool {
    match ip {
        IpAddress::V4(o) => spec_blocked_v4(o@),
        IpAddress::V6(s) => if is_v4_mapped(s@) {
            spec_blocked_v4(mapped_octets(s@))
        } else {
            ||| (s@[0] == 0 && s@[1] == 0 && s@[2] == 0 && s@[3] == 0 && s@[4] == 0 && s@[5] == 0
                && s@[6] == 0 && (s@[7] == 0 || s@[7] == 1))
            ||| (s@[0] & 0xff00u16) == 0xff00u16
            ||| (s@[0] & 0xfe00u16) == 0xfc00u16
            ||| (s@[0] & 0xffc0u16) == 0xfe80u16
        },
    }
}

fn blocked_v4(o: [u8; 4]) -> (res: bool)
    ensures
        res == spec_blocked_v4(o@),
{
    let a = o[0];
    let b = o[1];
    a == 10 || (a == 172 && 16 <= b && b <= 31) || (a == 192 && b == 168) || a == 127
        || (a == 169 && b == 254) || (a == 255 && b == 255 && o[2] == 255 && o[3] == 255)
        || (224 <= a && a <= 239) || a == 0
}

/// Whether an address lies in a range that is never fetched from.
pub fn blocked_ip(ip: IpAddress) -> (res: bool)
    ensures
        res == spec_blocked(ip),
{
    match ip {
        IpAddress::V4(o) => blocked_v4(o),
        IpAddress::V6(s) => {
            if s[0] == 0 && s[1] == 0 && s[2] == 0 && s[3] == 0 && s[4] == 0 && s[5] == 0xffffu16 {
                let o: [u8; 4] = [(s[6] / 256) as u8, (s[6] % 256) as u8, (s[7] / 256) as u8, (s[7] % 256) as u8];
                assert(o@ =~= mapped_octets(s@));
                blocked_v4(o)
            } else {
                (s[0] == 0 && s[1] == 0 && s[2] == 0 && s[3] == 0 && s[4] == 0 && s[5] == 0 && s[6] == 0
                    && (s[7] == 0 || s[7] == 1)) || (s[0] & 0xff00u16) == 0xff00u16
                    || (s[0] & 0xfe00u16) == 0xfc00u16 || (s[0] & 0xffc0u16) == 0xfe80u16
            }
        },
    }
}

/// The addresses a host resolved to may be fetched from when there is at
/// least one and none is blocked.
pub fn check_resolved(addresses: &Vec<IpAddress>) -> (res: Result<(), Error>)
    ensures
        res is Ok <==> (addresses@.len() > 0 && forall|i: int| 0 <= i < addresses@.len() ==> !spec_blocked(#[trigger] addresses@[i])),
        match res {
            Ok(()) => true,
            Err(Error::Invalid(m)) => m@ == "private or non-routable source address rejected"@,
            Err(_) => false,
        },
{
    let mut i: usize = 0;
    let mut any = false;
    while i < addresses.len()
        invariant
            i <= addresses@.len(),
            any == (exists|j: int| 0 <= j < i && spec_blocked(#[trigger] addresses@[j])),
        decreases addresses.len() - i,
    {
        if blocked_ip(addresses[i]) {
            any = true;
        }
        i = i + 1;
    }
    if addresses.len() == 0 || any {
        Err(Error::Invalid("private or non-routable source address rejected".to_owned()))
    } else {
        Ok(())
    }
}

} // verus!

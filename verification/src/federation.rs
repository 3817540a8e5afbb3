//! Pull-based cache exchange between explicitly trusted Sidefeed nodes:
//! HMAC-SHA256 request signatures over timestamp, method and path, a
//! five-minute freshness window, bounded exports and due-time decisions.

use vstd::prelude::*;
use hmac::Mac;
use vstd::string::StringSliceAdditionalSpecFns;
use crate::error::Error;
use crate::json::{JsonValue, json_parse, parse_json_bytes};
use crate::ingest::jsonfeed::{dec_strings, view_strings};
use crate::model::{Item, NewItem, Peer, new_item_view, opt_view, texts_view};
use crate::text::{parse_i64, parse_integer, signed_decimal, signed_text, decimal, decimal_text, lemma_parse_signed_decimal};
use crate::web::{WebUrl, parse_url, url_parse, append_query_pair, url_append_pair};
use crate::store::{trim_slashes, trim_trailing_slashes};

verus! {

// ---------------------------------------------------------------- hex

pub open spec fn hex_digit(n: int) -> char {
    if n < 10 { ((n + 48) as u8) as char } else { ((n - 10 + 97) as u8) as char }
}

/// Lower-case hexadecimal, two digits per byte.
pub open spec fn hex_lower(b: Seq<u8>) -> Seq<char>
    decreases b.len(),
{
    if b.len() == 0 {
        Seq::<char>::empty()
    } else {
        seq![hex_digit(b[0] as int / 16), hex_digit(b[0] as int % 16)] + hex_lower(b.drop_first())
    }
}

/// The value of a hexadecimal digit of either case.
pub open spec fn hex_value(c: char) -> Option<int> {
    if '0' <= c && c <= '9' {
        Some(c as int - 48)
    } else if 'a' <= c && c <= 'f' {
        Some(c as int - 97 + 10)
    } else if 'A' <= c && c <= 'F' {
        Some(c as int - 65 + 10)
    } else {
        None
    }
}

/// What `hex::decode` accepts: pairs of hexadecimal digits of either case.
pub open spec fn hex_decode(s: Seq<char>) -> Option<Seq<u8>>
    decreases s.len(),
{
    if s.len() == 0 {
        Some(Seq::<u8>::empty())
    } else if s.len() == 1 {
        None
    } else {
        match (hex_value(s[0]), hex_value(s[1]), hex_decode(s.skip(2))) {
            (Some(a), Some(b), Some(rest)) => Some(seq![(a * 16 + b) as u8] + rest),
            _ => None,
        }
    }
}

/// Encodes bytes with `hex::encode`. Claimed: the result is `hex_lower`.
#[verifier::external_body]
pub(crate) fn hex_encode(bytes: &[u8]) -> (res: String)
    ensures
        res@ == hex_lower(bytes@),
{
    hex::encode(bytes)
}

/// Decodes a text with `hex::decode`. Claimed: the result is `hex_decode`.
#[verifier::external_body]
pub(crate) fn hex_decode_text(s: &str) -> (res: Option<Vec<u8>>)
    ensures
        match res {
            Some(v) => hex_decode(s@) == Some(v@),
            None => hex_decode(s@) is None,
        },
{
    hex::decode(s).ok()
}

proof fn lemma_hex_digit(n: int)
    requires
        0 <= n < 16,
    ensures
        hex_value(hex_digit(n)) == Some(n),
{
}

/// Decoding what was encoded gives the bytes back.
pub proof fn lemma_hex_roundtrip(b: Seq<u8>)
    ensures
        hex_decode(hex_lower(b)) == Some(b),
    decreases b.len(),
{
    if b.len() > 0 {
        let hi = b[0] as int / 16;
        let lo = b[0] as int % 16;
        lemma_hex_digit(hi);
        lemma_hex_digit(lo);
        lemma_hex_roundtrip(b.drop_first());
        let s = hex_lower(b);
        assert(s.skip(2) == hex_lower(b.drop_first()));
        assert(s[0] == hex_digit(hi));
        assert(s[1] == hex_digit(lo));
        assert((hi * 16 + lo) as u8 == b[0]);
        assert(seq![b[0]] + b.drop_first() == b);
    }
}

/// A digit of lower-case hexadecimal.
pub open spec fn is_lower_hex_digit(c: char) -> bool {
    ('0' <= c && c <= '9') || ('a' <= c && c <= 'f')
}

/// Lower-case hexadecimal has two digits per byte, each `0-9` or `a-f`.
pub proof fn lemma_hex_lower_shape(b: Seq<u8>)
    ensures
        hex_lower(b).len() == 2 * b.len(),
        forall|i: int| 0 <= i < hex_lower(b).len() ==> is_lower_hex_digit(#[trigger] hex_lower(b)[i]),
    decreases b.len(),
{
    if b.len() > 0 {
        lemma_hex_lower_shape(b.drop_first());
        let hi = b[0] as int / 16;
        let lo = b[0] as int % 16;
        let head = seq![hex_digit(hi), hex_digit(lo)];
        let rest = hex_lower(b.drop_first());
        assert(hex_lower(b) == head + rest);
        assert forall|i: int| 0 <= i < hex_lower(b).len() implies is_lower_hex_digit(#[trigger] hex_lower(b)[i]) by {
            if i < 2 {
                assert(hex_lower(b)[i] == head[i]);
            } else {
                assert(hex_lower(b)[i] == rest[i - 2]);
            }
        }
    }
}

// ---------------------------------------------------------------- HMAC

/// The HMAC-SHA256 tag of a message under a key.
pub uninterp spec fn hmac_sha256(key: Seq<u8>, message: Seq<u8>) -> Seq<u8>;

/// Computes an HMAC-SHA256 tag with the `hmac` and `sha2` crates
/// (`new_from_slice`, which accepts keys of any length, `update`,
/// `finalize`). Claimed: the tag is a function of key and message and is 32
/// bytes long.
#[verifier::external_body]
pub(crate) fn hmac_tag(key: &[u8], message: &[u8]) -> (res: Vec<u8>)
    ensures
        res@ == hmac_sha256(key@, message@),
        res@.len() == 32,
{
    let mut mac = hmac::Hmac::<sha2::Sha256>::new_from_slice(key).expect("HMAC accepts keys of any length");
    mac.update(message);
    mac.finalize().into_bytes().to_vec()
}

/// Checks a tag with `Mac::verify_slice`, which compares in constant time.
/// Claimed: it accepts exactly the tag that `hmac_tag` computes.
#[verifier::external_body]
pub(crate) fn hmac_verify(key: &[u8], message: &[u8], tag: &[u8]) -> (res: bool)
    ensures
        res == (hmac_sha256(key@, message@) == tag@),
{
    let mut mac = hmac::Hmac::<sha2::Sha256>::new_from_slice(key).expect("HMAC accepts keys of any length");
    mac.update(message);
    mac.verify_slice(tag).is_ok()
}


// ---------------------------------------------------------------- signing

/// The signed text of a request: timestamp, method and path (with query),
/// one per line.
pub open spec fn signed_message(timestamp: Seq<char>, method: Seq<char>, path: Seq<char>) -> Seq<char> {
    timestamp + "\n"@ + method + "\n"@ + path
}

/// The signature of a request: the lower-case hex HMAC-SHA256 tag of its
/// signed text (as UTF-8) under the shared secret (as UTF-8).
pub open spec fn signature_for(secret: Seq<char>, timestamp: Seq<char>, method: Seq<char>, path: Seq<char>) -> Seq<char> {
    hex_lower(hmac_sha256(vstd::utf8::encode_utf8(secret), vstd::utf8::encode_utf8(signed_message(timestamp, method, path))))
}

fn message_text(timestamp: &str, method: &str, path: &str) -> (res: String)
    ensures
        res@ == signed_message(timestamp@, method@, path@),
{
    let mut m = timestamp.to_owned();
    m.append("\n");
    m.append(method);
    m.append("\n");
    m.append(path);
    m
}

/// Signs a request for a peer.
pub fn sign(secret: &str, timestamp: &str, method: &str, path: &str) -> (res: Result<String, Error>)
    ensures
        match res {
            Ok(s) => s@ == signature_for(secret@, timestamp@, method@, path@) && s@.len() == 64
                && forall|i: int| 0 <= i < s@.len() ==> is_lower_hex_digit(#[trigger] s@[i]),
            Err(_) => false,
        },
{
    let m = message_text(timestamp, method, path);
    let tag = hmac_tag(secret.as_bytes(), m.as_str().as_bytes());
    let s = hex_encode(tag.as_slice());
    proof {
        lemma_hex_lower_shape(tag@);
    }
    Ok(s)
}

/// The longest a signed request stays valid, in seconds either way.
pub open spec fn max_skew() -> int {
    300
}

/// The header checks of a signed request, before any secret is tried:
/// both headers present, the timestamp an `i64` within five minutes of
/// `now`, the signature hexadecimal. What they yield: the signed text and
/// the tag to look for.
pub open spec fn spec_check_headers(timestamp: Option<Seq<char>>, signature: Option<Seq<char>>, now: int, method: Seq<char>, path: Seq<char>) -> Option<(Seq<char>, Seq<u8>)> {
    match (timestamp, signature) {
        (Some(t), Some(sig)) => match parse_integer(t, true, i64::MIN as int, i64::MAX as int) {
            None => None,
            Some(sent) => if now - sent > max_skew() || sent - now > max_skew() {
                None
            } else {
                match hex_decode(sig) {
                    None => None,
                    Some(tag) => Some((signed_message(t, method, path), tag)),
                }
            },
        },
        _ => None,
    }
}

/// Checks the headers of a signed request; the error is always
/// `Unauthorized`.
pub fn check_request_headers(timestamp: Option<&str>, signature: Option<&str>, now: i64, method: &str, path: &str) -> (res: Result<(String, Vec<u8>), Error>)
    ensures
        match res {
            Ok((m, tag)) => spec_check_headers(match timestamp { Some(t) => Some(t@), None => None }, match signature { Some(s) => Some(s@), None => None }, now as int, method@, path@) == Some((m@, tag@)),
            Err(e) => e is Unauthorized && spec_check_headers(match timestamp { Some(t) => Some(t@), None => None }, match signature { Some(s) => Some(s@), None => None }, now as int, method@, path@) is None,
        },
{
    let t = match timestamp { Some(t) => t, None => { return Err(Error::Unauthorized); } };
    let sig = match signature { Some(s) => s, None => { return Err(Error::Unauthorized); } };
    let sent = match parse_i64(t) { Some(v) => v, None => { return Err(Error::Unauthorized); } };
    let skew: i128 = now as i128 - sent as i128;
    if skew > 300 || skew < -300 {
        return Err(Error::Unauthorized);
    }
    let tag = match hex_decode_text(sig) { Some(v) => v, None => { return Err(Error::Unauthorized); } };
    Ok((message_text(t, method, path), tag))
}

/// Some secret signs `message` with `tag`.
pub open spec fn some_secret_signs(secrets: Seq<String>, message: Seq<char>, tag: Seq<u8>) -> bool {
    exists|i: int| 0 <= i < secrets.len() && hmac_sha256(vstd::utf8::encode_utf8(#[trigger] secrets[i]@), vstd::utf8::encode_utf8(message)) == tag
}

/// Accepts a signed text when one of the peers' secrets produced the tag.
pub fn match_peer_secret(secrets: &Vec<String>, message: &str, tag: &[u8]) -> (res: Result<(), Error>)
    ensures
        res is Ok <==> some_secret_signs(secrets@, message@, tag@),
        res matches Err(e) ==> e is Unauthorized,
{
    let mut i: usize = 0;
    while i < secrets.len()
        invariant
            i <= secrets@.len(),
            forall|j: int| 0 <= j < i ==> hmac_sha256(vstd::utf8::encode_utf8(#[trigger] secrets@[j]@), vstd::utf8::encode_utf8(message@)) != tag@,
        decreases secrets.len() - i,
    {
        if hmac_verify(secrets[i].as_str().as_bytes(), message.as_bytes(), tag) {
            return Ok(());
        }
        i = i + 1;
    }
    Err(Error::Unauthorized)
}

/// Whether a request is signed by one of the given peer secrets, at a time
/// within five minutes of `now`.
pub open spec fn spec_request_accepted(secrets: Seq<String>, timestamp: Option<Seq<char>>, signature: Option<Seq<char>>, now: int, method: Seq<char>, path: Seq<char>) -> bool {
    match spec_check_headers(timestamp, signature, now, method, path) {
        Some((m, tag)) => some_secret_signs(secrets, m, tag),
        None => false,
    }
}

/// Verifies a signed peer request against the configured peer secrets.
pub fn verify_request(secrets: &Vec<String>, timestamp: Option<&str>, signature: Option<&str>, now: i64, method: &str, path: &str) -> (res: Result<(), Error>)
    ensures
        res is Ok <==> spec_request_accepted(secrets@, match timestamp { Some(t) => Some(t@), None => None }, match signature { Some(s) => Some(s@), None => None }, now as int, method@, path@),
        res matches Err(e) ==> e is Unauthorized,
{
    let (m, tag) = check_request_headers(timestamp, signature, now, method, path)?;
    match_peer_secret(secrets, m.as_str(), tag.as_slice())
}

// ---------------------------------------------------------------- exports

/// The moment an RFC 3339 text names, as seconds since the epoch and
/// nanoseconds, or nothing when the text is not RFC 3339.
pub uninterp spec fn rfc3339_instant(s: Seq<char>) -> Option<(i64, u32)>;

/// Reads an RFC 3339 timestamp with chrono's `DateTime::parse_from_rfc3339`
/// and takes `timestamp()` and `timestamp_subsec_nanos()`. Claimed: a
/// function of the text alone.
#[verifier::external_body]
pub(crate) fn parse_rfc3339(s: &str) -> (res: Option<(i64, u32)>)
    ensures
        res == rfc3339_instant(s@),
{
    chrono::DateTime::parse_from_rfc3339(s).ok().map(|d| (d.timestamp(), d.timestamp_subsec_nanos()))
}

/// The start of time for a peer that has never been synchronised.
pub open spec fn epoch_text() -> Seq<char> {
    "1970-01-01T00:00:00Z"@
}

/// An export request's window: items fetched after `since` (the epoch when
/// absent; it must be RFC 3339), at most `limit` of them (100 when absent),
/// never fewer than one nor more than `max`.
pub open spec fn spec_export_window(since: Option<Seq<char>>, limit: Option<u32>, max: u32) -> Result<(Seq<char>, u32), Seq<char>> {
    let s = match since { Some(x) => x, None => epoch_text() };
    if rfc3339_instant(s) is None {
        Err("since must be RFC3339"@)
    } else {
        let l = match limit { Some(x) => x, None => 100u32 };
        Ok((s, if l < 1 { 1u32 } else if l > max { max } else { l }))
    }
}

/// The window of an export request.
pub fn export_window(since: Option<&str>, limit: Option<u32>, max: u32) -> (res: Result<(String, u32), Error>)
    requires
        max >= 1,
    ensures
        match res {
            Ok((s, l)) => spec_export_window(match since { Some(x) => Some(x@), None => None }, limit, max) == Ok::<(Seq<char>, u32), Seq<char>>((s@, l)),
            Err(Error::Invalid(m)) => spec_export_window(match since { Some(x) => Some(x@), None => None }, limit, max) == Err::<(Seq<char>, u32), Seq<char>>(m@),
            Err(_) => false,
        },
{
    let s: String = match since { Some(x) => x.to_owned(), None => "1970-01-01T00:00:00Z".to_owned() };
    if parse_rfc3339(s.as_str()).is_none() {
        return Err(Error::Invalid("since must be RFC3339".to_owned()));
    }
    let l = match limit { Some(x) => x, None => 100u32 };
    let clamped = if l < 1 { 1u32 } else if l > max { max } else { l };
    Ok((s, clamped))
}

/// Whether an item may leave the node: only items marked public do.
pub open spec fn is_public(item: Item) -> bool {
    item.visibility@ == "public"@
}

/// The items of an export batch: those marked public, in order.
pub open spec fn exported(items: Seq<Item>) -> Seq<Item> {
    items.filter(|i: Item| is_public(i))
}

/// Keeps the items of a batch that may be exported.
pub fn public_only(items: Vec<Item>) -> (res: Vec<Item>)
    ensures
        res@ == exported(items@),
{
    let ghost all = items@;
    let mut out: Vec<Item> = Vec::new();
    for item in it: items.into_iter()
        invariant
            it.seq() == all,
            out@ == all.take(it.index() as int).filter(|i: Item| is_public(i)),
    {
        proof {
            let k = it.index() as int;
            assert(all.take(k + 1).drop_last() == all.take(k));
            reveal_with_fuel(Seq::<Item>::filter, 1);
        }
        if crate::json::same_text(&item.visibility, "public") {
            out.push(item);
        }
    }
    assert(all.take(all.len() as int) == all);
    out
}

/// A peer is due for synchronisation when it never was, when its last
/// synchronisation time does not read as RFC 3339, or when that time lies
/// before `cutoff` (seconds, nanoseconds).
pub open spec fn spec_peer_due(last_sync_at: Option<Seq<char>>, cutoff: (i64, u32)) -> bool {
    match last_sync_at {
        None => true,
        Some(t) => match rfc3339_instant(t) {
            None => true,
            Some((s, n)) => s < cutoff.0 || (s == cutoff.0 && n < cutoff.1),
        },
    }
}

/// Whether a peer is due for synchronisation.
pub fn peer_due(peer: &Peer, cutoff: (i64, u32)) -> (res: bool)
    ensures
        res == spec_peer_due(opt_view(peer.last_sync_at), cutoff),
{
    match &peer.last_sync_at {
        None => true,
        Some(t) => match parse_rfc3339(t.as_str()) {
            None => true,
            Some((s, n)) => s < cutoff.0 || (s == cutoff.0 && n < cutoff.1),
        },
    }
}

/// A new peer's shared secret must have at least 32 characters.
pub fn check_peer_secret(secret: &str) -> (res: Result<(), Error>)
    ensures
        res is Ok <==> secret@.len() >= 32,
        res matches Err(e) ==> (e matches Error::Invalid(m) && m@ == "peer secret must be at least 32 characters"@),
{
    if secret.unicode_len() < 32 {
        Err(Error::Invalid("peer secret must be at least 32 characters".to_owned()))
    } else {
        Ok(())
    }
}

/// The address a new peer is stored under: its base URL as parsed (a URL
/// that does not parse is refused with the parser's message), without
/// trailing slashes. The parsed URL is what the public-address check reads.
pub fn peer_address(base_url: &str) -> (res: Result<(WebUrl, String), Error>)
    ensures
        match res {
            Ok((u, stored)) => url_parse(base_url@) == Ok::<WebUrl, Seq<char>>(u) && stored@ == trim_slashes(u.href@),
            Err(Error::Invalid(m)) => url_parse(base_url@) == Err::<WebUrl, Seq<char>>(m@),
            Err(_) => false,
        },
{
    match parse_url(base_url) {
        Ok(u) => {
            let stored = trim_trailing_slashes(u.href.as_str());
            Ok((u, stored))
        },
        Err(e) => Err(Error::Invalid(e)),
    }
}

/// A signed pull request to a peer.
#[derive(Debug)]
pub struct PeerRequest {
    pub url: WebUrl,
    pub timestamp: String,
    pub signature: String,
}

/// The address of a peer's export: its base URL with the export path, and
/// `since` and `limit` as query pairs.
pub open spec fn spec_peer_url(base_url: Seq<char>, since: Seq<char>, limit: u32) -> Result<WebUrl, Seq<char>> {
    match url_parse(base_url + "/federation/v1/items"@) {
        Err(e) => Err(e),
        Ok(u) => Ok(url_append_pair(url_append_pair(u, "since"@, since), "limit"@, decimal(limit as nat))),
    }
}

/// The request that pulls a peer's public items since its last
/// synchronisation, signed at `now` (seconds since the epoch) over GET and
/// the export path with its query.
pub fn peer_request(peer: &Peer, now: i64, max_items: u32) -> (res: Result<PeerRequest, Error>)
    ensures
        match res {
            Ok(r) => {
                let since = match opt_view(peer.last_sync_at) { Some(s) => s, None => epoch_text() };
                &&& spec_peer_url(peer.base_url@, since, max_items) == Ok::<WebUrl, Seq<char>>(r.url)
                &&& r.timestamp@ == signed_decimal(now as int)
                &&& r.signature@ == signature_for(peer.shared_secret@, r.timestamp@, "GET"@, r.url.path_and_query@)
            },
            Err(Error::Invalid(m)) => {
                let since = match opt_view(peer.last_sync_at) { Some(s) => s, None => epoch_text() };
                spec_peer_url(peer.base_url@, since, max_items) == Err::<WebUrl, Seq<char>>(m@)
            },
            Err(_) => false,
        },
{
    let since: String = match &peer.last_sync_at { Some(s) => s.clone(), None => "1970-01-01T00:00:00Z".to_owned() };
    let mut address = peer.base_url.clone();
    address.append("/federation/v1/items");
    let u = match parse_url(address.as_str()) {
        Ok(u) => u,
        Err(e) => { return Err(Error::Invalid(e)); },
    };
    let limit = decimal_text(max_items as u64);
    let u = append_query_pair(&u, "since", since.as_str());
    let u = append_query_pair(&u, "limit", limit.as_str());
    let timestamp = signed_text(now);
    let signature = match sign(peer.shared_secret.as_str(), timestamp.as_str(), "GET", u.path_and_query.as_str()) {
        Ok(s) => s,
        Err(e) => { return Err(e); },
    };
    Ok(PeerRequest { url: u, timestamp, signature })
}

/// A peer's answer is read only when its status is a success; otherwise
/// the pull fails with the status line.
pub fn check_peer_status(status: u16, status_line: &str) -> (res: Result<(), Error>)
    ensures
        match res {
            Ok(()) => 200 <= status <= 299,
            Err(Error::Invalid(m)) => !(200 <= status <= 299) && m@ == "peer returned "@ + status_line@,
            Err(_) => false,
        },
{
    if 200 <= status && status <= 299 {
        Ok(())
    } else {
        let mut m = "peer returned ".to_owned();
        m.append(status_line);
        Err(Error::Invalid(m))
    }
}

/// The tags an exported item carries: its `tags_json` when that reads as a
/// JSON array of strings, none otherwise.
pub open spec fn spec_item_tags(tags_json: Seq<char>) -> Seq<Seq<char>> {
    match json_parse(vstd::utf8::encode_utf8(tags_json)) {
        Ok(v) => match dec_strings(v) {
            Ok(t) => t,
            Err(_) => Seq::<Seq<char>>::empty(),
        },
        Err(_) => Seq::<Seq<char>>::empty(),
    }
}

/// The raw document an exported item carries: its `raw_json` when that
/// reads as JSON.
pub open spec fn spec_item_raw(raw_json: Option<Seq<char>>) -> Option<JsonValue> {
    match raw_json {
        None => None,
        Some(r) => match json_parse(vstd::utf8::encode_utf8(r)) {
            Ok(v) => Some(v),
            Err(_) => None,
        },
    }
}

/// The new item that merges an item exported by a peer.
pub open spec fn spec_candidate(item: Item) -> crate::model::NewItemV {
    crate::model::NewItemV {
        external_id: item.external_id@,
        url: opt_view(item.url),
        title: opt_view(item.title),
        summary: opt_view(item.summary),
        content: opt_view(item.content),
        author: opt_view(item.author),
        published_at: item.published_at@,
        tags: spec_item_tags(item.tags_json@),
        raw: spec_item_raw(opt_view(item.raw_json)),
        visibility: item.visibility@,
    }
}

fn item_tags(tags_json: &String) -> (res: Vec<String>)
    ensures
        texts_view(res@) == spec_item_tags(tags_json@),
{
    match parse_json_bytes(tags_json.as_str().as_bytes()) {
        Ok(v) => match crate::ingest::jsonfeed::decode_strings(&v) {
            Ok(t) => {
                assert(texts_view(t@) == view_strings(t@));
                t
            },
            Err(_) => {
                let t: Vec<String> = Vec::new();
                assert(texts_view(t@) =~= Seq::<Seq<char>>::empty());
                t
            },
        },
        Err(_) => {
            let t: Vec<String> = Vec::new();
            assert(texts_view(t@) =~= Seq::<Seq<char>>::empty());
            t
        },
    }
}

/// Turns an item a peer exported into the new item that merges it here.
pub fn candidate_from_item(item: Item) -> (res: NewItem)
    ensures
        new_item_view(res) == spec_candidate(item),
{
    let tags = item_tags(&item.tags_json);
    let raw = match &item.raw_json {
        None => None,
        Some(r) => match parse_json_bytes(r.as_str().as_bytes()) {
            Ok(v) => Some(v),
            Err(_) => None,
        },
    };
    NewItem {
        external_id: item.external_id,
        url: item.url,
        title: item.title,
        summary: item.summary,
        content: item.content,
        author: item.author,
        published_at: item.published_at,
        tags,
        raw,
        visibility: item.visibility,
    }
}


// ---------------------------------------------------------------- laws

/// A request that a node signs with the secret of one of the receiving
/// node's peers, stamped with a time (written as `Display` writes an `i64`)
/// at most five minutes away from the receiver's clock, is accepted.
pub proof fn law_signed_request_accepted(secrets: Seq<String>, k: int, sent: i64, now: int, method: Seq<char>, path: Seq<char>)
    requires
        0 <= k < secrets.len(),
        now - sent <= 300,
        sent - now <= 300,
    ensures
        spec_request_accepted(
            secrets,
            Some(signed_decimal(sent as int)),
            Some(signature_for(secrets[k]@, signed_decimal(sent as int), method, path)),
            now,
            method,
            path,
        ),
{
    lemma_parse_signed_decimal(sent);
    let t = signed_decimal(sent as int);
    let tag = hmac_sha256(vstd::utf8::encode_utf8(secrets[k]@), vstd::utf8::encode_utf8(signed_message(t, method, path)));
    lemma_hex_roundtrip(tag);
    assert(spec_check_headers(Some(t), Some(hex_lower(tag)), now, method, path) == Some((signed_message(t, method, path), tag)));
    assert(some_secret_signs(secrets, signed_message(t, method, path), tag));
}

/// A request without both headers, or stamped more than five minutes away
/// from the receiver's clock, is refused whatever its signature.
pub proof fn law_stale_or_unsigned_refused(secrets: Seq<String>, timestamp: Option<Seq<char>>, signature: Option<Seq<char>>, now: int, method: Seq<char>, path: Seq<char>)
    requires
        timestamp is None || signature is None || match parse_integer(timestamp->0, true, i64::MIN as int, i64::MAX as int) {
            Some(sent) => now - sent > 300 || sent - now > 300,
            None => true,
        },
    ensures
        !spec_request_accepted(secrets, timestamp, signature, now, method, path),
{
}

/// A node with no peers accepts no request.
pub proof fn law_no_peers_no_access(timestamp: Option<Seq<char>>, signature: Option<Seq<char>>, now: int, method: Seq<char>, path: Seq<char>)
    ensures
        !spec_request_accepted(Seq::<String>::empty(), timestamp, signature, now, method, path),
{
}

/// A receiver decodes a signature back into exactly the HMAC-SHA256 tag of
/// the signed text under the secret: the hex in the header carries the tag
/// and nothing else.
pub proof fn law_signature_decodes_to_tag(secret: Seq<char>, timestamp: Seq<char>, method: Seq<char>, path: Seq<char>)
    ensures
        hex_decode(signature_for(secret, timestamp, method, path)) == Some(
            hmac_sha256(vstd::utf8::encode_utf8(secret), vstd::utf8::encode_utf8(signed_message(timestamp, method, path))),
        ),
{
    lemma_hex_roundtrip(hmac_sha256(vstd::utf8::encode_utf8(secret), vstd::utf8::encode_utf8(signed_message(timestamp, method, path))));
}

/// An export never hands out fewer than one nor more than the configured
/// maximum of items.
pub proof fn law_export_bounded(since: Option<Seq<char>>, limit: Option<u32>, max: u32)
    requires
        max >= 1,
    ensures
        spec_export_window(since, limit, max) matches Ok((_, l)) ==> 1 <= l <= max,
{
}


/// Only items marked public leave the node: every item of an export batch
/// is public, and every public item offered is exported.
pub proof fn law_exports_are_public(items: Seq<Item>)
    ensures
        forall|i: int| 0 <= i < exported(items).len() ==> is_public(#[trigger] exported(items)[i]),
        forall|i: int| 0 <= i < items.len() && is_public(items[i]) ==> #[trigger] exported(items).contains(items[i]),
{
    broadcast use vstd::seq_lib::group_filter_ensures;
    let pred = |i: Item| is_public(i);
    assert forall|i: int| 0 <= i < items.len() && is_public(items[i]) implies #[trigger] exported(items).contains(items[i]) by {
        assert(pred(items[i]));
    }
}

/// An export starts at the requested time when one is given and reads as
/// RFC 3339, and at the epoch only when none is given.
pub proof fn law_export_starts_at_since(since: Seq<char>, limit: Option<u32>, max: u32)
    requires
        rfc3339_instant(since) is Some,
    ensures
        match spec_export_window(Some(since), limit, max) {
            Ok((start, _)) => start == since,
            Err(_) => false,
        },
        match spec_export_window(None, limit, max) {
            Ok((start, _)) => start == "1970-01-01T00:00:00Z"@,
            Err(_) => rfc3339_instant("1970-01-01T00:00:00Z"@) is None,
        },
{
}

/// A peer's item is merged as it was exported: same external id, URL,
/// title, summary, content, author, publication date and visibility.
pub proof fn law_candidate_keeps_fields(item: Item)
    ensures
        spec_candidate(item).external_id == item.external_id@,
        spec_candidate(item).url == opt_view(item.url),
        spec_candidate(item).title == opt_view(item.title),
        spec_candidate(item).summary == opt_view(item.summary),
        spec_candidate(item).content == opt_view(item.content),
        spec_candidate(item).author == opt_view(item.author),
        spec_candidate(item).published_at == item.published_at@,
        spec_candidate(item).visibility == item.visibility@,
{
}

} // verus!

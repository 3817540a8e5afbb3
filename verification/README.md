# sidefeed

A small aggregation node: it reads RSS, Atom, JSON Feed and ActivityPub
documents into canonical items, projects them into named feeds through
include/exclude filters, and exchanges cached public items with explicitly
trusted peers over HMAC-signed pull requests.

## Layout

- `src/` is the verified library. Its functions are checked by Verus against
  their contracts; calls into serde_json, feed-rs, quick-xml, rss, url, uuid,
  hmac/sha2, hex, chrono and std sit behind small trusted wrappers (and a few
  one-for-one converters used inside them) whose doc comments say what is
  assumed of them and which Verus does not check.
  - `ingest` (with `ingest/jsonfeed`): document parsing, OPML import, the
    decisions of a source fetch (headers, redirects, final status, bounded
    bodies) and the poll schedule.
  - `federation`: request signing and verification, export windows, peer
    pulls and merging of exported items.
  - `store`: feed filters, stable item ids, stored JSON texts and leases.
  - `web`: URL model and the public-address policy.
  - `config`, `error`, `api`, `ai`, `json`, `text`, `model`, and the
    prototype's `models`, `db`, `errors` and `api::{fetch, update}`.
- `tests/` runs the library on concrete values.
- `app/` is the service around the library: environment, HTTP (axum and the
  actix prototype), SQLite, DNS, outgoing requests, the polling worker and
  the floating-point vector scoring.

# rainbow_blog

The decision logic of a Medium-style blogging platform, written in Verus and proved
against its contracts: who may read paid articles, the creator earnings ledger, the
realtime connection registry, custom-domain verification, payment-provider webhooks and
request bodies, search and listing queries, comment threads, recommendation merging,
and the small rules of articles, bookmarks, follows, tags, series, publications and media.

- `src/` is the verified library, one module per area. Each public function states in
  its `ensures` what it returns; the `law_*` proof functions state properties that span
  several calls (such as that unsubscribing undoes subscribing, or that escaping quotes
  can be undone).
- `tests/` runs the library on concrete values.
- `app/` is the unverified glue: JSON to the library's plain values, the clock,
  serialisable copies of reported values, and the few floating-point formulas and
  rankings.

Calls into other crates (HMAC-SHA256, hexadecimal decoding, UUIDs, Unicode case
mapping, the system clock) go through small trusted wrappers whose contracts say what
each call returns.

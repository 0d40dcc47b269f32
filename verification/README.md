# cloudflare

A client model for the Cloudflare API whose request construction, record
decoding and error reporting are verified with Verus.

- `src/` is the verified library:
  - `text.rs`, `net.rs`, `ip_parse.rs`: numerals, string order, the textual
    forms of IPv4 and IPv6 addresses, and parsing addresses from text, with
    the proof that an address's text parses back to it;
  - `framework/`: JSON values and their texts, request bodies written member by
    member, URL queries written pair by pair, credentials, environments and
    endpoint URLs, the blocking client's decisions, and API failures with their
    equality and display text;
  - `endpoints/`: the DNS record and cache purge endpoints: their methods,
    paths, queries and JSON bodies, and how a DNS record's fields decode.
- `app/` holds the HTTP side: the `reqwest` client that sends what the library
  prepares, the serde forms of the response types, and the error trait impls.
- `tests/` exercises the library from outside.

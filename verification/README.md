# servicenow_rs

A client library for the ServiceNow REST API whose logic is verified with
Verus.

- `src/` is the verified library: query building and encoding, record and
  field-value parsing, schema definitions with overlays and relationship
  lookup, record-number prefixes, pagination, related-record batching,
  aggregate and approval requests, catalog variables, attachment checks,
  GraphQL routing, response interpretation, the retry decisions, and the
  configuration layering of the client. Each public function states its
  result in `ensures`; the proof functions named `law_*` state properties
  that span several functions.
- `app/` is the asynchronous client around it: the `reqwest` transport,
  authentication headers, back-off and rate limiting, configuration files
  and environment variables, and the request sequences that hand each answer
  back to the library.
- `tests/` runs the library on concrete values.

Outside crates are called from `src/` only behind small trusted wrappers
(`serde_json` parsing and printing, `url` parsing, `base64` encoding,
`zeroize` storage, and a few `std` string operations), each with a doc comment
saying what its contract claims.

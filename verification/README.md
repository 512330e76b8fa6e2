# goal_digger

The verified core of the Goal Digger dashboard server: the parts of the
server that decide rather than compute probabilities.

- `src/text.rs` — UTF-8 byte views of text: finding and cutting at ASCII
  separators, splitting, prefixes, and the `str`/`Path` operations of std
  that the library calls.
- `src/urlcode.rs` — percent-decoding of URL components.
- `src/query.rs` — `Query`: the decoded key/value pairs of a request URL.
- `src/market.rs` — the outright-winner market table, outcome-row lookups,
  and the parameters of the edge and tournament requests.
- `src/chat.rs` — the chat agent: system prompt, tool dispatch, request
  checks, the step taken on each model reply, and the query strings that
  tools hand to the engine endpoints.
- `src/serve.rs` — routing, static-file paths and content types.
- `src/live.rs` — which live fixtures the live board prices.
- `app/` — the HTTP server: I/O, JSON, the model API client and the
  floating-point engine calls.

Verify with Verus; the tests under `tests/` run the compiled library.

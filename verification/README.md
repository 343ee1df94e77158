# claude_code_proxy

The verified core of an Anthropic-to-OpenAI gateway with an admin dashboard.

- `src/` is the library, checked by Verus:
  - `error.rs`: error kinds, the HTTP status and Anthropic error type of each,
    the error envelope and the `retry-after` value.
  - `auth.rs`: client registry, key extraction from request headers,
    SHA-256 key digests (compared with `subtle`'s `ct_eq`, whose constant
    timing is that crate's promise, not something proved here), route
    authorization and per-client admission (rate window and concurrency
    permits).
  - `rate.rs`: the sliding one-minute request window and its laws.
  - `text.rs`: comma-separated lists, trimming and decimal numerals.
  - `dashboard.rs`: dashboard answers, password hashing and sign-in
    decisions, session checks and version bookkeeping.
- `tests/` exercises the library on concrete values.
- `app/` is the command-line program: configuration loading, the SQLite
  store and the HTTP handlers, which call into the library for every decision.

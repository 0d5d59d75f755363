# async_acme

The decisions and the data of an ACME client (RFC 8555), as a library that is verified with Verus.

- `src/acme.rs`: what client and server tell each other, and the errors, with their texts.
- `src/jose.rs`, `src/jose_laws.rs`: signed requests, key authorizations, and what an answer's
  status means.
- `src/retry_after.rs`: the header `Retry-After`.
- `src/rustls_helper/`: the way to a certificate. Each of `order`, `drive_order` and `authorize`
  takes a state and what came of the last action to the next state, which says what to do next.
  What a cache gives is read on the way, by `load_certified_key`.
  `duration_until_renewal_attempt` says when to renew.
- `src/crypto.rs`, `src/base64url.rs`, `src/json.rs`, `src/ip.rs`, `src/text.rs`, `src/time.rs`: what
  these are built on.

`app/` performs the actions: it sends the requests, reads the answers and waits. Accounts, caches
and the making of certificates are traits there, for its users to implement.

Functions whose name starts with `law_` state what holds of the library as a whole.

The library trusts a few functions of other crates: SHA-256 and ECDSA of `ring`, base64, JSON strings
of `serde_json`, HTTP dates of `httpdate`, PEM and private keys of `rustls`. Of the standard library
it trusts `str::trim`, `Debug` for `str` and the system clock. Each stands in a small function that is marked `external_body`, with what is claimed of it
in its contract.

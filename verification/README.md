# ably_core

A client library core for the Ably realtime and REST APIs, written in
Verus: the protocol messages and their encodings, authentication,
channel and connection state machines, message encryption (AES-CBC),
delta decoding (VCDIFF), HTTP resilience (circuit breaker, rate limiter,
retries) and history replay, each with contracts that Verus proves.

Layout:

- `src/` — the verified library. Calls into outside crates (`aes`/`cbc`,
  `base64`, `hmac`/`sha2`, `rand`, `uuid`, `serde_json`) and into parts of
  std that the verifier has no specification for go through small trusted
  wrappers whose contracts are stated in their doc comments.
- `tests/` — tests of the library on concrete values.
- `app/` — what the verifier does not take: the WebSocket and HTTP
  transports, async loops that send, wait and retry as the library
  decides, serde forms of the library's types, and tracing.

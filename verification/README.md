# omninova_gateway

The decision logic of the OmniNova HTTP gateway, written in Verus and proved
against its contracts: Feishu and WeCom webhook security (token checks,
decryption, replay and dedup windows), card callbacks and panels, command
parsing, rate limiting, session keys, lineage and the session store, the
outbox and its retries, and the API log queries.

Layout:

- `src/` — the verified library. Each module states its model with spec
  functions and proves its laws as public proof functions. Calls into
  outside crates (`aes`, `base64`, `sha2`, `serde_json`, `time`, `chrono`,
  `uuid`) go through small trusted wrappers whose contracts say what the
  crates' documentation promises.
- `tests/` — tests that run the library with the real outside crates.
- `app/` — the I/O around the library: HTTP responses with `axum`, the
  SQLite log store, the session store file, JSON wire forms with `serde`,
  and texts that format floating-point numbers.

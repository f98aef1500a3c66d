# tachyon_server

The decision logic of the Tachyon knowledge-management server, written in
Verus: every function in `src/` carries a contract, and Verus proves the
code against it.

## Layout

- `src/websocket/` – the collaboration core: operational transformation of
  concurrent edits (with a proof that both orders of any two edits within a
  document give the same text), per-document edit history,
  the connection registry (rooms, presence, stale-client cleanup) and the
  relay registry of the binary sync protocol, with the frame formats.
- `src/routes/` – what the HTTP handlers decide: request validation, login
  and token-refresh outcomes, SCIM provisioning (filters, patches, user and
  group resources), search windows, audit export formats, review workflow,
  password-reset and verification tokens, repositories, teams and roles.
- `src/validation/` – validated values: usernames, passwords, e-mail
  addresses, API keys, search queries, filters, sorting and pagination.
- `src/sso/` – SAML response parsing, the assertion consumer's decision
  (checks, then replay protection), OIDC and LDAP outcomes.
- `src/sync.rs` – file-sync decisions: slugs, titles, front matter, and
  what a changed file means for its document.
- `src/totp.rs`, `src/crypto.rs` – one-time passwords, hashes and signatures
  over the hashing crates.
- `src/storage/`, `src/truelayer.rs`, `src/webhook_delivery.rs` – storage
  URLs and failures, the payment client's state, webhook retry policy.
- `src/table.rs`, `src/filters.rs`, `src/text.rs` – a verified key–value
  table, lemmas about filtering, and text helpers.
- `app/` – the asynchronous shell: locks and channels around the registries,
  the heartbeat loop, socket message dispatch, the SAML assertion consumer
  with its replay store, serde wire forms and the signing of access tokens.
- `tests/` – tests of the library on concrete values.

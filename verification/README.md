# school_portal

A school portal back end: schools, users with roles, students and their
payments, Argon2 password hashes and HS256 access tokens.

- `src/` is the library, written in Verus and verified: the in-memory store
  (`models::store`), school slugs (`models::slug`), the request handlers and
  the bearer-token check (`auth::handlers`, `auth::middleware`), password
  and token services (`auth::service`), and text helpers (`text`).
- `app/` is the HTTP server around it (axum and tokio): routes, JSON forms of
  the records, configuration from the environment, logging, and the shared
  lock around the store.
- `tests/` exercises the library on concrete values.

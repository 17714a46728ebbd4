# ferro

The verified core of Ferro's authentication and HTTP API layer, written in
Verus. Every function in `src/` carries a `requires`/`ensures` contract that
Verus proves; the laws of the library (permission hierarchy, session table
read-after-write, TOTP drift acceptance, CSRF round trip, sorted-list
uniqueness, escaping safety, the roles editor's permission round trip) are public proof functions beside the code.

Layout:

- `src/totp.rs` — RFC 6238 codes: URI building, step counter, dynamic
  truncation, generation and windowed verification.
- `src/policy.rs`, `src/guards.rs` — role-based access control and the
  request guards built on it.
- `src/session.rs`, `src/service.rs` — session tokens, lifetimes, the
  in-memory session table and the login decisions.
- `src/csrf.rs`, `src/request_auth.rs` — cookie and `Authorization` header
  parsing, the double-submit decision, token checks and request admission.
- `src/preview.rs` — HTML escaping, the per-field sections and the preview
  document frame.
- `src/forms.rs` — the admin editors' save bodies and validation messages,
  the schema editor's save and field ids, and the mapping between stored
  permissions and the roles editor's flags.
- `src/pages.rs` — the admin pages' load-error lines, the schema list's
  field summary, the user editor's role checkboxes and the TOTP settings
  panel's state machine.
- `src/api_doc.rs` — the OpenAPI description of the REST surface as plain
  values, with its laws (references resolve, path parameters are declared,
  tags are declared, mutations need a bearer token).
- `src/tokens.rs`, `src/client.rs`, `src/admin.rs`, `src/ordering.rs` — the
  admin client's token slots, refresh policy, display helpers and sorting.
- `src/primitives.rs` — trusted wrappers over `base32`, `hmac`/`sha1` and
  `rand`.
- `app/` — unverified glue: axum middleware, the login service and request
  authentication over store traits, error answers, JWT encoding with
  `jsonwebtoken`, the conversion of the OpenAPI description to `utoipa`, the clock, browser
  storage, and the floating-point rate limiter.

Instants are passed as UNIX timestamps (seconds for TOTP and JWT claims,
nanoseconds for sessions).

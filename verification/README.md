# Sharam

A self-hostable ledger for invite-only ventures: members pay periodic dues
into a shared pool, attach receipts, and see where the pool stands.

The rules of the ledger live in the `sharam` library (`src/`), written in
Verus: every function there carries a contract and is proved against it,
except a small set of trusted wrappers around outside code whose contracts
are taken as given, each with a doc comment saying what it claims:
Argon2 hashing and verification (`argon2`), JWT signing, signature checks
and header reading, the RSA key check and the clock jsonwebtoken reads
(`jsonwebtoken`), mail-address parsing (`lettre`), the clock, UTC calendar
fields and minute formatting (`chrono`), time-zone lookup (`chrono-tz`),
fresh object ids (`uuid`), and a few `std` string and character operations
(`String::push`, `str::to_lowercase`, `char::to_uppercase`).

Session tokens and Google ID tokens are checked in the library: the
signature with the shared secret or Google's key, then, in the verified
code, the expiry, issuer, audience and the verified email. The server
only turns claims into JSON text and back (serde) and fetches and caches
Google's key set.

- `common` — cadences, periods and their text, tenant slugs, timestamps,
  configuration.
- `ledger` — reshaping database errors, period roll-ups, joins and orderings
  of ventures and members, the invite and acceptance plans, settings patches.
- `auth` — password hashing (Argon2id), session tokens and their claims,
  Google ID tokens and the rules for accepting them.
- `storage` — proof-of-payment keys and the bucket rules.
- `gateway` — what each HTTP route checks and answers: bearer tokens, roles,
  validation, error statuses, the pool summary and the accumulation chart,
  invite emails.
- `ui` — the web front end's validation and formatting: money, slugs, dues
  amounts, labels, form checks.
- `text` — character-level helpers the rest is built on.

Laws that span functions (round trips of periods and cadences, the order of
period texts, session identity, password hash-then-verify, safety and
reversibility of escaped HTML, proof-key fragments, validity of suggested
slugs and agreement of the slug checks, a repeated sign-in accepting
nothing new, settings patches as merges) are stated as public proof
functions next to the code they are about.

`app/` is the HTTP server around the library: configuration loading, the
database and object-store clients, SMTP, token signing, and the axum routes.
`tests/` exercises the library on concrete values.

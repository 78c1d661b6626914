# carteira-investimentos

The rules of a small investment-portfolio web application, verified with Verus:
users sign up and sign in (session cookie holding a JWT), record assets (name,
ticker, category, quantity, unit price) and see the portfolio's total value.

Layout:

- `src/amount.rs` — decimal amounts as mantissa/scale pairs; multiplication,
  addition and fixed-point formatting done by `rust_decimal` behind trusted wrappers.
- `src/portfolio.rs` — the portfolio total (`Decimal`'s `Sum`), and the proof that
  it equals the exact sum of `quantity × unit price` whenever no digit is lost.
- `src/text.rs`, `src/ids.rs`, `src/config.rs` — white space and trimming, decimal
  digits, identifiers (`uuid`), the `APP_PORT` setting.
- `src/passwords.rs` — Argon2 hashing and checking behind trusted wrappers.
- `src/session.rs` — reading the session token from a `Cookie` header, the
  `Set-Cookie` text of login and logout, and the round trip between them.
- `src/pages.rs`, `src/handlers/` — every decision of the request handlers, as
  functions from what was read to the next database call or the page to answer.
- `app/` — the Axum server, the SQLx queries, JWTs (their claims need serde's
  derives), and the HTML of the pages.

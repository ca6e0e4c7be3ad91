# Mille

A three-player Tysiąc (Thousand) card game: a rules engine, the projections
that decide what each audience sees, the game server's room rules, and the web
front end's pages. The library in `src/` is verified with Verus; `app/` holds
the two servers around it (HTTP, WebSockets, SQLite, clocks, logging).

## Layout

- `src/cards.rs` — cards, card sets, decks, the seeded shuffle, trick winners.
- `src/tysiac.rs` and `src/tysiac/` — the engine: types, their mathematical
  models (`model`), the rules as specifications (`spec`), the executable engine
  (`engine`), legal actions (`legal`), proofs of marriages (`challenge`), seed
  derivation (`seeding`), and the laws that hold across actions (`laws`).
- `src/protocol.rs` — wire types and the observer, player and referee views.
- `src/server.rs` and `src/server/` — room rules: validation, commands and
  retries, the table animation, starting and advancing matches, the audit
  trail, seats and sockets.
- `src/web.rs` — HTML escaping, the classic observer table, the pages, and the
  proxy's forwarding addresses.
- `src/i18n.rs` — English, German and Polish UI strings.
- `app/` — `mille game` runs the game server, `mille web` the web server.

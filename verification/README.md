# Arkyve Refresh Shop

A helper for the secret shop of a game: it watches the shop, decides what to
buy and when to refresh, and shows a player how a run fares.

The rules are a library in `src/`, written in Verus: every function states what
it does and is proved to do it. The program around it is in `app/`.

- `src/domain/` — the shop, the filter, and the controller that turns events
  into actions. `control/model.rs` says what the controller does,
  `control/laws.rs` what follows from that.
- `src/gui/` — what the window shows and reads: durations and amounts, the
  settings it saves, the run tab, the picture of the game, its log.
- `src/http.rs`, `src/notifications.rs` — requests and webhooks, apart from
  sending them.
- `src/install.rs`, `src/migrate.rs` — fetching a pinned installer and cleaning
  up after older builds, step by step.
- `src/input.rs`, `src/layout.rs` — where and when a click goes out.
- `src/startup.rs`, `src/journal.rs`, `src/error.rs`, `src/level.rs` — how the
  program starts, what it records, and how it fails.
- `src/text.rs`, `src/numbers.rs` — text and numbers as they are spelled.
- `src/doubles.rs` — numbers of double precision and how they round, told in
  whole numbers.
- `tests/` — the library from outside.

What rests on other crates stands behind functions marked
`#[verifier::external_body]`, each with a comment on what it takes for granted.

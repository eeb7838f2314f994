# code_usage

Usage accounting for three AI coding command-line tools (Command Code, Grok and OpenCode),
written in Verus: the parsers of their local logs, database rows and plan-limit payloads, the
today / 7 days / 30 days windows, the menu-bar title, the plan-limit cache, the saved-account
stores and the user preferences, each with a contract proved by Verus.

Layout:

- `src/` — the verified library.
  - `json.rs`, `text.rs`, `time.rs`, `order.rs` — JSON documents, strings, instants and a
    stable sort, with the calls into `serde_json` and `chrono` behind trusted wrappers.
  - `usage/` — the parsers of each tool's data, the windows, the title and the cache.
  - `accounts/` — listing and switching the saved logins of each tool: the library decides
    which files to write and with what; the caller writes them.
  - `preferences.rs` — the favorite tool, read from and written to its JSON file.
- `app/` — the menu-bar app around the library (file, database and network I/O, the float
  arithmetic of costs and percentages); it is not verified.
- `tests/` — tests of the library.

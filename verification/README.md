# file_manager

A quick-access manager for files, folders, web links and collections, with
tags, a unified search (names, nicknames, descriptions, tags, the URLs of
web links, and Chinese pinyin initials or full pinyin), import and export of the saved entries, a
state machine for the application's screens, plugins and background file
operations.

The library under `src/` is written in Verus, and Verus proves every function
in it against its contract. The methods of the shared state manager work on
a machine that other holders may change between calls, so their contracts
state only what holds whatever that machine's state was. The library is
organised as follows:

- `state`: the application's states and events, the transition table, the
  state machine with its bounded history, a shared manager, and a context map.
- `file_entry`: entries, their tags (`parse_tags`), search by text and pinyin,
  collections and the migration of older data.
- `search`: what a search shows and the tags in use.
- `tag_lists`, `tags`: tag lists kept sorted without repeats, bulk edits,
  suggestions and usage statistics.
- `urls`: which web addresses are accepted, and a link's default name.
- `app`: the manager's state (entries, search, panels, forms) and every
  change the user can make to it.
- `config`, `theme`, `plugins`, `async_ops`, `paths`, `text`, `string_map`:
  saved settings, themes, plugin bookkeeping, background operations, and
  text helpers.

`app/` holds the window (egui/eframe), file I/O, JSON (serde), the tokio
runner of background operations and the plugin objects, and calls the
library for every decision.

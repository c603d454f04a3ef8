# Marrow

Marrow keeps the symbols of a code base and the edges between them in an SQLite graph and
serves condensed views of it to coding agents over MCP.

* `src/` is the library, verified with Verus: reading the graph (`symbols`, `capsule`,
  `trace`, `impact`, `walk`, `reach`, `graph`, `class_map`, `skeleton`, `batch`),
  condensing source
  (`syntax`, `condense`), measuring (`tokens`, `files`, `bench`, `perf`), the register of
  workspaces (`registry`), the server's decisions (`arguments`, `server`, `pipeline`,
  `tools`), installation (`targets`, `install`, `installer`, `config`, `rules`, `launch`,
  `packaging`), the command line (`cli`, `watch`), and below them texts, paths and JSON
  (`text`, `scan`, `order`, `paths`, `json`, `store`, `model`, `settings`).
* `app/` is the program: arguments, prompts, disk, network and the MCP transport.
* `tests/` runs the library with the real crates linked.

## What is trusted

Verus takes the contracts of a few items on trust: SQLite statements through `rusqlite`
(`store`), parsing through `tree-sitter` (`syntax`), token counts through `tiktoken-rs`
(`tokens`), and `str::to_lowercase`, `char::is_alphanumeric` and `String::push` of the
standard library (`scan`, `symbols`, `text`). What a statement answers is not fixed by its
text and parameters, so functions that ask the database state which answers could have led
to their result; the logic behind the answer stands in functions on plain rows, with exact
contracts.

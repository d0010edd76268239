# memori

A local-first memory layer for AI assistants: memories are stored with tags,
a source and a creation time, recalled by similarity, listed page by page and
forgotten by id or by filter.

- `src/` is the verified library (Verus): input validation, filter and
  predicate building for the store, row encoding, newest-first paging and
  cursors (following the cursors lists every record once), record ids and
  prefix lookup, duration parsing, terminal text wrapping and truncation,
  the Markdown export and table rows of `dump`, the verdicts of `doctor`,
  the configuration merge of `init`, and the request planning of the
  socket and MCP servers. Calls into base64, uuid, chrono and serde_json sit behind trusted
  wrappers with stated contracts.
- `tests/` exercises the library on concrete values.
- `app/` is the program around it: command line, storage engine and
  embedding model, socket and MCP servers, configuration files.

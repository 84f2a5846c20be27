# luminus

A terminal AI coding agent, split in two:

- `src/` is the library, written in Verus and verified: slash-command parsing,
  the conversation state machine (requests, child agents, tool cards, approval
  rules), the key table and the terminal's texts, tool preparation and the
  security checks on paths and shell commands, output bounding, edit planning
  with content fingerprints and unified diffs, undo/redo history, skills,
  sessions, configuration merging, MCP configuration and tool routing, and the
  OpenAI-compatible request builder and reply parsers. Every public function
  states its result in `ensures`; the laws that relate several functions are
  public proof functions named `law_*`.
- `app/` is the program around it: the terminal loop (crossterm, ratatui),
  files and the environment, the shell, HTTP (reqwest), MCP servers over stdio
  (tokio), and the serde copies of the library's types.

Tests under `tests/` run the library with its outside crates linked.

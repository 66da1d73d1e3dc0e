# midna

A local-first AI agent that talks to a model served by Ollama. The model can
read and write files, list directories and run shell commands; anything that
changes state is confirmed with the user first.

## Layout

- `src/` — the library, verified with Verus:
  - `permissions` — the permission policy (reads allowed, changes asked about);
  - `session` — the conversation history;
  - `providers` — messages, tool calls and tool descriptions; `providers::ollama`
    builds the chat endpoint address and the runtime's error messages;
  - `tools` — the built-in tools: their schemas, the registry, reading call
    arguments (`tools::fs`, `tools::shell` shape file and command results);
  - `modes` — input handling, the agent's turn state machine, the permission gate
    for tool calls, and the chat exchange;
  - `json`, `text`, `error`, `cli` — JSON values, text utilities (trimming,
    decimal notation, UTF-8-safe truncation, byte-order sorting), errors, and
    the command-line model.
- `app/` — the program: argument parsing, the HTTP client, file system and
  process work, and the interactive loops that drive the library.
- `tests/` — tests of the library.

# coding_agent

A terminal coding agent whose core logic is a library verified with Verus.

- `src/` — the verified library: messages and the context window (token
  estimates, overflow levels, compaction), the agent loop's decisions
  (permissions, doom-loop detection, output truncation, memories), the
  model call's retry policy and answer reading, the streamed-answer
  decoder, tool-call batching, hooks, plans, skills,
  sessions, snapshots' git output, project instructions, the built-in tools'
  arguments and answers, the line-mode helpers and the full-screen
  interface's state and drawing. Calls into outside crates (JSON, regular
  expressions, globs, diffs, Markdown, syntax highlighting, character widths)
  stand behind small trusted wrappers whose contracts say what is relied on.
- `app/` — the program around it: configuration, the HTTP client of the
  model, the file system, processes, the terminal, and the async loop that
  drives the library's decisions.
- `tests/` — tests of the library on concrete values.

Run `--tui` for the full-screen interface; the default is line mode.

# lattice_cli

The command-line client and terminal UI of LATTICE, with its logic verified
by Verus.

- `src/` is the verified library. Each public function states what it
  returns or changes in `requires` / `ensures` over spec functions and views:
  - `session`, `listing`, `config`, `commands`, `coding`, `agent`,
    `validation`: sessions and their ids, titles, order and saved turns (tool
    calls and results included); configuration keys and paths; command
    helpers; the coding agent's system prompt; the agent's message history;
    the checks `lattice validate` makes of agent profiles.
  - `events`: the renderers that turn the agent's events into console
    output, and the messages a run adds to its session (with the laws that standard output is the reply's content and
    that JSON mode reports only errors).
  - `app`, `pointer`, `chat`: the terminal UI's state machine — keys, slash
    commands, submission, queueing, history, search, streaming and tool
    output, the mouse and pasting.
  - `markdown`, `mdrender`, `mdtable`, `layout`, `message`, `widgets`,
    `filediff`, `text`: parsing markdown into blocks, laying text out in
    terminal columns, tables, code highlighting, diffs, and the rows each
    widget shows.
  Calls into outside crates (pulldown-cmark, syntect, similar, sha2,
  unicode-width, serde_json, toml_edit, chrono, dirs) go through small
  trusted wrappers whose contracts say what the crate's source shows.
- `app/` is the program around it: argument parsing, files, the terminal,
  the agent runtime, and the few computations in floating point (the
  scaled widths of tables too wide for their least widths, the context
  gauge, durations above a second).
- `tests/` runs the library on concrete inputs.

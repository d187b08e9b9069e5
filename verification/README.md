# ralph_tasks

Task lifecycle over pluggable stores, verified with Verus.

- `src/` is the library. Tasks and their states are in `task`, queries and changes on task
  lists in `task_list`, and what holds across them in `task_laws`. `task_source` is the
  interface of a store; `task_sources` has the stores: in memory (`mock`), on a JSONL file
  (`jsonl`, `jsonl_store`, `task_file`) and on GitHub issues (`github`). `task_source_registry` finds a
  store by name. `task_cli` runs the commands, `display` renders what they print and
  `ordering` sorts listings.
- `clock`, `pattern` and `json` hold the calls into `chrono`, `regex` and `serde_json`, each
  with the contract that the rest relies on. `text`, `number`, `unicode`, `record`, `comment`
  and `entries` are what is built on strings and lists.
- `app/` is the command line program: arguments, files with locks, the `gh` program, and the
  JSON forms of tasks, issues and configurations.
- `tests/` runs the library.

Stores that do input and output are given a port, a trait of which nothing is assumed:
`TaskFile` (in `task_file`) for a file, `GhPort` (in `github::port`) for GitHub. A store holds its
port inside a recorder, which keeps a ghost list of every step taken on it; the contracts say
which steps an operation takes, and in which order.

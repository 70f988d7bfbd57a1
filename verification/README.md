# devtree

`devtree` creates runnable Git worktrees: it creates the checkout, copies
explicitly configured local env files, runs setup commands, starts dev
servers, and records the local URL and logs.

This crate holds devtree's logic as a Verus-verified library, with a thin
command-line front end.

- `src/` — the verified library:
  - `text` — character-sequence utilities, lexicographic order, decimal text;
  - `table` — an ordered string-keyed table (the model of `BTreeMap<String, _>`);
  - `branch` — branch-name sanitizing and its laws;
  - `paths` — Unix path joining, `file_name`, and where worktrees, logs, config and state live;
  - `config` — the `.devtree.yml` model, app URLs, launch commands, app resolution, the starter config;
  - `state` — the tracked repositories, worktrees and apps, with their model and laws;
  - `command` — the external commands devtree runs, as data;
  - `health` — health URLs and the decisions of the polling loops;
  - `host` — the user state directory (`directories`), taken as text, and the `Timestamp` type of recorded instants (the front end reads the clock with `chrono`);
  - `workflow` — the decisions behind each command;
  - `error` — errors and their messages.
- `app/` — argument parsing (`clap`), YAML and JSON files (`serde`), processes,
  file copies and HTTP health probes (`reqwest`).
- `tests/` — tests of the library.

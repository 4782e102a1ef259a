# git_ui_core

The decisions behind a git worktree picker, as a verified library.

- `src/` is the library. `worktree_picker` holds the picker as a whole and
  `picker` its state; `matches`, `search` and `shown` the rows that a query
  shows; `confirm`, `deletion` and `window` what the rows do; `render` what they
  look like. `scan` finds repositories near the project, `remote_open` opens
  worktrees of remote machines, and `env_vault` and `env_carry` carry `.env`
  files into worktrees. `github_link`, `prompts`, `naming`, `path`,
  `path_order`, `path_set`, `text`, `seqs` and `model` are what these are made
  of. Outside work is asked for step by step: a function of the library takes
  the state and what happened, and gives the next state and what is to be done.
- `tests/` runs the library.
- `app/` is the picker's view in the editor, and the work on files, git and
  windows that the library asks for.

# gai

gai creates git commits with the help of a language model: it collects the
changes of the working tree, asks a model to group them into commits with
conventional commit messages, shows the proposal as a tree and applies it,
file by file or hunk by hunk.

## Layout

- `src/` is the library, written in Verus: every function carries a
  contract that the verifier proves, except a few small wrappers around
  calls into std, chrono and git2, whose contracts are stated from those
  libraries' documentation and believed (each says so in its doc comment).
  - `text` — character-level text operations (trimming, lines, UTF-8 byte
    lengths, decimal numbers) and their specifications.
  - `diffs`, `repo`, `gaigit`, `gitdiff` — the diff of the working tree in
    its several shapes, hunk ids ("path:index"), the diff texts sent to a
    model, and patches that stage chosen hunks.
  - `log`, `find` — commit logs, the conventional parts of a message and the
    text a log is sent as.
  - `status`, `state` — the status of the files of a repository.
  - `branch` — branch summaries, divergence from HEAD, sorting by name.
  - `commit`, `plan` — grouping hunk ids by file, planning how each file is
    staged, and turning a rebase plan into git operations.
  - `commitflow` — the menu over a model's answer (apply, regenerate, edit,
    quit) and the editor of the proposed commits, one step at a time.
  - `rebase` — the decisions of `gai rebase`, one step at a time: from the
    state and the outcome of the last piece of work, the next state and the
    next piece of work.
  - `config`, `provider`, `args`, `cli`, `opts` — settings, providers and the
    command lines.
  - `request`, `rules`, `consts`, `response` — the prompt and the answer.
  - `graph`, `print`, `tabs`, `tui`, `actions` — the trees printed for the
    status and the proposed commits, and the terminal interface's state.
- `tests/` runs the library on concrete values.
- `app/` is the program: it reads the repository with git2, the
  configuration with toml, talks to the service over HTTP and prints with
  crossterm, handing plain values to the library and back; for a rebase it
  runs the loop, carrying out each action the library names.

# clawhip_lanes

Bookkeeping for agent sessions that run in tmux: a ledger of sessions and of the wishes to watch them,
the lane board that is made of it, and the audit of git working trees.

- `src/` is the library, verified with Verus.
  - `ledger`, `tables`, `laws`: the ledger as rows with constraints, what every operation makes of
    them, and what holds of all operations.
  - `records`, `registration`, `status`, `error`, `schema`: what the ledger takes, stores and says.
  - `lanes`, `names`: the lane board.
  - `restore`, `shell`: the command that brings a watch back, and its quoting.
  - `commands`, `git`, `panes`, `worktrees`, `report`, `table`, `paths`: which commands are run, what
    their answers mean, and what is printed.
  - `outside`: the clock, random identifiers, JSON and lossy decoding. Its wrappers are believed, not
    proved.
  - `text`, `keyed`: text primitives and keyed tables.
- `tests/` runs the library.
- `app/` holds the SQLite file, the processes and the terminal.

A function that takes the time or a fresh identifier comes in two forms: one with the value as an
argument (`..._at`), whose contract is exact, and one that asks the clock or the random source.

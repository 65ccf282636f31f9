# majjit

The verified core of majjit, a terminal interface to the Jujutsu (jj) version
control system, written in Verus.

- `src/` is the library. Every function in it carries a contract that Verus
  proves:
  - `log_tree`: reading `jj log`, `jj diff --summary` and git diff output into
    a tree of commits, file diffs and diff lines; folding, loading and
    flattening that tree into rows; rendering rows as pieces of styled text.
  - `shell_out`: the jj commands the interface runs, their complete argument
    lists, how their output is read, and the steps of rendering a file's diff
    (through delta when it is installed) and of a tuicr review.
  - `ai_describe`: what the description-drafting command is fed and how its
    output becomes a message.
  - `ansi`, `text`: ANSI escape sequences and character-level text operations,
    each specified over sequences of characters.
- `tests/` runs the library on concrete values.
- `app/` starts the processes, hands the terminal over and back, and draws the
  rows with ratatui; it performs the steps that the library decides.

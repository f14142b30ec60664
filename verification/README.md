# Hayate

A three-pane terminal file manager: the parent directory, the current one and a
preview side by side. Directories are read in the background, so that large ones
are shown while they stream in, and jobs that are no longer wanted are cancelled.

- `src/` is the library. It holds the state of the program and decides what keys
  and the reports of background jobs do to it, which jobs are started and
  cancelled, what is launched and what each pane shows. It is verified with
  Verus, on ten assumptions about code outside it, each marked and described
  where it stands: the type `CompactString`, its contents and its `as_str`,
  `clone` and `from` (`src/compact.rs`), `String::push`,
  `String::from_utf8_lossy` and a name for its result (`src/text.rs`), and
  `Layout::split` and `Rect::inner` of ratatui (`src/ui/layout.rs`).
  `src/app/laws.rs` states what holds of the main loop as a whole.
  Paths are Unix paths: `/` separates their parts and `:` the directories of the
  search path, on whatever system the library runs.
- `app/` is the program: the terminal, the disk, the background tasks and the
  painting.
- `tests/` runs the library on concrete values.

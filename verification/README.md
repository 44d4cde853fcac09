# Hotpath

Hotpath finds the files of a repository that are risky to change. It works offline, from the files
of a worktree and its local Git history.

- `src/` is the library. It holds the logic and does no input or output: scanning and classifying
  files, extracting symbols and imports from syntax trees, resolving dependencies, reading what Git
  prints, counting churn and co-changes, ranking hotspots, explaining a file, rating a diff, and
  everything that is put out as text. Every function states over mathematical views what it
  returns, and Verus proves it.
- `app/` is the command line around it: the file system, Git, SQLite, threads, JSON, and the
  floating-point weights of ownership. It hands paths over as the platform takes them apart, or
  with `/` between their names, whatever the platform writes there.
- `tests/` runs the library on concrete values.

## What is taken on trust

A few calls leave the verified code. Each stands behind a small item whose comment says what is
believed of the call:

- `src/syntax.rs`: parsing with tree-sitter, and the moves of its cursor;
- `src/explain/diagnostics.rs`: reading a JSON list with serde_json;
- `src/text.rs`: decoding UTF-8, and appending a character to a string.

## Laws

Beside the contracts of the functions, the library proves what holds across them, in public proof
functions. Among them: however a stream of Git records is cut into reads, the same records come
out (`git::stream::reads_yield_the_stream`); whatever of the records that were read the cache of
commits holds, the same history comes out (`git::engine::history_does_not_depend_on_the_cache`); in
whatever order files are walked or events arrive, the same report comes out
(`scan::walk::report_ignores_the_walk`, `git::engine::history_of_read_records_ignores_arrival`,
`git::cochange::co_changes_ignore_arrival`); counts add up
(`context::groups_add_up`, `dependency::fan::fan_in_and_fan_out_balance`,
`parse::report::symbol_counts_add_up`).

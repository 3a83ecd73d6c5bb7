# lean_dup

A verified library for auditing Lean workspaces for duplicate declarations.
It holds the decisions of the audit, each with a contract proved by Verus:
- ranking candidate pairs into review groups;
- the review policy and its filters;
- replacement hints;
- baseline snapshots and their diffs;
- stage observations and scoring for evaluation;
- vector-search eligibility, documents and candidate selection;
- worker toolchain resolution and workspace cleanup.

- `src/`: the library. Every module is verified.
- `tests/`: tests that run the library on concrete values.
- `app/`: the file, directory, environment and process work around the library:
  - reading sources and the toolchain pin;
  - saving and loading baselines and worker sidecars;
  - sweeping snapshot directories;
  - writing vector artifacts;
  - building the worker with `lake`.

  It gathers inputs for the library and carries out its results.

The audit, retrieval and vector-validation runs rely on the index, embedding and worker engines, so they are not part of this crate. The decisions those runs take are in `src/`, as functions over the engines' results.

# bony

The logic of the Bony Build tools, verified with Verus: the desktop client's
chat model, task and usage bookkeeping, Git worktree helpers, model config,
Markdown reading and Unity control panel; the change monitor's feature
catalog, change-impact analysis, matrix and pages; and the Grok desktop
client's event and Markdown handling.

Layout:

- `src/` — the verified library (`text`, `json` and `clock` helpers; `build`,
  `monitor` and `desktop` for the three tools). Every public function states
  its result in `ensures` over spec functions; the `lemma_*` proof functions
  state the laws that span several calls.
- `tests/` — tests of the library on concrete values.
- `app/` — the `bony` command: the monitor's web server, Git and Unity CLI
  runs, files under the home folder and the task database, driving the
  library.

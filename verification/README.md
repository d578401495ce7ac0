# libscoop

The logic of a Scoop-compatible package manager for Windows, written in Verus
and proved against its contracts: how a sync plans installs, upgrades,
replacements and removals; how queries select packages; which installed
packages depend on a pending removal; how an install proceeds step by step;
how installed packages, their states and their status are collected; which
versions and caches a cleanup removes; how shims are named and written; how an
archive is recognised and extracted; how versions compare.

## Layout

- `src/` — the verified library.
  - `sync.rs` — sync options, the transaction, planning, query selection,
    removal checks and the step machine of an install.
  - `inventory.rs` — installed packages and their states.
  - `status.rs` — the status report.
  - `cleanup.rs` — cleanup of old versions and stale caches.
  - `shim.rs` — shims: kind, names, content.
  - `archive.rs` — archive detection and the extraction plan.
  - `version.rs` — version comparison.
  - `order.rs` — ordering by name.
  - `text.rs` — string helpers with their specifications.
  - `cui.rs` — answers to prompts.
  - `cmd/` — the decisions of the command-line subcommands.
  - `laws.rs` — properties that span several functions, as proof functions.
- `tests/` — tests on concrete values.
- `app/` — the command-line program: arguments, file system, git, archives,
  terminal output. It calls the library for every decision.

Install, upgrade and remove have no driver yet: the library plans them
(`select_install`, `plan_sync`, the step machine of `first_sync_step` and
`next_sync_step`, `plan_removal`, `removal_transaction`), but no command of
`app/` downloads, installs or removes packages.

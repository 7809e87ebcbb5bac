# convertia

The verified core of ConvertIA's conversion back end: the outcome taxonomy and its message
catalogs, the confinement decisions for engine subprocesses, and the platform rules around them,
written in Verus with their contracts proved.

## Layout

- `src/` — the library. Its functions are verified, except four small trusted functions that make
  outside calls (three into `seccompiler` in `seccomp.rs`, one into `std::path` in
  `log_redact.rs`) and two declared `seccompiler` types; their contracts are assumed, and
  their doc comments say what they claim:
  - `outcome.rs` — the failure kinds, the per-item outcome line, the failure, skip, residue,
    batch-summary and predictable-loss catalogs, and the template rendering.
  - `domain.rs` — the shared vocabulary: skip reasons, read failures, loss kinds, item ids,
    open targets.
  - `ipc.rs` — resolving an open-folder / open-file request against the paths a run recorded.
  - `log_redact.rs` — the basename-only form a path takes in the log, read with the platform's
    separators and prefixes.
  - `isolation.rs` — how an engine is spawned: spawn mode, cleared environment, how a run ends
    and what the process-group guard does, the per-platform tier records, staged-source names,
    and the Landlock grant table.
  - `platform.rs` — file-system classification, executable mode, the spawn-tier record, the
    Windows rename and lock verdicts, job limits, free-space arithmetic.
  - `label.rs` — Windows mandatory-label SDDL: building it, reading the level back, and the
    verdicts of the label and strip legs.
  - `paths.rs` — lexical path components and the ephemeral-output-directory rule.
  - `seccomp.rs` — the seccomp deny list and its compilation through `seccompiler`.
  - `text.rs` — string and digit helpers with their specifications.
- `tests/` — tests of the library on concrete values.
- `app/` — the program around the library: the confined spawn itself (tokio, process-wrap),
  the Linux and Windows system calls, file-system probes, and the serde wire forms.

Every public function states its result in `ensures`; the laws that relate several functions
are public proof functions next to them.

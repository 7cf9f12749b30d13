# turm

A terminal user interface for Slurm: it lists the jobs `squeue` reports,
follows the output file of the selected job, and cancels jobs, signals them
or changes their time limit.

## Layout

- `src/` — the verified library. Its functions carry contracts that Verus
  proves, except the small wrappers marked `#[verifier::external_body]`
  around calls into std, ratatui and tui-input: their contracts
  state what those crates do and are trusted, not proved.
  - `app.rs` — the application state, how each message (job list, output,
    key, mouse) changes it and which command it asks for, and how input
    events are decided.
  - `dialog.rs` — the dialogs, the signals on offer, time limit input checks
    and the dialog boxes' content and placement.
  - `job_watcher.rs` — the `squeue` arguments and the parser for its output,
    including the substitution of Slurm file name patterns.
  - `file_watcher.rs` — which file to read and watch, and when to tell the
    file watcher.
  - `slurm.rs` — the `scancel` and `scontrol` commands and failure reports.
  - `squeue_args.rs` — the forwarded `squeue` options as arguments.
  - `ui_text.rs` — cutting text into chunks and fitting output into a view.
  - `view.rs` — the texts and styles of the job list, details and titles.
  - `list_state.rs` — the list selection, moved by ratatui's `ListState`.
  - `text.rs` — character-level helpers shared by the others.
- `app/` — the front end: threads, channels, processes, files and drawing.
- `tests/` — tests of the library on concrete values.

# codex_session

The logic of a coding-agent session, written in Rust and proved with Verus: the checkpoints of
files and their restore, going back to an earlier prompt, reverting the history of a thread, the
conversation on the screen with its selection, scrolling and panel of changes, and the rules for
status rows, permissions, providers and compaction.

- `src/` is the library. Each type has a mathematical model, each function a contract over the
  models, and what holds across functions stands in public proof functions beside them.
- `tests/` runs the library on concrete values.
- `app/` is ordinary Rust around the library: the checkpoint store on disk, the driver of a revert,
  the adapters to the terminal, and the parts of the animation that need floating point.

# compaction

Context compaction for long conversations, as a library whose behaviour is stated in contracts
and proved with Verus.

A conversation is summarized before its context window is full. Background checkpoints summarize
the history slice by slice; when compaction fires, only what came after the last checkpoint is
summarized and the slices are joined into one handover summary.

- `src/` is the verified library: checkpoint bookkeeping (`checkpoint`, `checkpoint_laws`),
  captures (`capture`, `request`), handover summaries (`summaries`, `merge`), the cadence view
  (`cadence`, `cadence_view`, `cadence_lines`, `keys`), the chat widget and its provider menu
  (`chat_widget`, `provider_picker`), settings (`config`, `settings`, `voice`), and the texts and
  history items that these are made of (`text`, `items`).
- `app/` is the terminal, task and server plumbing around it. It takes no decisions.
- `tests/` runs the library on concrete values.

Public proof functions whose names start with `law_` state what holds across several functions.

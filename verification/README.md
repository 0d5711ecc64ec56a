# fist

The verified core of the f:ist terminal file manager, written in Verus.

`src/` holds the logic of the file manager with its contracts and proofs:

- `menu/`: menu actions, their reserved keys, condition evaluation, target
  resolution, and loading (merge of the action files, their load order).
- `run/queue/`: the transfer queue, its row states, selectors and the
  execution step of a row.
- `run/stash/`: the stash and scratch lists, in-memory stashes, and the
  transfer steps of stashed items.
- `run/state/`: toasts, the pane stack, background-task bookkeeping and the
  shutdown wait, sorting (pane orders, the engaged sort, item comparators).
- `run/action.rs`: the step each file-manager action takes on the pane
  (navigation, search, stashes, toggles, trash and delete, paste,
  cut/copy/push, jumps, execute actions) and the rewriting of a key's
  action for the prompt, overlays and pane.
- `run/rg.rs`: ripgrep output for the search pane: splitting a line into
  path, location and text, the window that gives each match its context
  lines, and the grouping of `--heading` output per file.
- `run/populate.rs`, `pager.rs`: what a file listing does when its stream
  ends, and how the pager handles a stream.
- `run/`: execution modes and their spawn and wait plans (including the
  asynchronous execute payloads), path rendering, the query
  prompt, reload steps and the search pane's query, selections across a
  reload, the packed match location of an item.
- `shell.rs`, `osc52.rs`, `paths.rs`: shell integration text, the OSC 52
  clipboard sequence, abbreviated paths.
- `text.rs`, `chars.rs`, `seqs.rs`, `collections.rs`: text and sequence
  helpers shared by the rest, and the declaration of `indexmap`'s map.

`app/` is a small command-line front end over the library (file and
terminal I/O, process spawning, configuration parsing); `tests/` exercises
the library on concrete values.

# jackdaw

The editor core of jackdaw, verified with Verus: the dock (areas, tab bars, icon sidebars,
dragging windows between areas and splitting areas), workspaces, the extension lifecycle
(operator index, extension catalog, operator dispatch, the undo buffer of operator runs),
the game-plugin bookkeeping runtime, the enabled-extensions list, and the hot-reload loop.

Layout:

- `src/panels/world.rs` models the dock's entity tree (`DockWorld`, viewed as `WorldView`)
  with the primitive edits and queries the dock logic is built from, and their frame lemmas.
- `src/panels/{tabs,sidebar,populate,drag,workspace,workspace_tabs}.rs` hold the dock logic,
  each function specified against that model; `src/panels/laws.rs` proves the properties
  that span several of them.
- `src/api/` holds operators and the extension lifecycle; `src/runtime.rs` the game-plugin
  runtime; `src/editor/` the enabled-extensions list and the hot-reload state machine;
  `src/keyed.rs` a small map keyed by text that several of them share.
- `app/` is plain Rust around the library: reading and writing `extensions.json`, the file
  watcher of the hot-reload loop, and the pointer geometry of dock drags.
- `tests/` runs the library on concrete scenarios.

Verify with `verus` on `src/lib.rs`; the icon code points come from `lucide-icons`.

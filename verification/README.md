# filego

The core of FileGo, a keyboard-first folder launcher, written in Verus: every
function in `src/` carries a contract that Verus proves.

- `src/search/` — query parsing, derived keys (case folding, pinyin,
  english initials), matching strategies, tiered scoring, ranking with a
  total tie-break, highlights, filters and the empty-query strategies.
- `src/presentation/` — the search window's view model and selection state,
  theme tokens, localized messages, and the two controllers of the settings
  and management windows: each takes one step per command, returns the store
  work it asks for, and takes the store's report back (the settings
  controller rolls back after a failed save; the management controller
  validates drafts, names and duplicates before asking to store anything).
- `src/storage/` — the stored document, its schema gate and error texts,
  import planning and the all-or-nothing apply, backup names and listing
  order, the data directory's files, the document check, the record changes
  the two windows ask for (store, change, remove, restore; category and tag
  renames, removals and merges), and the decisions of the save/load
  sequence.
- `src/path_semantics.rs` — when two stored paths name the same folder, and
  a path's last component.
- `src/domain.rs`, `src/text.rs`, `src/order.rs` — shared records, text
  helpers and ordering facts.
- `app/` — the file-system side: JSON encoding, disk access, the atomic save
  sequence, backup files, and the store work and disk probes of the settings
  and management windows, all driven by the library's decisions.
- `tests/` — scenarios on concrete values.

Code outside the library is reached through a few small trusted wrappers:
pinyin readings (`pinyin` crate), Unicode lowercasing, `String::push`, the
`Path` operations of the data-directory paths, whose results are named rather
than restated, and `Path::components` for the bare-file-name check, of which
nothing is stated.

# text_diff

The logic behind a block-based notes editor, verified with Verus.

- `diff_logic`: the edit between two versions of a text block (first and last
  deviation, insert / delete / replace), with the law that applying the diff
  reproduces the new text for a replace, and for an insert or delete when
  the common prefix and the common suffix together cover exactly the
  shorter text.
- `combine`: folding runs of inserts or deletes into one; combining twice
  changes nothing.
- `when_to_diff`, `when_to_diff_timer`, `happy_little_timer`, `native_timer`,
  `batch_text_edits`, `signal_channel`: applying edits to a copy of the text by character
  position (through the UTF-8 byte offsets that `String` works with), and the
  timer state machines that decide when a diff is due.
- `typing`: the human-readable description of an edit and the held-back run
  of keystrokes in the text boxes.
- `dot_list`: the bounded list of background dots.
- `fts5`, `client_table_blueprints`, `insert_structs`, `love_letter`: rows,
  table names and payloads of the local database and the sync protocol.

`src/` is the verified library. `app/` is the ordinary Rust around it: the
threads, channels and locks that run the timer loops, the leptos text boxes
that report edits through `typing`, and the two drag-and-drop navigation
pages, whose physics and layout work in floating point.

# shiyue

The verified core of a desktop feed reader, with the program around it.

`src/` holds what the reader keeps and decides, each function with a contract
that Verus proves:

- `knowledge_workflow`: persistent background tasks, their attempts, the lease
  of the executor, the engine's loop and what an observer sees.
- `history_discovery`, `history_backfill_workflow`: where the older articles of
  a feed are found, and how they are imported in batches.
- `gui_state`, `gui_modal`, `gui`: routes, modals and panels with their guard
  for unsaved input, the features behind them, and what each page shows.
- `image_store`, `digest`, `directory`: the content-addressed image cache.
- `library_projection_revision`: how readers of the library learn of changes.
- `address`, `calendar`, `feed_document`, `json`, `markup`, `page_metadata`:
  what web pages and feeds say, on top of the crates that parse them.
- `feed_scan`, `xml_text`, `play_time`: which feeds the feed parser gets
  through.
- `cli`, `config`: what the command line answers.
- `text`, `number`: characters and digits.

The calls into other crates stand behind small functions marked
`external_body`; the comment above each says what it calls and what is believed
of it.

`app/` holds files, the database, the network, threads, the command line and
the windows. `tests/` runs the library.

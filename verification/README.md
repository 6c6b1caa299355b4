# panel_client

The verified core of a small web panel for browsing and editing a tree of
notes. Everything under `src/` is checked by Verus; `app/` is the thin
browser side built on `vertigo`.

## Layout

- `src/text.rs` – string helpers (the Unicode whitespace table,
  `split_whitespace`, substring search, joining) and the trusted calls into
  `str::to_lowercase` and `String::push`.
- `src/sort.rs` – lexicographic order of names and a verified sort.
- `src/tree.rs`, `src/resource.rs` – listings of the notes tree and the
  loading state of fetched values.
- `src/index.rs` – the rows of the directory list, their priorities, labels
  and order.
- `src/search.rs` – search phrases and the walk that collects search hits.
- `src/navigation.rs` – the index view: path changes, keyboard navigation,
  the modal alert and the tab bar.
- `src/messages.rs` – messages shown at the top of the page.
- `src/forms.rs` – the forms that edit, rename and create entries.
- `src/alerts.rs` – the delete and move alerts.
- `src/node.rs` – refreshing a fetched node without going back to stale data.
- `src/outcome.rs` – what the page does once a request is answered, and the
  states of the buttons.
- `src/laws.rs` – properties that relate several operations, proved.
- `app/lib.rs` – page glue: requests, timers, the shared state cells and the
  drawing of messages, tabs, menu and list.

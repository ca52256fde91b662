# dd_siteforge

The editing core of a terminal CMS for framework-native static pages,
written in Verus: the functions of `src/` carry contracts and are proved
against them, except four small wrappers that call std and ratatui
(`push_char`, `to_lowercase`, `is_alphanumeric`, `split_percentages`),
whose contracts restate what those calls are documented to do.

## Layout

- `src/site.rs` — the site tree: pages of hero and section nodes,
  sections of columns, columns of components, the header and footer.
- Text and layout: `text.rs` (strings as character sequences),
  `textarea.rs`, `form_layout.rs`, `responsive.rs` (`dd-u-*` width
  classes), `layout.rs` (rectangles, scroll bars), `toasts.rs`.
- The structure tree: `tree.rs` (rows, folding, selection),
  `tree_label.rs`, `navigation.rs` (cursor, pages, columns).
- Editing: `edits.rs` (insert, duplicate, delete), `moves.rs`
  (reordering), `items.rs` (list items), `section_ids.rs` and `pages.rs`
  (fresh ids), `history.rs` (undo and page trash).
- The details panel: `ascii_map.rs` (blueprint maps), `page_details.rs`,
  `panel.rs`, `details.rs` (what a click in the text selects).
- The form editor: `form_layout.rs` (field slots, scrolling, click
  areas) and `form_edit.rs` (editing fields at UTF-8 byte offsets,
  choices and item lists, drilling into items); `notices.rs` holds the
  notices that follow edits.
- `flows.rs` — starting an export or preview, path prompts, renaming a
  page, and comparing a loaded file with its backup.
- Input: `commands.rs` (keys to commands, key routing, overlays, autosave),
  `clicks.rs`, `modal.rs` and `pickers.rs` (dialogs), `search.rs`,
  `components.rs`, `labels.rs`, `hints.rs`, `paths.rs`.
- `app/` — the terminal side: key events, directories, the clock and
  drawing with ratatui, handing plain values to the library.

Laws that span several functions are public proof functions named
`law_*`.

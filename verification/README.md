# avel_lib

The verified core of Avel, a Windows desktop utility that keeps a clipboard
history, lists recently used files and folders, switches the light/dark theme
on a schedule, hides desktop icons and taskbars, and controls monitor
brightness over WMI and DDC/CI.

## Layout

- `src/` — the library, written in Verus. Each public function states what it
  returns in its contract, and the laws that relate several functions are
  public proof functions:
  - `clipboard/` — classifying captures, decoding clipboard bitmaps (`dib.rs`),
    encoding text, bitmaps and file lists for the clipboard (`payloads.rs`),
    and the law that encoding then decoding a bitmap gives it back
    (`roundtrip.rs`);
  - `brightness/` — the data model, raw/percent conversions and level search
    (`levels.rs`), the decisions of the brightness service (`control.rs`),
    display discovery, the native backend over a monitor interface, and the
    diagnostics report;
  - `hotkeys.rs` — key codes, stored shortcut formats, hotkey routing and
    update planning;
  - `desktop.rs` — clean-desktop modes over a shell backend;
  - `store.rs` — listing filters, deletion batches and how a new capture
    merges with the row it duplicates;
  - `recent.rs`, `screenshots.rs`, `theme.rs`, `thumbnails.rs`, `paths.rs`,
    `imaging.rs`, `text.rs`, `types.rs`.
- `tests/` — tests of the library on concrete values.
- `app/` — the Tauri application around the library: windows and tray, the
  SQLite store, Win32 calls, threads and the commands of the user interface.

## Maps keyed by strings

The maps that the application keys by text (open Explorer windows by
handle, recent shortcuts by path, processed screenshots by path) are, in
`src/`, types of their own over a `Vec` of pairs, with the invariant that no
key occurs twice: `WindowMap`, `ShortcutTimes` and `ProcessedFiles`. Verus
accepts a `HashMap<String, _>`, but vstd specifies its lookups and inserts
only for key types that obey its key model (`obeys_key_model`), which it
grants to the integer types, `bool` and boxes of them and not to `String`;
granting it would take an `assume`. With a `HashMap` nothing could be proved
of what a lookup after an insert gives, so these types take its place. Each
has a view, the sequence of its pairs, and contracts stated over that view.

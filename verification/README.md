# pitu

A scriptable command-line image workbench: batch conversion, resizing,
cropping (manual, aspect-ratio and content-aware), watermarking, filters, a
universal reader that rescues images from data URIs and polyglot files, an
edit session with undo/redo, and a snapshot history with rebase and revert.

## Layout

- `src/` is the verified library (Verus). It holds the rules the workbench
  follows, each with a contract:
  - `text`: strings, numerals, trimming and splitting, as `str` does them;
  - `size`, `geometry`, `commands`: the size, crop, resize, aspect-ratio and
    smart-crop specs, the specs the subcommands build, and the proofs that
    those read back as built;
  - `paths`: output and export file naming, history folders, pasted-path
    cleaning;
  - `reader`, `repair`: the universal reader (data URIs, polyglot streams,
    text documents, format detection, health score) and the repair plan;
  - `history`, `session`: snapshot naming, rebase, replay order, commit
    references, persistent undo/redo, and the in-memory edit session;
  - `compress`, `report`, `banner`, `editors`, `menus`: the quality search,
    batch accounting, dashboard line fitting, the pixel editors and the
    wizard's menu dispatch;
  - `imaging`, `formats`: the calls into the `image` crate and the format
    enums.
- `tests/` runs the library on concrete inputs.
- `app/` is the program around it: command-line parsing, files, the terminal
  user interface, threads, and the pixel work done in floating point.

The watermark font is read at run time from `PITU_FONT` or a system font.

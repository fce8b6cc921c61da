# minimalmark

The verified core of MinimalMark, a minimal Markdown editor for GNOME.

- `src/` is the library, verified with Verus:
  - `text` — white space, decimal numbers, character offsets of UTF-8 bytes;
  - `stats` — word, character, sentence and paragraph counts, reading time,
    status-bar labels;
  - `livepreview` — the ranges that inline rendering hides or styles
    (headings, bold, italic, strike-through, code), found on the bytes of
    the text and given to the editor in characters;
  - `outline` — the heading outline of the sidebar;
  - `markdown` — rendering with `pulldown_cmark`, KaTeX math and Mermaid
    detection, heading extraction;
  - `preview` — the preview document and the window title;
  - `editing` — source view and live preview modes, auto-pairing, wrapping
    the selection in markers, the paragraph that focus mode keeps;
  - `commands` — formatting commands, context menu, keyboard shortcuts,
    view modes (source, live, split, preview);
  - `settings` — settings defaults, recent files, themes, editor fonts.
- `tests/` runs the library on concrete documents.
- `app/` is the GTK 4 / libadwaita application around the library: windows,
  widgets, file and settings I/O.

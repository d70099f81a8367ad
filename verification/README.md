# Swatchbook

A Markdown-powered style binder for GNOME: colour palettes written as Markdown
lists are shown as swatch cards and exported as CSS custom properties, W3C
Design Tokens JSON, GIMP palettes, Tailwind colour configs and Adobe Swatch
Exchange files.

The library under `src/` is verified with Verus:

- `token` — recognising colour tokens and their channels: `#hex`, integer
  `rgb()`, CSS names and `transparent` are resolved here; for `rgba()` alpha
  and `hsl()`/`hsla()` it hands back the argument text, which `app/` evaluates
  in floating point. `named_colors` holds the CSS colour table.
- `parser` — swatch extraction from the Markdown event stream of pulldown-cmark:
  list items and bare inline colour code in any block.
- `renderer` — cards and the exporters, with slugs that never collide; `renderer::import` reads GIMP palettes
  and Design Tokens JSON back into Markdown; `renderer::json` is a JSON syntax
  checker; `renderer::json_export` proves that the tokens export is JSON,
  `renderer::tokens_round_trip` that the importer reads back what the export
  wrote, and `renderer::palette_round_trip` the same for GIMP palettes.
- `document` — the open document, its titles and where it is saved.
- `session` and `highlight` — the editor window's decisions: canvas focus,
  the unsaved-changes prompt, the language menu, feedback messages and syntax
  highlighting.
- `text` — the string vocabulary the contracts are written in.

`app/` is the GTK 4 / libadwaita application around the library: the window,
file I/O, Cairo rendering, and the colour forms that need floating point.

# render

A component-based UI library: components are laid out into rectangles and
resolved into primitives (rectangles and text) that a GPU renderer draws.

## Layout

- `src/` — the library, verified with Verus:
  - `layout` — absolute and row layout of a container's children, with the
    errors they report;
  - `components` — the geometry of components, default event handling, the
    built-in primitives and containers, and one layout step;
  - `events`, `options` — input events, pointer state, window options;
  - `text` — grapheme tokenising, emoji detection, font selection and
    fallback runs, shaping with harfrust, bidirectional token order;
  - `atlas`, `colr`, `render` — glyph atlas packing, colour-glyph clipping
    and cropping, and per-frame renderer decisions.
- `app/` — the platform layer: the window and event loop (winit), the GPU
  renderers (wgpu), font loading, and everything measured in floating
  point (fractional layout, scaling shaped glyphs to pixels, word
  wrapping, font-size fitting, colour-glyph compositing).
- `tests/` — tests of the library.

# retrotex

A pixel-art texture editor. A texture is a stack of passes (a color over the
whole image, a rectangle or a 16×16 bit pattern, optionally tiled, noisy,
rounded and beveled); the editor renders them into albedo, height, normal,
ambient-occlusion and lit layers and exports them as PNG files.

## Layout

- `src/` — the verified library (Verus):
  - `color` — colors and their `#rrggbbaa` notation, with the round trip proved;
  - `pattern`, `line` — bit patterns and Bresenham lines drawn on them;
  - `definition` — passes and where each pixel falls within a pass (tiles,
    shifts, coverage), with the overflowing cases told apart;
  - `file` — the `.rtex` text format and the bounded undo history;
  - `palettes` — PNG palettes decoded by the `png` crate and widened to RGBA,
    kept by name in string order;
  - `noise` — the permutation table and the hashed bits of white noise;
  - `preview` — dragging the handles of a pass in whole pixels;
  - `digest` — the bytes a texture definition writes into `DefaultHasher`,
    so that the hash that decides whether a file changed is stated exactly;
  - `logs`, `settings`, `storage`, `text`, `util` — log filtering and the
    overlay's records, settings saved on change, ordering files by name and
    keeping one per id, decimal numbers and string order, pixel indices and
    hashing.
- `tests/` — tests of the library on concrete values.
- `app/` — the editor around the library: the egui window, rendering in
  floating point, and everything that touches the disk.

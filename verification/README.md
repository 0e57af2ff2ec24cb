# vector_canvas

A backend for an AviUtl2 script module that draws vector graphics. The script hands it an
image size and a text of commands, one per line (`name: data`): `path`, `text_path`,
`transform`, `stroke`, `stroke_to_path`, `boolean`, `round`, `simplify`, `path_noise`,
`path_duplicate_array`, `path_duplicate_grid`, `path_duplicate_random`, `path_transform`
and `fill`. The backend draws them with skia into an RGBA buffer.

## Layout

- `src/` is the library, verified with Verus. It holds the command language: how lines
  and arguments are read (integers, colors, flags, the decimal literals that
  `f32::from_str` accepts, dash patterns, text fields and escapes, SVG transform lists),
  the step that each line makes (which waiting stroke is drawn, what happens to the paths,
  which stroke waits next), the checked layout of the pixel buffer, the order of the cells
  of a grid, the pseudo-random generator of random duplication, the seeds of path noise,
  and which results of a path operation survive. Each public function states its result
  over spec functions; the laws that hold across them are public proof functions.
- `tests/` runs the library on concrete inputs.
- `app/` is the plugin around the library: the AviUtl2 module, and everything that skia
  does or that takes floating point (matrices, font metrics, trim ranges, opacities).

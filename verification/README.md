# everwall

Recolor any wallpaper into the Everforest palette.

- `src/` is the verified library: hex color parsing (`color`), the palette
  tables and palette assembly (`palette`, `palette/tables`), the choice of
  which palette colors take part in a pixel's blend (`recolor`), and the
  default output file name (`output`). Each public function carries its
  contract, and the properties the library promises across calls are proved
  as `lemma_*` proof functions beside the code they speak of.
- `app/` is the command-line program: argument parsing, image input and
  output, the parallel pass over the pixels, and the floating-point Oklab
  color math and Gaussian blending.
- `tests/` exercises the library on concrete values.

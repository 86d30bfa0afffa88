# gekkemieren

The verified core of an ant-colony simulation that runs on the GPU.

- `src/` is the library, verified with Verus: the food grid (reads, writes,
  circle fills), the grid descriptors shared with the shaders, ant records and
  the conversion of foragers into scouts and back, the parsing of hex colour
  codes and the palettes, the dispatch and buffer arithmetic of the compute
  passes, and the decisions of the window loop.
- `app/` is the program around it: window and GPU setup, shaders and
  pipelines, configuration files, screenshots, and every computation on
  floating-point values (positions, colours, ratios).
- `tests/` exercises the library.

The WGSL shaders are read at run time from a `shaders/` directory.

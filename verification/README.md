# strata

The verified core of a file browser's thumbnails and browsing modes.

`src/` is the library, verified with Verus:

- `wire`, `protocol`, `transport`: the control channel between the browser and its
  sandboxed thumbnail workers.
- `pool`, `render`, `queue`, `memory`: which workers exist, what each is asked, in which
  order, and how much memory they use.
- `helper`, `media`, `fallback`, `command`, `process`, `pixels`, `path`: the sandboxed helper.
- `source`, `decode`, `slot`, `viewport`, `icons_cell`: sources, textures, and what of
  them is on screen.
- `modes`, `mode_views`, `pane`, `listing`, `selection`, `type_groups`, `explorer`, `rows`:
  the grid and the explorer.
- `bytes`, `text`: byte strings and decimal numbers.

`app/` makes the system calls, runs the processes and builds the GTK widgets. `tests/` runs
the library on concrete values.

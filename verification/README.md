# cellsight

The verified core of CellSight, a microscope camera shell.

`src/` is checked by Verus:

- `text` — trimming, splitting, integer parsing and hex/decimal formatting over
  `char` sequences, with their specifications.
- `picker` — the annotation colour palette, `parse_color` (`#rrggbb`,
  `rgb(r, g, b)`) and the editing rules of the colour field.
- `theme` — the shell's colours, lookup by name, and how theme files write and
  read colour values.
- `frame` — RGBA frames: cropping and scaling (through the `image` crate),
  shifting and all-in-focus compositing.
- `focus` — analysis resolutions, the memory budget of a focus sweep and its
  plane ledger.
- `camera` — the `ffmpeg` capture plan for a V4L2 camera and stream messages.
- `shell` — the shell's defaults, dropdowns, stream life cycle, frame hand-over
  and slider gesture.
- `theme_ctl` — argument handling and answers of the `theme-ctl` command.

`app/` is ordinary Rust: the `theme-ctl` program, theme files through serde,
the floating-point focus analysis and the capture process.

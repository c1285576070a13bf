# embassy_st7789v_plot

Verified core of a line-chart engine for 240x320 ST7789V TFT panels.

`src/` is the library, checked by Verus:

- `history.rs` — `SampleRing<T, N>`, the ring buffer of samples held in an
  array of `N` slots (oldest sample dropped when full), with the proof that
  it keeps the last `N` values pushed;
- `raster.rs` — `LineRaster`, Bresenham's walk from one pixel to another,
  proved to visit exactly the pixels of a closed-form rasterised segment,
  together with the properties of that segment (end points, adjacency,
  distance to the ideal segment, no repeats, bounding box);
- `layout.rs` — `PlotFrame`: plot area, the cleared rectangles, grid lines,
  graduation labels, axis titles, border and the curve strokes, all kept off
  the border on refresh; `RenderCycle`, which tells a render whether to draw
  the static part;
- `render.rs` — `RenderWalk`, the order of a render's drawing steps (static
  part on the first render, then the inside, the grid and the curve), with
  each step's drawing operation stated exactly;
- `screen.rs` — the panel size read from the display driver and pixel
  clipping.

`app/` holds the display side: the `Graphics` context, `line`, and the
`AxisConfig`, `PlotConfig` and `LineChart` types, whose axis arithmetic is in
floating point and whose drawing is asynchronous.

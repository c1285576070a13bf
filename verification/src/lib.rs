//! Layout and rasterisation logic of a line chart drawn on a 240x320 TFT panel.
//!
//! - [`history`]: the ring buffer that keeps the most recent samples;
//! - [`layout`]: the plot area, grid lines, labels, titles, frame, curve strokes
//!   and the split of a render into its static and dynamic parts;
//! - [`render`]: the order of the drawing steps of a render;
//! - [`raster`]: Bresenham rasterisation of the segments between samples;
//! - [`screen`]: the panel's size and the clipping of single pixels.
pub mod history;
pub mod layout;
pub mod raster;
pub mod render;
pub mod screen;

pub use history::{SampleRing, PLOT_HISTORY_LIMIT};
pub use layout::{Borders, Paint, PlotArea, PlotFrame, Rect, RenderCycle, Rule, Stroke, TickMark};
pub use raster::LineRaster;
pub use render::{DrawOp, Input, Part, RenderWalk, Request};
pub use screen::pixel_target;

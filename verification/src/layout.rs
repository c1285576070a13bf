//! Placement of every element of a chart: the plot area inside the margins,
//! the grid lines and tick labels, the axis titles, the frame and the strokes
//! that join the samples.
//!
//! Positions of ticks and samples that depend on the axis values are computed
//! by the caller (they need floating point) and handed in as pixel offsets;
//! everything decided on integers is decided here.
use vstd::prelude::*;
use crate::history::PLOT_HISTORY_LIMIT;
use crate::screen::{panel_height, screen_height};
use crate::raster::{line_point, step_count, lemma_line_inside_rect};

verus! {

/// `v` is a value of `i32`.
pub open spec fn fits_i32(v: int) -> bool {
    i32::MIN <= v <= i32::MAX
}

/// Quotient of `a` by a positive `b`, rounded toward zero like `/` on Rust
/// integers.
pub open spec fn quot(a: int, b: int) -> int {
    if a >= 0 { a / b } else { -((-a) / b) }
}

/// `v` raised to at least `lo`, then lowered to at most `hi` (in that order,
/// so `hi` wins when `lo > hi`).
pub open spec fn clamp_between(v: int, lo: int, hi: int) -> int {
    let raised = if v < lo { lo } else { v };
    if raised > hi { hi } else { raised }
}

fn larger(a: i32, b: i32) -> (r: i32)
    ensures
        r == (if a < b { b } else { a }),
{
    if a < b { b } else { a }
}

fn smaller(a: i32, b: i32) -> (r: i32)
    ensures
        r == (if a > b { b } else { a }),
{
    if a > b { b } else { a }
}

fn clamp_i32(v: i32, lo: i32, hi: i32) -> (r: i32)
    ensures
        r == clamp_between(v as int, lo as int, hi as int),
{
    smaller(larger(v, lo), hi)
}

fn quot_wide(a: i64, b: i64) -> (q: i64)
    requires
        b > 0,
        a > i64::MIN,
    ensures
        q == quot(a as int, b as int),
        -(a as int) <= q <= a || a <= q <= -(a as int),
{
    if a >= 0 {
        let q = a / b;
        assert(q <= a) by (nonlinear_arith)
            requires
                q as int == (a as int) / (b as int),
                a >= 0,
                b >= 1,
        ;
        q
    } else {
        let na: i64 = -a;
        let nq: i64 = na / b;
        assert(0 <= nq <= na) by (nonlinear_arith)
            requires
                nq as int == (na as int) / (b as int),
                na >= 0,
                b >= 1,
        ;
        -nq
    }
}

fn div_toward_zero(a: i32, b: i32) -> (q: i32)
    requires
        b > 0,
    ensures
        q == quot(a as int, b as int),
{
    quot_wide(a as i64, b as i64) as i32
}

/// The colour role of a drawn element; the caller maps each role to a colour
/// of its configuration.
#[derive(Clone, Copy, Debug, PartialEq, Eq)]
pub enum Paint {
    Background,
    Line,
    Axis,
    Grid,
    Text,
    Label,
    ZeroMark,
}

/// A rectangle given by two opposite corners, both included.
#[derive(Clone, Copy, Debug, PartialEq, Eq)]
pub struct Rect {
    pub x0: u16,
    pub y0: u16,
    pub x1: u16,
    pub y1: u16,
}

/// A horizontal or vertical line of `len` pixels starting at `(x, y)`.
#[derive(Clone, Copy, Debug, PartialEq, Eq)]
pub struct Rule {
    pub x: u16,
    pub y: u16,
    pub len: u16,
    pub vertical: bool,
    pub paint: Paint,
}

/// What goes with one graduation: an optional grid line and the position and
/// colour role of its value label.
#[derive(Clone, Copy, Debug, PartialEq, Eq)]
pub struct TickMark {
    pub grid: Option<Rule>,
    pub label_x: u16,
    pub label_y: u16,
    pub paint: Paint,
}

/// The four sides of the plot area.
#[derive(Clone, Copy, Debug, PartialEq, Eq)]
pub struct Borders {
    pub top: Rule,
    pub bottom: Rule,
    pub left: Rule,
    pub right: Rule,
}

/// What is drawn for a sample of the curve: a lone dot, or a segment from
/// the previous sample.
#[derive(Clone, Copy, Debug, PartialEq, Eq)]
pub enum Stroke {
    Dot { x: i32, y: i32 },
    Segment { x0: i32, y0: i32, x1: i32, y1: i32 },
}

/// The plot area: the part of the chart inside the margins.
#[derive(Clone, Copy, Debug, PartialEq, Eq)]
pub struct PlotArea {
    pub x: i32,
    pub y: i32,
    pub width: i32,
    pub height: i32,
}

/// Which parts of a chart a render draws.  The static part (the chart's
/// box cleared, graduation labels, axis titles and the border) is drawn by
/// the first render and again by the first one after a reset; every render
/// draws the dynamic part (the inside of the plot area cleared, the grid and
/// the curve).
#[derive(Clone, Copy, Debug)]
pub struct RenderCycle {
    static_drawn: bool,
}

impl RenderCycle {
    /// The static part is on the panel already.
    pub closed spec fn static_drawn(&self) -> bool {
        self.static_drawn
    }

    /// A chart nothing of which is on the panel yet.
    pub fn new() -> (c: RenderCycle)
        ensures
            !c.static_drawn(),
    {
        RenderCycle { static_drawn: false }
    }

    /// Starts a render: tells whether it must draw the static part, which
    /// counts as drawn afterwards.
    pub fn begin(&mut self) -> (draw_static: bool)
        ensures
            draw_static == !old(self).static_drawn(),
            final(self).static_drawn(),
    {
        let draw_static = !self.static_drawn;
        self.static_drawn = true;
        draw_static
    }

    /// Makes the next render draw the static part again.
    pub fn reset(&mut self)
        ensures
            !final(self).static_drawn(),
    {
        self.static_drawn = false;
    }
}

/// Integer geometry of a chart: its box and its four margins.
#[derive(Clone, Copy, Debug, PartialEq, Eq)]
pub struct PlotFrame {
    pub x: i32,
    pub y: i32,
    pub width: i32,
    pub height: i32,
    pub margin_left: i32,
    pub margin_right: i32,
    pub margin_top: i32,
    pub margin_bottom: i32,
}

/// Pixel column of sample `index` out of `n` samples spread evenly over the
/// plot area of `frame`.
pub open spec fn sample_column(frame: PlotFrame, index: int, n: int) -> int {
    if n <= 1 {
        frame.area_left()
    } else {
        frame.area_left() + quot(index * (frame.area_width() - 1), n - 1)
    }
}

impl PlotFrame {
    pub open spec fn area_left(&self) -> int {
        self.x + self.margin_left
    }

    pub open spec fn area_top(&self) -> int {
        self.y + self.margin_top
    }

    pub open spec fn area_width(&self) -> int {
        self.width - self.margin_left - self.margin_right
    }

    pub open spec fn area_height(&self) -> int {
        self.height - self.margin_top - self.margin_bottom
    }

    /// Last pixel column of the plot area.
    pub open spec fn area_right(&self) -> int {
        self.area_left() + self.area_width() - 1
    }

    /// Last pixel row of the plot area.
    pub open spec fn area_bottom(&self) -> int {
        self.area_top() + self.area_height() - 1
    }

    /// The plot area has pixels strictly inside its border.
    pub open spec fn has_interior(&self) -> bool {
        self.area_width() >= 3 && self.area_height() >= 3
    }

    /// Column `c` brought inside the border of the plot area.
    pub open spec fn inside_column(&self, c: int) -> int {
        clamp_between(c, self.area_left() + 1, self.area_right() - 1)
    }

    /// Row `r` brought inside the border of the plot area.
    pub open spec fn inside_row(&self, r: int) -> int {
        clamp_between(r, self.area_top() + 1, self.area_bottom() - 1)
    }

    /// Row of the value label of a horizontal grid line at row `grid_y`.
    pub open spec fn y_label_row(&self, grid_y: int) -> int {
        clamp_between(grid_y - 4, self.y + 8, self.y + self.height - 8)
    }

    /// Column of the value label of a vertical grid line at column `grid_x`.
    pub open spec fn x_label_column(&self, grid_x: int) -> int {
        clamp_between(grid_x - 8, self.x + 2, self.x + self.width - 20)
    }

    /// Column where the x axis title of `label_len` characters starts,
    /// centred under the plot area, before it is kept right of the margin.
    pub open spec fn x_title_center(&self, label_len: int) -> int {
        self.area_left() + quot(self.area_width(), 2) - quot((label_len as i32) * 6, 2)
    }

    /// The chart's box, cleared when the whole chart is drawn; none when it
    /// is less than one pixel wide or high.
    pub open spec fn chart_box_rect(&self) -> Option<Rect> {
        if self.width >= 1 && self.height >= 1 {
            Some(
                Rect {
                    x0: self.x as u16,
                    y0: self.y as u16,
                    x1: (self.x + self.width - 1) as u16,
                    y1: (self.y + self.height - 1) as u16,
                },
            )
        } else {
            None
        }
    }

    /// The inside of the plot area, one pixel in from each side, cleared on
    /// every refresh; none when the area is narrower or lower than three
    /// pixels.
    pub open spec fn interior_rect(&self) -> Option<Rect> {
        if self.has_interior() {
            Some(
                Rect {
                    x0: (self.area_left() + 1) as u16,
                    y0: (self.area_top() + 1) as u16,
                    x1: (self.area_right() - 1) as u16,
                    y1: (self.area_bottom() - 1) as u16,
                },
            )
        } else {
            None
        }
    }

    /// Graduation `i` of `n` on the y axis, its grid line `offset` rows
    /// above the bottom row.  Graduations other than the first and the last
    /// get a grid line when it falls strictly inside the border, spanning the
    /// inside of the area; a value near zero gets the zero colour role on the
    /// line and on the label.
    pub open spec fn y_tick_mark(&self, i: int, n: int, offset: int, near_zero: bool) -> TickMark {
        let g = self.area_bottom() - offset;
        TickMark {
            grid: if 0 < i && i < n - 1 && self.has_interior() && self.area_top() < g
                < self.area_bottom() {
                Some(
                    Rule {
                        x: (self.area_left() + 1) as u16,
                        y: g as u16,
                        len: (self.area_width() - 2) as u16,
                        vertical: false,
                        paint: if near_zero { Paint::ZeroMark } else { Paint::Grid },
                    },
                )
            } else {
                None
            },
            label_x: (self.x + 2) as u16,
            label_y: self.y_label_row(g) as u16,
            paint: if near_zero { Paint::ZeroMark } else { Paint::Text },
        }
    }

    /// Graduation `i` of `n` on the x axis, its grid line on column
    /// `grid_x`.  Graduations other than the first and the last get a grid
    /// line when it falls strictly inside the border, spanning the inside of
    /// the area.
    pub open spec fn x_tick_mark(&self, i: int, n: int, grid_x: int) -> TickMark {
        TickMark {
            grid: if 0 < i && i < n - 1 && self.has_interior() && self.area_left() < grid_x
                < self.area_right() {
                Some(
                    Rule {
                        x: grid_x as u16,
                        y: (self.area_top() + 1) as u16,
                        len: (self.area_height() - 2) as u16,
                        vertical: true,
                        paint: Paint::Grid,
                    },
                )
            } else {
                None
            },
            label_x: self.x_label_column(grid_x) as u16,
            label_y: (self.area_bottom() + 4) as u16,
            paint: Paint::Text,
        }
    }

    /// Start of the y axis title: above the chart's top left corner, kept at
    /// or below the panel's first row.
    pub open spec fn y_title_at(&self) -> (u16, u16) {
        ((self.x + 2) as u16, (if self.y - 16 < 0 { 0 } else { self.y - 16 }) as u16)
    }

    /// Start of the x axis title of `label_len` characters: centred under the
    /// plot area but right of the chart's left edge, on the row below the
    /// chart, kept off the panel's last text row.
    pub open spec fn x_title_at(&self, label_len: int) -> (u16, u16) {
        let c = self.x_title_center(label_len);
        let row = self.y + self.height + 4;
        (
            (if c < self.x + 2 { self.x + 2 } else { c }) as u16,
            (if row > panel_height() - 8 { panel_height() - 8 } else { row }) as u16,
        )
    }

    /// The four sides of the plot area, in the frame's colour role.
    pub open spec fn border_rules(&self) -> Borders {
        Borders {
            top: Rule {
                x: self.area_left() as u16,
                y: self.area_top() as u16,
                len: self.area_width() as u16,
                vertical: false,
                paint: Paint::Axis,
            },
            bottom: Rule {
                x: self.area_left() as u16,
                y: self.area_bottom() as u16,
                len: self.area_width() as u16,
                vertical: false,
                paint: Paint::Axis,
            },
            left: Rule {
                x: self.area_left() as u16,
                y: self.area_top() as u16,
                len: self.area_height() as u16,
                vertical: true,
                paint: Paint::Axis,
            },
            right: Rule {
                x: self.area_right() as u16,
                y: self.area_top() as u16,
                len: self.area_height() as u16,
                vertical: true,
                paint: Paint::Axis,
            },
        }
    }

    /// What is drawn for sample `i` of `count` at `point`, after the sample
    /// at `prev`: a lone sample is a dot, every later sample is joined to the
    /// previous one by a segment, and the first of several draws nothing yet.
    /// Both ends are brought inside the border; an area without inside draws
    /// nothing.
    pub open spec fn curve_stroke_at(&self, i: int, count: int, prev: (int, int), point: (int, int)) -> Option<Stroke> {
        if !self.has_interior() || (i == 0 && count != 1) {
            None
        } else if i == 0 {
            Some(
                Stroke::Dot {
                    x: self.inside_column(point.0) as i32,
                    y: self.inside_row(point.1) as i32,
                },
            )
        } else {
            Some(
                Stroke::Segment {
                    x0: self.inside_column(prev.0) as i32,
                    y0: self.inside_row(prev.1) as i32,
                    x1: self.inside_column(point.0) as i32,
                    y1: self.inside_row(point.1) as i32,
                },
            )
        }
    }

    /// Every value computed for the plot area lies in `i32`.
    pub open spec fn area_in_range(&self) -> bool {
        &&& fits_i32(self.area_left())
        &&& fits_i32(self.area_top())
        &&& fits_i32(self.width - self.margin_left)
        &&& fits_i32(self.area_width())
        &&& fits_i32(self.height - self.margin_top)
        &&& fits_i32(self.area_height())
    }

    /// Every value computed while laying out the frame, the labels and the
    /// titles lies in `i32`.
    pub open spec fn render_in_range(&self) -> bool {
        &&& self.area_in_range()
        &&& fits_i32(self.area_left() + self.area_width())
        &&& fits_i32(self.area_right())
        &&& fits_i32(self.area_top() + self.area_height())
        &&& fits_i32(self.area_bottom())
        &&& fits_i32(self.area_bottom() + 4)
        &&& fits_i32(self.area_width() - 1)
        &&& fits_i32(self.area_height() - 1)
        &&& fits_i32(self.x + 2)
        &&& fits_i32(self.y + 8)
        &&& fits_i32(self.y - 16)
        &&& fits_i32(self.y + self.height)
        &&& fits_i32(self.y + self.height - 8)
        &&& fits_i32(self.y + self.height + 4)
        &&& fits_i32(self.x + self.width)
        &&& fits_i32(self.x + self.width - 20)
    }

    /// Whether the plot area can be computed without leaving `i32`.
    pub fn check_area(&self) -> (ok: bool)
        ensures
            ok == self.area_in_range(),
    {
        let x = self.x as i64;
        let y = self.y as i64;
        let w = self.width as i64;
        let h = self.height as i64;
        let min = i32::MIN as i64;
        let max = i32::MAX as i64;
        let left = x + self.margin_left as i64;
        let top = y + self.margin_top as i64;
        let w1 = w - self.margin_left as i64;
        let aw = w1 - self.margin_right as i64;
        let h1 = h - self.margin_top as i64;
        let ah = h1 - self.margin_bottom as i64;
        min <= left && left <= max && min <= top && top <= max && min <= w1 && w1 <= max && min
            <= aw && aw <= max && min <= h1 && h1 <= max && min <= ah && ah <= max
    }

    /// Whether the frame, labels and titles can be laid out without leaving
    /// `i32`.
    pub fn check_render(&self) -> (ok: bool)
        ensures
            ok == self.render_in_range(),
    {
        if !self.check_area() {
            return false;
        }
        let min = i32::MIN as i64;
        let max = i32::MAX as i64;
        let x = self.x as i64;
        let y = self.y as i64;
        let w = self.width as i64;
        let h = self.height as i64;
        let left = x + self.margin_left as i64;
        let top = y + self.margin_top as i64;
        let aw = w - self.margin_left as i64 - self.margin_right as i64;
        let ah = h - self.margin_top as i64 - self.margin_bottom as i64;
        let right_end = left + aw;
        let bottom_end = top + ah;
        let mut ok = true;
        if !(min <= right_end && right_end <= max && min <= right_end - 1 && right_end - 1 <= max) {
            ok = false;
        }
        if !(min <= bottom_end && bottom_end <= max && min <= bottom_end - 1 && bottom_end - 1
            <= max && bottom_end + 3 <= max) {
            ok = false;
        }
        if !(min <= aw - 1 && min <= ah - 1) {
            ok = false;
        }
        if !(x + 2 <= max && min <= y - 16 && y + 8 <= max) {
            ok = false;
        }
        if !(min <= y + h && y + h <= max && min <= y + h - 8 && y + h + 4 <= max) {
            ok = false;
        }
        if !(min <= x + w && x + w <= max && min <= x + w - 20 && x + w - 20 <= max) {
            ok = false;
        }
        ok
    }

    /// Whether graduation labels of the y axis can be placed for a grid
    /// line `offset` rows above the bottom row without leaving `i32`.
    pub fn y_tick_fits(&self, offset: i32) -> (ok: bool)
        requires
            self.render_in_range(),
        ensures
            ok == (fits_i32(self.area_bottom() - offset) && fits_i32(
                self.area_bottom() - offset - 4,
            )),
    {
        let bottom = self.y as i64 + self.margin_top as i64 + self.height as i64
            - self.margin_top as i64 - self.margin_bottom as i64 - 1;
        let g = bottom - offset as i64;
        i32::MIN as i64 <= g - 4 && g <= i32::MAX as i64
    }

    /// Whether the value label of a grid line on column `grid_x` can be
    /// placed without leaving `i32`.
    pub fn x_tick_fits(&self, grid_x: i32) -> (ok: bool)
        ensures
            ok == fits_i32(grid_x - 8),
    {
        grid_x >= i32::MIN + 8
    }

    /// Whether the column of sample `index` out of `n` can be computed
    /// without leaving `i32`.
    pub fn sample_x_fits(&self, index: usize, n: usize) -> (ok: bool)
        requires
            self.render_in_range(),
            index < n <= PLOT_HISTORY_LIMIT,
        ensures
            ok == (fits_i32(index * (self.area_width() - 1)) && fits_i32(
                sample_column(*self, index as int, n as int),
            )),
    {
        let w = self.width as i64 - self.margin_left as i64 - self.margin_right as i64;
        assert((i32::MIN as int) * 240 <= index * (w - 1) <= (i32::MAX as int) * 240)
            by (nonlinear_arith)
            requires
                0 <= index <= 240,
                i32::MIN <= w - 1 <= i32::MAX,
        ;
        let product = index as i64 * (w - 1);
        if !(i32::MIN as i64 <= product && product <= i32::MAX as i64) {
            return false;
        }
        let left = self.x as i64 + self.margin_left as i64;
        let column = if n <= 1 { left } else { left + quot_wide(product, n as i64 - 1) };
        i32::MIN as i64 <= column && column <= i32::MAX as i64
    }

    /// Whether the x axis title of `label_len` characters can be placed
    /// without leaving `i32`.
    pub fn x_title_fits(&self, label_len: usize) -> (ok: bool)
        requires
            self.render_in_range(),
        ensures
            ok == (fits_i32((label_len as i32) * 6) && fits_i32(
                self.area_left() + quot(self.area_width(), 2),
            ) && fits_i32(self.x_title_center(label_len as int))),
    {
        let chars = label_len as i32;
        let text_w = chars as i64 * 6;
        if !(i32::MIN as i64 <= text_w && text_w <= i32::MAX as i64) {
            return false;
        }
        let w = self.width as i64 - self.margin_left as i64 - self.margin_right as i64;
        let left = self.x as i64 + self.margin_left as i64;
        let half = left + quot_wide(w, 2);
        if !(i32::MIN as i64 <= half && half <= i32::MAX as i64) {
            return false;
        }
        let center = half - quot_wide(text_w, 2);
        i32::MIN as i64 <= center && center <= i32::MAX as i64
    }

    /// The plot area inside the margins.
    pub fn plot_area(&self) -> (a: PlotArea)
        requires
            self.area_in_range(),
        ensures
            a.x == self.area_left(),
            a.y == self.area_top(),
            a.width == self.area_width(),
            a.height == self.area_height(),
    {
        PlotArea {
            x: self.x + self.margin_left,
            y: self.y + self.margin_top,
            width: self.width - self.margin_left - self.margin_right,
            height: self.height - self.margin_top - self.margin_bottom,
        }
    }

    /// The rectangle cleared when the whole chart is drawn: the chart's box,
    /// when it is at least one pixel wide and high.
    pub fn chart_box(&self) -> (r: Option<Rect>)
        requires
            self.render_in_range(),
        ensures
            r == self.chart_box_rect(),
    {
        if self.width >= 1 && self.height >= 1 {
            let x1 = self.x + self.width - 1;
            let y1 = self.y + self.height - 1;
            Some(Rect { x0: self.x as u16, y0: self.y as u16, x1: x1 as u16, y1: y1 as u16 })
        } else {
            None
        }
    }

    /// The rectangle cleared on every refresh: the inside of the plot area,
    /// one pixel in from each side so that the border stays untouched.  An
    /// area narrower or lower than three pixels has no inside.
    pub fn interior(&self) -> (r: Option<Rect>)
        requires
            self.render_in_range(),
        ensures
            r == self.interior_rect(),
    {
        let a = self.plot_area();
        if a.width >= 3 && a.height >= 3 {
            let right = a.x + a.width - 1;
            let bottom = a.y + a.height - 1;
            Some(
                Rect {
                    x0: (a.x + 1) as u16,
                    y0: (a.y + 1) as u16,
                    x1: (right - 1) as u16,
                    y1: (bottom - 1) as u16,
                },
            )
        } else {
            None
        }
    }

    /// Graduation `i` of the `n` graduations of the y axis, whose grid line
    /// lies `offset` rows above the bottom row of the plot area.  Only the
    /// graduations between the first and the last one get a grid line, and
    /// only when it falls strictly inside the border; it spans the inside of
    /// the area.  A value near zero gets the zero colour role, on its grid
    /// line and on its label.
    pub fn y_tick(&self, i: usize, n: usize, offset: i32, near_zero: bool) -> (t: TickMark)
        requires
            self.render_in_range(),
            i < n,
            fits_i32(self.area_bottom() - offset),
            fits_i32(self.area_bottom() - offset - 4),
        ensures
            t == self.y_tick_mark(i as int, n as int, offset as int, near_zero),
    {
        let a = self.plot_area();
        let bottom = a.y + a.height - 1;
        let grid_y = bottom - offset;
        let line_paint = if near_zero { Paint::ZeroMark } else { Paint::Grid };
        let grid = if i > 0 && i < n - 1 && a.width >= 3 && a.height >= 3 && a.y < grid_y
            && grid_y < bottom {
            Some(
                Rule {
                    x: (a.x + 1) as u16,
                    y: grid_y as u16,
                    len: (a.width - 2) as u16,
                    vertical: false,
                    paint: line_paint,
                },
            )
        } else {
            None
        };
        let paint = if near_zero { Paint::ZeroMark } else { Paint::Text };
        let row = clamp_i32(grid_y - 4, self.y + 8, self.y + self.height - 8);
        TickMark { grid, label_x: (self.x + 2) as u16, label_y: row as u16, paint }
    }

    /// Graduation `i` of the `n` graduations of the x axis, whose grid line
    /// lies on column `grid_x`.  Only the graduations between the first and
    /// the last one get a grid line, and only when it falls strictly inside
    /// the border; it spans the inside of the area.
    pub fn x_tick(&self, i: usize, n: usize, grid_x: i32) -> (t: TickMark)
        requires
            self.render_in_range(),
            i < n,
            fits_i32(grid_x - 8),
        ensures
            t == self.x_tick_mark(i as int, n as int, grid_x as int),
    {
        let a = self.plot_area();
        let right = a.x + a.width - 1;
        let bottom = a.y + a.height - 1;
        let grid = if i > 0 && i < n - 1 && a.width >= 3 && a.height >= 3 && a.x < grid_x
            && grid_x < right {
            Some(
                Rule {
                    x: grid_x as u16,
                    y: (a.y + 1) as u16,
                    len: (a.height - 2) as u16,
                    vertical: true,
                    paint: Paint::Grid,
                },
            )
        } else {
            None
        };
        let column = clamp_i32(grid_x - 8, self.x + 2, self.x + self.width - 20);
        TickMark { grid, label_x: column as u16, label_y: (bottom + 4) as u16, paint: Paint::Text }
    }

    /// Where the y axis title starts: above the top left corner of the
    /// chart, kept at or below the panel's first row.
    pub fn y_title(&self) -> (p: (u16, u16))
        requires
            self.render_in_range(),
        ensures
            p == self.y_title_at(),
    {
        let top = larger(self.y - 16, 0);
        ((self.x + 2) as u16, top as u16)
    }

    /// Where the x axis title of `label_len` characters starts: centred
    /// under the plot area but right of the chart's left edge, on the row
    /// below the chart, kept off the panel's last text row.
    pub fn x_title(&self, label_len: usize) -> (p: (u16, u16))
        requires
            self.render_in_range(),
            fits_i32((label_len as i32) * 6),
            fits_i32(self.area_left() + quot(self.area_width(), 2)),
            fits_i32(self.x_title_center(label_len as int)),
        ensures
            p == self.x_title_at(label_len as int),
    {
        let a = self.plot_area();
        let chars = label_len as i32;
        let text_w = chars * 6;
        let center = a.x + div_toward_zero(a.width, 2) - div_toward_zero(text_w, 2);
        let column = larger(center, self.x + 2);
        let last_row = screen_height() as i32 - 8;
        let row = smaller(self.y + self.height + 4, last_row);
        (column as u16, row as u16)
    }

    /// The four sides of the plot area, in the frame's colour role.
    pub fn borders(&self) -> (b: Borders)
        requires
            self.render_in_range(),
        ensures
            b == self.border_rules(),
    {
        let a = self.plot_area();
        let right = a.x + a.width - 1;
        let bottom = a.y + a.height - 1;
        let x = a.x as u16;
        let y = a.y as u16;
        let w = a.width as u16;
        let h = a.height as u16;
        Borders {
            top: Rule { x, y, len: w, vertical: false, paint: Paint::Axis },
            bottom: Rule { x, y: bottom as u16, len: w, vertical: false, paint: Paint::Axis },
            left: Rule { x, y, len: h, vertical: true, paint: Paint::Axis },
            right: Rule { x: right as u16, y, len: h, vertical: true, paint: Paint::Axis },
        }
    }

    /// What is drawn for sample `i` of the `count` samples of the curve, at
    /// `point`, after sample `i - 1` at `prev`: a lone sample is a dot, every
    /// later sample is joined to the previous one by a segment, and the
    /// first of several samples draws nothing yet.  Both ends are first
    /// brought inside the border of the plot area; an area without inside
    /// draws nothing.
    pub fn curve_stroke(&self, i: usize, count: usize, prev: (i32, i32), point: (i32, i32)) -> (s:
        Option<Stroke>)
        requires
            self.render_in_range(),
            i < count,
        ensures
            s == self.curve_stroke_at(i as int, count as int, (prev.0 as int, prev.1 as int), (
                point.0 as int,
                point.1 as int,
            )),
    {
        let a = self.plot_area();
        if a.width < 3 || a.height < 3 || (i == 0 && count != 1) {
            return None;
        }
        let right = a.x + a.width - 1;
        let bottom = a.y + a.height - 1;
        let px = clamp_i32(point.0, a.x + 1, right - 1);
        let py = clamp_i32(point.1, a.y + 1, bottom - 1);
        if i == 0 {
            Some(Stroke::Dot { x: px, y: py })
        } else {
            let qx = clamp_i32(prev.0, a.x + 1, right - 1);
            let qy = clamp_i32(prev.1, a.y + 1, bottom - 1);
            Some(Stroke::Segment { x0: qx, y0: qy, x1: px, y1: py })
        }
    }

    /// Column of sample `index` when `n` samples are spread evenly over the
    /// width of the plot area.
    pub fn sample_x(&self, index: usize, n: usize) -> (c: i32)
        requires
            self.render_in_range(),
            index < n <= PLOT_HISTORY_LIMIT,
            fits_i32(index * (self.area_width() - 1)),
            fits_i32(sample_column(*self, index as int, n as int)),
        ensures
            c == sample_column(*self, index as int, n as int),
    {
        let a = self.plot_area();
        if n <= 1 {
            return a.x;
        }
        let i = index as i32;
        let span = a.width - 1;
        let product = i * span;
        a.x + div_toward_zero(product, n as i32 - 1)
    }
}

/// Samples are spread over the whole plot area: the first one on its left
/// column, the last one on its right column, and the columns never go back
/// while the index grows; when the area is at least as wide as the number
/// of samples, two different samples never share a column.
pub proof fn lemma_samples_span_area(frame: PlotFrame, n: int, i: int, j: int)
    requires
        n > 1,
        frame.area_width() >= 1,
        0 <= i <= j < n,
    ensures
        sample_column(frame, 0, n) == frame.area_left(),
        sample_column(frame, n - 1, n) == frame.area_right(),
        frame.area_left() <= sample_column(frame, i, n) <= sample_column(frame, j, n)
            <= frame.area_right(),
        i < j && frame.area_width() >= n ==> sample_column(frame, i, n) < sample_column(
            frame,
            j,
            n,
        ),
{
    let w = frame.area_width() - 1;
    let d = n - 1;
    assert(0 * w == 0) by (nonlinear_arith);
    assert(0int / d == 0) by (nonlinear_arith)
        requires
            d > 0,
    ;
    assert((d * w) / d == w) by (nonlinear_arith)
        requires
            d > 0,
    ;
    assert(d * w == (n - 1) * w);
    assert(0 <= i * w <= j * w <= d * w) by (nonlinear_arith)
        requires
            0 <= i <= j <= d,
            w >= 0,
    ;
    assert(0 <= (i * w) / d <= (j * w) / d <= (d * w) / d) by (nonlinear_arith)
        requires
            0 <= i * w <= j * w <= d * w,
            d > 0,
    ;
    if i < j && w >= d {
        assert(i * w + d <= j * w) by (nonlinear_arith)
            requires
                i < j,
                w >= d,
                d > 0,
        ;
        assert((i * w) / d < (j * w) / d) by (nonlinear_arith)
            requires
                0 <= i * w,
                i * w + d <= j * w,
                d > 0,
        {
            assert((i * w + d) / d == (i * w) / d + 1) by (nonlinear_arith)
                requires
                    d > 0,
                    0 <= i * w,
            ;
            assert((i * w + d) / d <= (j * w) / d) by (nonlinear_arith)
                requires
                    d > 0,
                    0 <= i * w + d <= j * w,
            ;
        }
    }
}

/// Value labels stay inside the chart's box: a y label row lies between the
/// chart's ninth row and its ninth row from the bottom when the chart is at
/// least 16 rows high, and an x label column between the chart's third
/// column and its twentieth column from the right when it is at least 22
/// columns wide.
pub proof fn lemma_labels_inside(frame: PlotFrame, grid_x: int, grid_y: int)
    ensures
        frame.height >= 16 ==> frame.y + 8 <= frame.y_label_row(grid_y) <= frame.y + frame.height
            - 8,
        frame.width >= 22 ==> frame.x + 2 <= frame.x_label_column(grid_x) <= frame.x
            + frame.width - 20,
{
}

/// The curve never touches the border of the plot area: every pixel of a
/// segment between two samples, once both are brought inside the border,
/// lies strictly inside it.
pub proof fn lemma_curve_inside(frame: PlotFrame, p: (int, int), q: (int, int), k: int)
    requires
        frame.has_interior(),
        0 <= k <= step_count(
            frame.inside_column(p.0),
            frame.inside_row(p.1),
            frame.inside_column(q.0),
            frame.inside_row(q.1),
        ),
    ensures
        ({
            let px = line_point(
                frame.inside_column(p.0),
                frame.inside_row(p.1),
                frame.inside_column(q.0),
                frame.inside_row(q.1),
                k,
            );
            &&& frame.area_left() < px.0 < frame.area_right()
            &&& frame.area_top() < px.1 < frame.area_bottom()
        }),
{
    lemma_line_inside_rect(
        frame.inside_column(p.0),
        frame.inside_row(p.1),
        frame.inside_column(q.0),
        frame.inside_row(q.1),
        frame.area_left() + 1,
        frame.area_top() + 1,
        frame.area_right() - 1,
        frame.area_bottom() - 1,
        k,
    );
}

/// Placement of a y graduation, in terms of the chart's own fields: its
/// grid line sits `offset` rows above the plot area's bottom row
/// (`y + height - margin_bottom - 1`); its label starts two columns right of
/// the chart's left edge, four rows above the grid line but kept between
/// the chart's ninth row and its ninth row from the bottom; the grid line of
/// a graduation other than the first and the last runs from one column
/// right of the plot area's left edge to one column left of its right edge,
/// when it falls strictly between the area's top and bottom rows and the
/// area is at least three pixels each way; zero is marked on both.
pub proof fn lemma_y_tick_placement(f: PlotFrame, i: int, n: int, offset: int, near_zero: bool)
    ensures
        ({
            let t = f.y_tick_mark(i, n, offset, near_zero);
            let left = f.x + f.margin_left;
            let top = f.y + f.margin_top;
            let w = f.width - f.margin_left - f.margin_right;
            let h = f.height - f.margin_top - f.margin_bottom;
            let g = f.y + f.height - f.margin_bottom - 1 - offset;
            let lo = f.y + 8;
            let hi = f.y + f.height - 8;
            &&& t.label_x == (f.x + 2) as u16
            &&& lo <= g - 4 <= hi ==> t.label_y == (g - 4) as u16
            &&& g - 4 < lo <= hi ==> t.label_y == lo as u16
            &&& (g - 4 > hi || lo > hi) ==> t.label_y == hi as u16
            &&& t.paint == (if near_zero { Paint::ZeroMark } else { Paint::Text })
            &&& t.grid is Some <==> (0 < i < n - 1 && w >= 3 && h >= 3 && top < g < top + h - 1)
            &&& t.grid matches Some(r) ==> {
                &&& r.x == (left + 1) as u16
                &&& r.y == g as u16
                &&& r.len == (w - 2) as u16
                &&& !r.vertical
                &&& r.paint == (if near_zero { Paint::ZeroMark } else { Paint::Grid })
            }
        }),
{
}

/// Placement of an x graduation whose grid line is on column `grid_x`, in
/// terms of the chart's own fields: its label starts eight columns left of
/// the grid line, kept between the chart's third column and its twentieth
/// column from the right, on the fourth row under the plot area; the grid
/// line of a graduation other than the first and the last runs from one row
/// under the plot area's top to one row above its bottom, when it falls
/// strictly between the area's left and right columns and the area is at
/// least three pixels each way.
pub proof fn lemma_x_tick_placement(f: PlotFrame, i: int, n: int, grid_x: int)
    ensures
        ({
            let t = f.x_tick_mark(i, n, grid_x);
            let left = f.x + f.margin_left;
            let top = f.y + f.margin_top;
            let w = f.width - f.margin_left - f.margin_right;
            let h = f.height - f.margin_top - f.margin_bottom;
            let lo = f.x + 2;
            let hi = f.x + f.width - 20;
            &&& lo <= grid_x - 8 <= hi ==> t.label_x == (grid_x - 8) as u16
            &&& grid_x - 8 < lo <= hi ==> t.label_x == lo as u16
            &&& (grid_x - 8 > hi || lo > hi) ==> t.label_x == hi as u16
            &&& t.label_y == (f.y + f.height - f.margin_bottom + 3) as u16
            &&& t.paint == Paint::Text
            &&& t.grid is Some <==> (0 < i < n - 1 && w >= 3 && h >= 3 && left < grid_x < left + w
                - 1)
            &&& t.grid matches Some(r) ==> {
                &&& r.x == grid_x as u16
                &&& r.y == (top + 1) as u16
                &&& r.len == (h - 2) as u16
                &&& r.vertical
                &&& r.paint == Paint::Grid
            }
        }),
{
}

/// Placement of the axis titles, in terms of the chart's own fields: the y
/// title starts two columns right of the chart's left edge, sixteen rows
/// above its top (row 0 when that is above the panel); the x title starts
/// where a title of `label_len` six-pixel characters is centred under the
/// plot area, but not left of the chart's left edge plus two, on the fourth
/// row below the chart, raised to the panel's last text row (312) when it
/// would be below it.
pub proof fn lemma_title_placement(f: PlotFrame, label_len: int)
    ensures
        f.y_title_at().0 == (f.x + 2) as u16,
        f.y - 16 >= 0 ==> f.y_title_at().1 == (f.y - 16) as u16,
        f.y - 16 < 0 ==> f.y_title_at().1 == 0,
        f.y + f.height + 4 <= 312 ==> f.x_title_at(label_len).1 == (f.y + f.height + 4) as u16,
        f.y + f.height + 4 > 312 ==> f.x_title_at(label_len).1 == 312,
        ({
            let w = f.width - f.margin_left - f.margin_right;
            let half = if w >= 0 { w / 2 } else { -((-w) / 2) };
            let text = (label_len as i32) * 6;
            let half_text = if text >= 0 { text / 2 } else { -((-text) / 2) };
            let c = f.x + f.margin_left + half - half_text;
            &&& c >= f.x + 2 ==> f.x_title_at(label_len).0 == c as u16
            &&& c < f.x + 2 ==> f.x_title_at(label_len).0 == (f.x + 2) as u16
        }),
{
}

/// The rectangles a render clears and the border it draws, in terms of the
/// chart's own fields: the chart's box from `(x, y)` to
/// `(x + width - 1, y + height - 1)`; the inside of the plot area, one pixel
/// in from each side; and the four sides of the plot area.
pub proof fn lemma_clear_and_border_placement(f: PlotFrame)
    ensures
        ({
            let left = f.x + f.margin_left;
            let top = f.y + f.margin_top;
            let w = f.width - f.margin_left - f.margin_right;
            let h = f.height - f.margin_top - f.margin_bottom;
            let b = f.border_rules();
            &&& f.chart_box_rect() is Some <==> (f.width >= 1 && f.height >= 1)
            &&& f.chart_box_rect() matches Some(r) ==> r == (Rect {
                x0: f.x as u16,
                y0: f.y as u16,
                x1: (f.x + f.width - 1) as u16,
                y1: (f.y + f.height - 1) as u16,
            })
            &&& f.interior_rect() is Some <==> (w >= 3 && h >= 3)
            &&& f.interior_rect() matches Some(r) ==> r == (Rect {
                x0: (left + 1) as u16,
                y0: (top + 1) as u16,
                x1: (left + w - 2) as u16,
                y1: (top + h - 2) as u16,
            })
            &&& b.top == (Rule {
                x: left as u16,
                y: top as u16,
                len: w as u16,
                vertical: false,
                paint: Paint::Axis,
            })
            &&& b.bottom == (Rule {
                x: left as u16,
                y: (top + h - 1) as u16,
                len: w as u16,
                vertical: false,
                paint: Paint::Axis,
            })
            &&& b.left == (Rule {
                x: left as u16,
                y: top as u16,
                len: h as u16,
                vertical: true,
                paint: Paint::Axis,
            })
            &&& b.right == (Rule {
                x: (left + w - 1) as u16,
                y: top as u16,
                len: h as u16,
                vertical: true,
                paint: Paint::Axis,
            })
        }),
{
}

/// What the curve draws for a sample, in terms of the chart's own fields:
/// nothing when the plot area is less than three pixels each way or the
/// sample is the first of several; a dot at a lone sample; otherwise a
/// segment from the previous sample to this one.  Each end is the sample's
/// pixel when it lies strictly inside the border, and is otherwise moved
/// onto the nearest column and row strictly inside it.
pub proof fn lemma_curve_stroke_placement(
    f: PlotFrame,
    i: int,
    count: int,
    prev: (int, int),
    point: (int, int),
)
    requires
        f.render_in_range(),
    ensures
        ({
            let left = f.x + f.margin_left;
            let top = f.y + f.margin_top;
            let w = f.width - f.margin_left - f.margin_right;
            let h = f.height - f.margin_top - f.margin_bottom;
            let right = left + w - 1;
            let bottom = top + h - 1;
            let s = f.curve_stroke_at(i, count, prev, point);
            let inside = w >= 3 && h >= 3;
            &&& s is Some <==> (inside && (i != 0 || count == 1))
            &&& s matches Some(Stroke::Dot { x, y }) ==> i == 0
            &&& s matches Some(Stroke::Segment { x0, y0, x1, y1 }) ==> {
                &&& i != 0
                &&& (left < prev.0 < right ==> x0 == prev.0)
                &&& (top < prev.1 < bottom ==> y0 == prev.1)
                &&& (left < point.0 < right ==> x1 == point.0)
                &&& (top < point.1 < bottom ==> y1 == point.1)
                &&& (prev.0 <= left ==> x0 == left + 1)
                &&& (prev.0 >= right ==> x0 == right - 1)
                &&& (prev.1 <= top ==> y0 == top + 1)
                &&& (prev.1 >= bottom ==> y0 == bottom - 1)
                &&& (point.0 <= left ==> x1 == left + 1)
                &&& (point.0 >= right ==> x1 == right - 1)
                &&& (point.1 <= top ==> y1 == top + 1)
                &&& (point.1 >= bottom ==> y1 == bottom - 1)
            }
            &&& s matches Some(Stroke::Dot { x, y }) ==> {
                &&& (left < point.0 < right ==> x == point.0)
                &&& (top < point.1 < bottom ==> y == point.1)
                &&& (point.0 <= left ==> x == left + 1)
                &&& (point.0 >= right ==> x == right - 1)
                &&& (point.1 <= top ==> y == top + 1)
                &&& (point.1 >= bottom ==> y == bottom - 1)
            }
        }),
{
}

/// How a sample's column is rounded, in terms of the chart's own fields:
/// with `n > 1` samples, sample `i`'s column lies `c` columns right of the
/// plot area's left edge, where `c` is `i * (width of the area - 1) / (n - 1)`
/// rounded toward zero, that is `c * (n - 1)` is the multiple of `n - 1`
/// nearest to `i * (w - 1)` on the side of zero; a single sample sits on the
/// left edge.
pub proof fn lemma_sample_column_rounding(f: PlotFrame, i: int, n: int)
    requires
        0 <= i < n,
    ensures
        ({
            let left = f.x + f.margin_left;
            let w = f.width - f.margin_left - f.margin_right;
            let c = sample_column(f, i, n) - left;
            let p = i * (w - 1);
            &&& n == 1 ==> c == 0
            &&& n > 1 && p >= 0 ==> c * (n - 1) <= p < (c + 1) * (n - 1)
            &&& n > 1 && p < 0 ==> (c - 1) * (n - 1) < p <= c * (n - 1)
        }),
{
    if n > 1 {
        let d = n - 1;
        let w = f.width - f.margin_left - f.margin_right;
        let p = i * (w - 1);
        if p >= 0 {
            assert((p / d) * d <= p < (p / d + 1) * d) by (nonlinear_arith)
                requires
                    d > 0,
                    p >= 0,
            ;
        } else {
            let q = (-p) / d;
            assert(q * d <= -p < (q + 1) * d) by (nonlinear_arith)
                requires
                    d > 0,
                    -p > 0,
                    q == (-p) / d,
            ;
            assert((-q - 1) * d < p <= (-q) * d) by (nonlinear_arith)
                requires
                    q * d <= -p < (q + 1) * d,
            ;
        }
    }
}

} // verus!

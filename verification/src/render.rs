//! The order in which a render draws a chart.
//!
//! A render is a fixed sequence of steps.  The first render of a chart (and
//! the first one after a reset) draws the static part: the chart's box
//! cleared, the y then x graduation labels, the two axis titles and the four
//! sides of the border.  Every render then draws the dynamic part: the inside
//! of the plot area cleared, the y then x grid lines and the curve, sample by
//! sample.  A [`RenderWalk`] goes through these steps one at a time: it tells
//! the caller which measured input the next step needs (the pixel offset of
//! a graduation, or the position of a sample, both computed in floating
//! point by the caller), and turns that input into the drawing operation of
//! the step, if any.
use vstd::prelude::*;
use crate::layout::{fits_i32, Paint, PlotFrame, Rect, Rule, Stroke};

verus! {

/// The parts of a render, in the order they are drawn.
#[derive(Clone, Copy, Debug, PartialEq, Eq)]
pub enum Part {
    ChartBox,
    YLabel,
    XLabel,
    YTitle,
    XTitle,
    TopBorder,
    BottomBorder,
    LeftBorder,
    RightBorder,
    Interior,
    YGrid,
    XGrid,
    Curve,
}

/// Steps of the static part, for `ny` and `nx` graduations on the y and x
/// axes: each step is a part and the index of its item.
pub open spec fn static_steps(ny: nat, nx: nat) -> Seq<(Part, int)> {
    seq![(Part::ChartBox, 0int)] + Seq::new(ny, |i: int| (Part::YLabel, i)) + Seq::new(
        nx,
        |i: int| (Part::XLabel, i),
    ) + seq![
        (Part::YTitle, 0int),
        (Part::XTitle, 0int),
        (Part::TopBorder, 0int),
        (Part::BottomBorder, 0int),
        (Part::LeftBorder, 0int),
        (Part::RightBorder, 0int),
    ]
}

/// Steps of the dynamic part, for `ny` and `nx` graduations and `ns`
/// samples.
pub open spec fn refresh_steps(ny: nat, nx: nat, ns: nat) -> Seq<(Part, int)> {
    seq![(Part::Interior, 0int)] + Seq::new(ny, |i: int| (Part::YGrid, i)) + Seq::new(
        nx,
        |i: int| (Part::XGrid, i),
    ) + Seq::new(ns, |i: int| (Part::Curve, i))
}

/// Every step of a render, with or without the static part.
pub open spec fn render_steps(draw_static: bool, ny: nat, nx: nat, ns: nat) -> Seq<(Part, int)> {
    if draw_static {
        static_steps(ny, nx) + refresh_steps(ny, nx, ns)
    } else {
        refresh_steps(ny, nx, ns)
    }
}

/// The measured input a step needs.
#[derive(Clone, Copy, Debug, PartialEq, Eq)]
pub enum Request {
    /// Nothing: the step depends on the frame alone.
    Nothing,
    /// Graduation `i` of the y axis: its row offset and whether it is zero.
    YTick(usize),
    /// Graduation `i` of the x axis: its column.
    XTick(usize),
    /// Sample `i`: its pixel position.
    Sample(usize),
    /// The render is over.
    Finished,
}

/// A measured input handed to a step.
#[derive(Clone, Copy, Debug, PartialEq, Eq)]
pub enum Input {
    Nothing,
    YTick { offset: i32, near_zero: bool },
    XTick { column: i32 },
    Sample { x: i32, y: i32 },
}

/// One drawing operation of a render.
#[derive(Clone, Copy, Debug, PartialEq, Eq)]
pub enum DrawOp {
    /// Clear a rectangle with the background colour.
    Fill(Rect),
    /// Draw a horizontal or vertical line.
    Line(Rule),
    /// Write the value of graduation `tick` of the y axis at `(x, y)`.
    YValue { x: u16, y: u16, paint: Paint, tick: usize },
    /// Write the value of graduation `tick` of the x axis at `(x, y)`.
    XValue { x: u16, y: u16, paint: Paint, tick: usize },
    /// Write the y axis title at `(x, y)`.
    YTitle { x: u16, y: u16 },
    /// Write the x axis title at `(x, y)`.
    XTitle { x: u16, y: u16 },
    /// Draw a dot or a segment of the curve.
    Curve(Stroke),
}

/// The input the step `(part, i)` needs.
pub open spec fn request_for(step: (Part, int)) -> Request {
    match step.0 {
        Part::YLabel | Part::YGrid => Request::YTick(step.1 as usize),
        Part::XLabel | Part::XGrid => Request::XTick(step.1 as usize),
        Part::Curve => Request::Sample(step.1 as usize),
        _ => Request::Nothing,
    }
}

/// `input` is of the kind the step asks for, and its values keep the layout
/// of the step in `i32`.
pub open spec fn input_accepted(frame: PlotFrame, step: (Part, int), input: Input) -> bool {
    match request_for(step) {
        Request::YTick(_) => match input {
            Input::YTick { offset, near_zero } => fits_i32(frame.area_bottom() - offset) && fits_i32(
                frame.area_bottom() - offset - 4,
            ),
            _ => false,
        },
        Request::XTick(_) => match input {
            Input::XTick { column } => fits_i32(column - 8),
            _ => false,
        },
        Request::Sample(_) => input is Sample,
        _ => input is Nothing,
    }
}

/// The drawing operation of step `(part, i)` given its input, the position
/// `prev` of the previous sample, the graduation counts `ny`, `nx`, the
/// sample count `ns` and the length `label_len` of the x axis title.
pub open spec fn op_at(
    frame: PlotFrame,
    step: (Part, int),
    input: Input,
    prev: (int, int),
    ny: int,
    nx: int,
    ns: int,
    label_len: int,
) -> Option<DrawOp> {
    let i = step.1;
    match step.0 {
        Part::ChartBox => match frame.chart_box_rect() {
            Some(r) => Some(DrawOp::Fill(r)),
            None => None,
        },
        Part::YLabel => match input {
            Input::YTick { offset, near_zero } => {
                let t = frame.y_tick_mark(i, ny, offset as int, near_zero);
                Some(DrawOp::YValue { x: t.label_x, y: t.label_y, paint: t.paint, tick: i as usize })
            },
            _ => None,
        },
        Part::XLabel => match input {
            Input::XTick { column } => {
                let t = frame.x_tick_mark(i, nx, column as int);
                Some(DrawOp::XValue { x: t.label_x, y: t.label_y, paint: t.paint, tick: i as usize })
            },
            _ => None,
        },
        Part::YTitle => Some(DrawOp::YTitle { x: frame.y_title_at().0, y: frame.y_title_at().1 }),
        Part::XTitle => Some(
            DrawOp::XTitle { x: frame.x_title_at(label_len).0, y: frame.x_title_at(label_len).1 },
        ),
        Part::TopBorder => Some(DrawOp::Line(frame.border_rules().top)),
        Part::BottomBorder => Some(DrawOp::Line(frame.border_rules().bottom)),
        Part::LeftBorder => Some(DrawOp::Line(frame.border_rules().left)),
        Part::RightBorder => Some(DrawOp::Line(frame.border_rules().right)),
        Part::Interior => match frame.interior_rect() {
            Some(r) => Some(DrawOp::Fill(r)),
            None => None,
        },
        Part::YGrid => match input {
            Input::YTick { offset, near_zero } => match frame.y_tick_mark(
                i,
                ny,
                offset as int,
                near_zero,
            ).grid {
                Some(r) => Some(DrawOp::Line(r)),
                None => None,
            },
            _ => None,
        },
        Part::XGrid => match input {
            Input::XTick { column } => match frame.x_tick_mark(i, nx, column as int).grid {
                Some(r) => Some(DrawOp::Line(r)),
                None => None,
            },
            _ => None,
        },
        Part::Curve => match input {
            Input::Sample { x, y } => match frame.curve_stroke_at(i, ns, prev, (x as int, y as int)) {
                Some(s) => Some(DrawOp::Curve(s)),
                None => None,
            },
            _ => None,
        },
    }
}

/// A render in progress: the chart's frame, the counts the render was
/// started with and the number of steps already taken.
pub struct RenderWalk {
    frame: PlotFrame,
    draw_static: bool,
    ny: usize,
    nx: usize,
    ns: usize,
    label_len: usize,
    done: u128,
    prev: (i32, i32),
}

impl RenderWalk {
    #[verifier::type_invariant]
    spec fn well_formed(&self) -> bool {
        &&& self.frame.render_in_range()
        &&& fits_i32((self.label_len as i32) * 6)
        &&& fits_i32(self.frame.area_left() + crate::layout::quot(self.frame.area_width(), 2))
        &&& fits_i32(self.frame.x_title_center(self.label_len as int))
        &&& self.done <= self.steps().len()
    }

    /// The frame of the chart being drawn.
    pub closed spec fn frame(&self) -> PlotFrame {
        self.frame
    }

    /// Every step of this render.
    pub closed spec fn steps(&self) -> Seq<(Part, int)> {
        render_steps(self.draw_static, self.ny as nat, self.nx as nat, self.ns as nat)
    }

    /// Number of steps already taken.
    pub closed spec fn position(&self) -> int {
        self.done as int
    }

    /// Position of the last sample handed in (the origin before any).
    pub closed spec fn previous(&self) -> (int, int) {
        (self.prev.0 as int, self.prev.1 as int)
    }

    /// Graduation and sample counts, and the x title length, of this render.
    pub closed spec fn counts(&self) -> (int, int, int, int) {
        (self.ny as int, self.nx as int, self.ns as int, self.label_len as int)
    }

    /// Starts a render of `frame` with `ny` graduations on the y axis, `nx`
    /// on the x axis, `ns` samples and an x axis title of `label_len`
    /// characters; the static part is drawn when `draw_static` holds.
    pub fn new(
        frame: PlotFrame,
        draw_static: bool,
        ny: usize,
        nx: usize,
        ns: usize,
        label_len: usize,
    ) -> (w: RenderWalk)
        requires
            frame.render_in_range(),
            fits_i32((label_len as i32) * 6),
            fits_i32(frame.area_left() + crate::layout::quot(frame.area_width(), 2)),
            fits_i32(frame.x_title_center(label_len as int)),
        ensures
            w.frame() == frame,
            w.steps() == render_steps(draw_static, ny as nat, nx as nat, ns as nat),
            w.position() == 0,
            w.previous() == (0int, 0int),
            w.counts() == (ny as int, nx as int, ns as int, label_len as int),
    {
        RenderWalk { frame, draw_static, ny, nx, ns, label_len, done: 0, prev: (0, 0) }
    }

    /// Whether every step was taken.
    pub fn is_done(&self) -> (d: bool)
        ensures
            d == (self.position() == self.steps().len()),
            0 <= self.position() <= self.steps().len(),
    {
        proof {
            use_type_invariant(self);
        }
        self.done == self.total()
    }

    /// Number of steps of this render.
    fn total(&self) -> (t: u128)
        ensures
            t == self.steps().len(),
    {
        let base: u128 = 1 + self.ny as u128 + self.nx as u128 + self.ns as u128;
        if self.draw_static {
            base + 7 + self.ny as u128 + self.nx as u128
        } else {
            base
        }
    }

    /// The step the walk stands on.
    fn locate(&self) -> (s: (Part, usize))
        requires
            0 <= self.position() < self.steps().len(),
        ensures
            (s.0, s.1 as int) == self.steps()[self.position()],
    {
        let ny = self.ny as u128;
        let nx = self.nx as u128;
        let ghost sy = self.ny as nat;
        let ghost sx = self.nx as nat;
        let ghost sn = self.ns as nat;
        let ghost st = static_steps(sy, sx);
        let ghost rf = refresh_steps(sy, sx, sn);
        let mut k = self.done;
        proof {
            let s1 = seq![(Part::ChartBox, 0int)] + Seq::new(sy, |i: int| (Part::YLabel, i));
            let s2 = s1 + Seq::new(sx, |i: int| (Part::XLabel, i));
            assert(st.len() == 7 + sy + sx);
            assert(rf.len() == 1 + sy + sx + sn);
        }
        if self.draw_static {
            let head: u128 = 7 + ny + nx;
            if k < head {
                proof {
                    assert(self.steps()[k as int] == st[k as int]);
                    let s1 = seq![(Part::ChartBox, 0int)] + Seq::new(sy, |i: int| (Part::YLabel, i));
                    let s2 = s1 + Seq::new(sx, |i: int| (Part::XLabel, i));
                    let tail = seq![
                        (Part::YTitle, 0int),
                        (Part::XTitle, 0int),
                        (Part::TopBorder, 0int),
                        (Part::BottomBorder, 0int),
                        (Part::LeftBorder, 0int),
                        (Part::RightBorder, 0int),
                    ];
                    assert(st == s2 + tail);
                    if k < 1 + ny + nx {
                        assert(st[k as int] == s2[k as int]);
                        if k < 1 + ny {
                            assert(s2[k as int] == s1[k as int]);
                        }
                    } else {
                        assert(st[k as int] == tail[k - 1 - ny - nx]);
                    }
                }
                if k == 0 {
                    return (Part::ChartBox, 0);
                } else if k < 1 + ny {
                    return (Part::YLabel, (k - 1) as usize);
                } else if k < 1 + ny + nx {
                    return (Part::XLabel, (k - 1 - ny) as usize);
                }
                let r = k - 1 - ny - nx;
                if r == 0 {
                    return (Part::YTitle, 0);
                } else if r == 1 {
                    return (Part::XTitle, 0);
                } else if r == 2 {
                    return (Part::TopBorder, 0);
                } else if r == 3 {
                    return (Part::BottomBorder, 0);
                } else if r == 4 {
                    return (Part::LeftBorder, 0);
                } else {
                    return (Part::RightBorder, 0);
                }
            }
            proof {
                assert(self.steps()[k as int] == rf[k - head]);
            }
            k = k - head;
        } else {
            proof {
                assert(self.steps()[k as int] == rf[k as int]);
            }
        }
        proof {
            let r1 = seq![(Part::Interior, 0int)] + Seq::new(sy, |i: int| (Part::YGrid, i));
            let r2 = r1 + Seq::new(sx, |i: int| (Part::XGrid, i));
            let r3 = Seq::new(sn, |i: int| (Part::Curve, i));
            assert(rf == r2 + r3);
            if k < 1 + ny + nx {
                assert(rf[k as int] == r2[k as int]);
                if k < 1 + ny {
                    assert(r2[k as int] == r1[k as int]);
                }
            } else {
                assert(rf[k as int] == r3[k - 1 - ny - nx]);
            }
        }
        if k == 0 {
            (Part::Interior, 0)
        } else if k < 1 + ny {
            (Part::YGrid, (k - 1) as usize)
        } else if k < 1 + ny + nx {
            (Part::XGrid, (k - 1 - ny) as usize)
        } else {
            (Part::Curve, (k - 1 - ny - nx) as usize)
        }
    }

    /// What the next step needs.
    pub fn request(&self) -> (r: Request)
        ensures
            r == (if self.position() == self.steps().len() {
                Request::Finished
            } else {
                request_for(self.steps()[self.position()])
            }),
    {
        proof {
            use_type_invariant(self);
        }
        if self.done == self.total() {
            return Request::Finished;
        }
        let (part, i) = self.locate();
        match part {
            Part::YLabel | Part::YGrid => Request::YTick(i),
            Part::XLabel | Part::XGrid => Request::XTick(i),
            Part::Curve => Request::Sample(i),
            _ => Request::Nothing,
        }
    }

    /// Takes the next step with its input: returns the step's drawing
    /// operation, if it draws anything, and moves to the following step.
    pub fn advance(&mut self, input: Input) -> (op: Option<DrawOp>)
        requires
            old(self).position() < old(self).steps().len(),
            input_accepted(old(self).frame(), old(self).steps()[old(self).position()], input),
        ensures
            op == op_at(
                old(self).frame(),
                old(self).steps()[old(self).position()],
                input,
                old(self).previous(),
                old(self).counts().0,
                old(self).counts().1,
                old(self).counts().2,
                old(self).counts().3,
            ),
            final(self).frame() == old(self).frame(),
            final(self).steps() == old(self).steps(),
            final(self).counts() == old(self).counts(),
            final(self).position() == old(self).position() + 1,
            final(self).previous() == (match input {
                Input::Sample { x, y } => (x as int, y as int),
                _ => old(self).previous(),
            }),
    {
        proof {
            use_type_invariant(&*self);
        }
        let (part, i) = self.locate();
        let f = self.frame;
        let op = match part {
            Part::ChartBox => match f.chart_box() {
                Some(r) => Some(DrawOp::Fill(r)),
                None => None,
            },
            Part::YLabel => match input {
                Input::YTick { offset, near_zero } => {
                    let t = f.y_tick(i, self.ny, offset, near_zero);
                    Some(DrawOp::YValue { x: t.label_x, y: t.label_y, paint: t.paint, tick: i })
                },
                _ => None,
            },
            Part::XLabel => match input {
                Input::XTick { column } => {
                    let t = f.x_tick(i, self.nx, column);
                    Some(DrawOp::XValue { x: t.label_x, y: t.label_y, paint: t.paint, tick: i })
                },
                _ => None,
            },
            Part::YTitle => {
                let (x, y) = f.y_title();
                Some(DrawOp::YTitle { x, y })
            },
            Part::XTitle => {
                let (x, y) = f.x_title(self.label_len);
                Some(DrawOp::XTitle { x, y })
            },
            Part::TopBorder => Some(DrawOp::Line(f.borders().top)),
            Part::BottomBorder => Some(DrawOp::Line(f.borders().bottom)),
            Part::LeftBorder => Some(DrawOp::Line(f.borders().left)),
            Part::RightBorder => Some(DrawOp::Line(f.borders().right)),
            Part::Interior => match f.interior() {
                Some(r) => Some(DrawOp::Fill(r)),
                None => None,
            },
            Part::YGrid => match input {
                Input::YTick { offset, near_zero } => match f.y_tick(
                    i,
                    self.ny,
                    offset,
                    near_zero,
                ).grid {
                    Some(r) => Some(DrawOp::Line(r)),
                    None => None,
                },
                _ => None,
            },
            Part::XGrid => match input {
                Input::XTick { column } => match f.x_tick(i, self.nx, column).grid {
                    Some(r) => Some(DrawOp::Line(r)),
                    None => None,
                },
                _ => None,
            },
            Part::Curve => match input {
                Input::Sample { x, y } => match f.curve_stroke(i, self.ns, self.prev, (x, y)) {
                    Some(s) => Some(DrawOp::Curve(s)),
                    None => None,
                },
                _ => None,
            },
        };
        let prev = match input {
            Input::Sample { x, y } => (x, y),
            _ => self.prev,
        };
        *self = RenderWalk { done: self.done + 1, prev, ..*self };
        op
    }
}

/// A render that draws the static part starts by clearing the chart's box,
/// and one that does not starts by clearing the inside of the plot area;
/// both end with the last sample of the curve, and the static part comes
/// whole before the dynamic one.
pub proof fn lemma_render_order(draw_static: bool, ny: nat, nx: nat, ns: nat)
    ensures
        render_steps(draw_static, ny, nx, ns)[0] == (if draw_static {
            (Part::ChartBox, 0int)
        } else {
            (Part::Interior, 0int)
        }),
        ns > 0 ==> render_steps(draw_static, ny, nx, ns).last() == (Part::Curve, ns - 1),
        draw_static ==> render_steps(draw_static, ny, nx, ns) == static_steps(ny, nx)
            + refresh_steps(ny, nx, ns),
        !draw_static ==> render_steps(draw_static, ny, nx, ns) == refresh_steps(ny, nx, ns),
        render_steps(draw_static, ny, nx, ns).len() == (if draw_static {
            8 + 2 * ny + 2 * nx + ns
        } else {
            1 + ny + nx + ns
        }),
{
    let st = static_steps(ny, nx);
    let rf = refresh_steps(ny, nx, ns);
    let r1 = seq![(Part::Interior, 0int)] + Seq::new(ny, |i: int| (Part::YGrid, i));
    let r2 = r1 + Seq::new(nx, |i: int| (Part::XGrid, i));
    let r3 = Seq::new(ns, |i: int| (Part::Curve, i));
    assert(rf == r2 + r3);
    assert(rf[0] == r1[0]);
    if ns > 0 {
        assert(rf.last() == r3[ns - 1]);
    }
    if draw_static {
        let s1 = seq![(Part::ChartBox, 0int)] + Seq::new(ny, |i: int| (Part::YLabel, i));
        let s2 = s1 + Seq::new(nx, |i: int| (Part::XLabel, i));
        assert(st[0] == s1[0]);
        assert((st + rf)[0] == st[0]);
        if ns > 0 {
            assert((st + rf).last() == rf.last());
        }
    }
}

/// Where each step sits in a render, in terms of the counts alone: without
/// the static part, step 0 clears the inside, steps `1 + i` are the y grid
/// lines `i < ny`, steps `1 + ny + i` the x grid lines `i < nx`, steps
/// `1 + ny + nx + i` the samples `i < ns`; with it, these come after
/// `7 + ny + nx` static steps: the chart's box, the y labels `i < ny`, the x
/// labels `i < nx`, the y title, the x title and the top, bottom, left and
/// right sides of the border.
pub proof fn lemma_step_positions(draw_static: bool, ny: nat, nx: nat, ns: nat)
    ensures
        ({
            let steps = render_steps(draw_static, ny, nx, ns);
            let base: int = if draw_static { 7 + ny as int + nx } else { 0 };
            &&& steps.len() == base + 1 + ny as int + nx + ns
            &&& steps[base] == (Part::Interior, 0int)
            &&& forall|i: int| 0 <= i < ny ==> #[trigger] steps[base + 1 + i] == (Part::YGrid, i)
            &&& forall|i: int| 0 <= i < nx ==> #[trigger] steps[base + 1 + ny as int + i] == (Part::XGrid, i)
            &&& forall|i: int|
                0 <= i < ns ==> #[trigger] steps[base + 1 + ny as int + nx + i] == (Part::Curve, i)
            &&& draw_static ==> {
                &&& steps[0] == (Part::ChartBox, 0int)
                &&& forall|i: int| 0 <= i < ny ==> #[trigger] steps[1 + i] == (Part::YLabel, i)
                &&& forall|i: int| 0 <= i < nx ==> #[trigger] steps[1 + ny as int + i] == (Part::XLabel, i)
                &&& steps[1 + ny as int + nx] == (Part::YTitle, 0int)
                &&& steps[2 + ny as int + nx] == (Part::XTitle, 0int)
                &&& steps[3 + ny as int + nx] == (Part::TopBorder, 0int)
                &&& steps[4 + ny as int + nx] == (Part::BottomBorder, 0int)
                &&& steps[5 + ny as int + nx] == (Part::LeftBorder, 0int)
                &&& steps[6 + ny as int + nx] == (Part::RightBorder, 0int)
            }
        }),
{
    let st = static_steps(ny, nx);
    let rf = refresh_steps(ny, nx, ns);
    let s1 = seq![(Part::ChartBox, 0int)] + Seq::new(ny, |i: int| (Part::YLabel, i));
    let s2 = s1 + Seq::new(nx, |i: int| (Part::XLabel, i));
    let tail = seq![
        (Part::YTitle, 0int),
        (Part::XTitle, 0int),
        (Part::TopBorder, 0int),
        (Part::BottomBorder, 0int),
        (Part::LeftBorder, 0int),
        (Part::RightBorder, 0int),
    ];
    let r1 = seq![(Part::Interior, 0int)] + Seq::new(ny, |i: int| (Part::YGrid, i));
    let r2 = r1 + Seq::new(nx, |i: int| (Part::XGrid, i));
    let r3 = Seq::new(ns, |i: int| (Part::Curve, i));
    assert(rf == r2 + r3);
    assert(st == s2 + tail);
    let steps = render_steps(draw_static, ny, nx, ns);
    let base: int = if draw_static { 7 + ny as int + nx } else { 0 };
    assert forall|k: int| 0 <= k < rf.len() implies #[trigger] steps[base + k] == rf[k] by {
        if draw_static {
            assert(steps == st + rf);
        }
    }
    assert(rf[0] == r1[0]);
    assert forall|i: int| 0 <= i < ny implies #[trigger] steps[base + 1 + i] == (Part::YGrid, i) by {
        assert(steps[base + (1 + i)] == rf[1 + i]);
        assert(rf[1 + i] == r2[1 + i]);
        assert(r2[1 + i] == r1[1 + i]);
    }
    assert forall|i: int| 0 <= i < nx implies #[trigger] steps[base + 1 + ny as int + i] == (
        Part::XGrid,
        i,
    ) by {
        assert(steps[base + (1 + ny as int + i)] == rf[1 + ny as int + i]);
        assert(rf[1 + ny as int + i] == r2[1 + ny as int + i]);
    }
    assert forall|i: int| 0 <= i < ns implies #[trigger] steps[base + 1 + ny as int + nx + i] == (
        Part::Curve,
        i,
    ) by {
        assert(steps[base + (1 + ny as int + nx + i)] == rf[1 + ny as int + nx + i]);
        assert(rf[1 + ny as int + nx + i] == r3[i]);
    }
    assert(steps[base + 0] == rf[0]);
    if draw_static {
        assert(steps == st + rf);
        assert forall|k: int| 0 <= k < st.len() implies #[trigger] steps[k] == st[k] by {}
        assert(st[0] == s1[0]);
        assert(steps[0] == st[0]);
        assert forall|i: int| 0 <= i < ny implies #[trigger] steps[1 + i] == (Part::YLabel, i) by {
            assert(steps[1 + i] == st[1 + i]);
            assert(st[1 + i] == s2[1 + i]);
            assert(s2[1 + i] == s1[1 + i]);
        }
        assert forall|i: int| 0 <= i < nx implies #[trigger] steps[1 + ny as int + i] == (Part::XLabel, i) by {
            assert(steps[1 + ny as int + i] == st[1 + ny as int + i]);
            assert(st[1 + ny as int + i] == s2[1 + ny as int + i]);
        }
        assert(steps[1 + ny as int + nx] == st[1 + ny as int + nx]);
        assert(st[1 + ny as int + nx] == tail[0]);
        assert(steps[2 + ny as int + nx] == st[2 + ny as int + nx]);
        assert(st[2 + ny as int + nx] == tail[1]);
        assert(steps[3 + ny as int + nx] == st[3 + ny as int + nx]);
        assert(st[3 + ny as int + nx] == tail[2]);
        assert(steps[4 + ny as int + nx] == st[4 + ny as int + nx]);
        assert(st[4 + ny as int + nx] == tail[3]);
        assert(steps[5 + ny as int + nx] == st[5 + ny as int + nx]);
        assert(st[5 + ny as int + nx] == tail[4]);
        assert(steps[6 + ny as int + nx] == st[6 + ny as int + nx]);
        assert(st[6 + ny as int + nx] == tail[5]);
    }
}

/// The grid steps of a render, in terms of the chart's own fields and the
/// counts of the axis they belong to: the y grid step `i` draws, for every
/// graduation strictly between the first and the last of the `ny` y
/// graduations, a horizontal line `offset` rows above the plot area's bottom
/// row, across the inside of the area, when that row is strictly inside the
/// border; the x grid step `i` does the same for the `nx` x graduations,
/// with a vertical line on `column` down the inside of the area.
pub proof fn lemma_grid_steps(
    f: PlotFrame,
    i: int,
    input: Input,
    prev: (int, int),
    ny: int,
    nx: int,
    ns: int,
    label_len: int,
)
    ensures
        ({
            let left = f.x + f.margin_left;
            let top = f.y + f.margin_top;
            let w = f.width - f.margin_left - f.margin_right;
            let h = f.height - f.margin_top - f.margin_bottom;
            let inside = w >= 3 && h >= 3;
            &&& input matches Input::YTick { offset, near_zero } ==> {
                let g = top + h - 1 - offset;
                let op = op_at(f, (Part::YGrid, i), input, prev, ny, nx, ns, label_len);
                &&& op is Some <==> (0 < i < ny - 1 && inside && top < g < top + h - 1)
                &&& op is Some ==> op == Some(
                    DrawOp::Line(
                        Rule {
                            x: (left + 1) as u16,
                            y: g as u16,
                            len: (w - 2) as u16,
                            vertical: false,
                            paint: if near_zero { Paint::ZeroMark } else { Paint::Grid },
                        },
                    ),
                )
            }
            &&& input matches Input::XTick { column } ==> {
                let op = op_at(f, (Part::XGrid, i), input, prev, ny, nx, ns, label_len);
                &&& op is Some <==> (0 < i < nx - 1 && inside && left < column < left + w - 1)
                &&& op is Some ==> op == Some(
                    DrawOp::Line(
                        Rule {
                            x: column as u16,
                            y: (top + 1) as u16,
                            len: (h - 2) as u16,
                            vertical: true,
                            paint: Paint::Grid,
                        },
                    ),
                )
            }
        }),
{
}

/// The label steps of a render, in terms of the chart's own fields: the y
/// label of graduation `i` is written two columns right of the chart's left
/// edge, in the zero colour role for a value near zero; the x label of
/// graduation `i` is written on the fourth row under the plot area, eight
/// columns left of its grid line when that stays within the chart's third
/// column and its twentieth column from the right.  Both carry their
/// graduation's index.
pub proof fn lemma_label_steps(
    f: PlotFrame,
    i: int,
    input: Input,
    prev: (int, int),
    ny: int,
    nx: int,
    ns: int,
    label_len: int,
)
    requires
        0 <= i <= usize::MAX,
    ensures
        input matches Input::YTick { offset, near_zero } ==> op_at(
            f,
            (Part::YLabel, i),
            input,
            prev,
            ny,
            nx,
            ns,
            label_len,
        ) matches Some(DrawOp::YValue { x, y, paint, tick }) && x == (f.x + 2) as u16 && tick == i
            && paint == (if near_zero { Paint::ZeroMark } else { Paint::Text }),
        input matches Input::XTick { column } ==> op_at(
            f,
            (Part::XLabel, i),
            input,
            prev,
            ny,
            nx,
            ns,
            label_len,
        ) matches Some(DrawOp::XValue { x, y, paint, tick }) && tick == i && paint == Paint::Text
            && y == (f.y + f.height - f.margin_bottom + 3) as u16 && (f.x + 2 <= column - 8 <= f.x
            + f.width - 20 ==> x == (column - 8) as u16),
{
}

/// The steps of a render that need no input, in terms of the chart's own
/// fields: the chart's box and the inside of the plot area are cleared when
/// they have pixels, the titles are written where `lemma_title_placement`
/// says, and each side of the border is drawn in the frame's colour role.
pub proof fn lemma_fixed_steps(
    f: PlotFrame,
    prev: (int, int),
    ny: int,
    nx: int,
    ns: int,
    label_len: int,
)
    ensures
        ({
            let left = f.x + f.margin_left;
            let top = f.y + f.margin_top;
            let w = f.width - f.margin_left - f.margin_right;
            let h = f.height - f.margin_top - f.margin_bottom;
            let op = |p: Part| op_at(f, (p, 0int), Input::Nothing, prev, ny, nx, ns, label_len);
            &&& op(Part::ChartBox) is Some <==> (f.width >= 1 && f.height >= 1)
            &&& op(Part::ChartBox) is Some ==> op(Part::ChartBox) == Some(
                DrawOp::Fill(
                    Rect {
                        x0: f.x as u16,
                        y0: f.y as u16,
                        x1: (f.x + f.width - 1) as u16,
                        y1: (f.y + f.height - 1) as u16,
                    },
                ),
            )
            &&& op(Part::Interior) is Some <==> (w >= 3 && h >= 3)
            &&& op(Part::Interior) is Some ==> op(Part::Interior) == Some(
                DrawOp::Fill(
                    Rect {
                        x0: (left + 1) as u16,
                        y0: (top + 1) as u16,
                        x1: (left + w - 2) as u16,
                        y1: (top + h - 2) as u16,
                    },
                ),
            )
            &&& op(Part::YTitle) matches Some(DrawOp::YTitle { x, y }) && x == (f.x + 2) as u16
            &&& op(Part::XTitle) matches Some(DrawOp::XTitle { x, y }) && (f.y + f.height + 4 <= 312
                ==> y == (f.y + f.height + 4) as u16) && (f.y + f.height + 4 > 312 ==> y == 312)
            &&& op(Part::TopBorder) == Some(
                DrawOp::Line(
                    Rule {
                        x: left as u16,
                        y: top as u16,
                        len: w as u16,
                        vertical: false,
                        paint: Paint::Axis,
                    },
                ),
            )
            &&& op(Part::BottomBorder) == Some(
                DrawOp::Line(
                    Rule {
                        x: left as u16,
                        y: (top + h - 1) as u16,
                        len: w as u16,
                        vertical: false,
                        paint: Paint::Axis,
                    },
                ),
            )
            &&& op(Part::LeftBorder) == Some(
                DrawOp::Line(
                    Rule {
                        x: left as u16,
                        y: top as u16,
                        len: h as u16,
                        vertical: true,
                        paint: Paint::Axis,
                    },
                ),
            )
            &&& op(Part::RightBorder) == Some(
                DrawOp::Line(
                    Rule {
                        x: (left + w - 1) as u16,
                        y: top as u16,
                        len: h as u16,
                        vertical: true,
                        paint: Paint::Axis,
                    },
                ),
            )
        }),
{
    lemma_title_placement_for_steps(f, label_len);
}

proof fn lemma_title_placement_for_steps(f: PlotFrame, label_len: int)
    ensures
        f.y_title_at().0 == (f.x + 2) as u16,
        f.y + f.height + 4 <= 312 ==> f.x_title_at(label_len).1 == (f.y + f.height + 4) as u16,
        f.y + f.height + 4 > 312 ==> f.x_title_at(label_len).1 == 312,
{
    crate::layout::lemma_title_placement(f, label_len);
}

/// The curve steps of a render, in terms of the chart's own fields and the
/// sample count `ns`: sample `i` at `(x, y)` draws nothing when the plot
/// area is less than three pixels each way or it is the first of several
/// samples, a dot when it is the only one, and otherwise a segment that
/// starts at the previous sample `prev` and ends at this one, each end left
/// where it is when strictly inside the border.
pub proof fn lemma_curve_steps(
    f: PlotFrame,
    i: int,
    input: Input,
    prev: (int, int),
    ny: int,
    nx: int,
    ns: int,
    label_len: int,
)
    requires
        f.render_in_range(),
    ensures
        ({
            let left = f.x + f.margin_left;
            let top = f.y + f.margin_top;
            let w = f.width - f.margin_left - f.margin_right;
            let h = f.height - f.margin_top - f.margin_bottom;
            let right = left + w - 1;
            let bottom = top + h - 1;
            let op = op_at(f, (Part::Curve, i), input, prev, ny, nx, ns, label_len);
            input matches Input::Sample { x, y } ==> {
                &&& op is Some <==> (w >= 3 && h >= 3 && (i != 0 || ns == 1))
                &&& op matches Some(DrawOp::Curve(Stroke::Dot { x: dx, y: dy })) ==> {
                    &&& i == 0
                    &&& (left < x < right ==> dx == x)
                    &&& (top < y < bottom ==> dy == y)
                }
                &&& op matches Some(DrawOp::Curve(Stroke::Segment { x0, y0, x1, y1 })) ==> {
                    &&& i != 0
                    &&& (left < prev.0 < right ==> x0 == prev.0)
                    &&& (top < prev.1 < bottom ==> y0 == prev.1)
                    &&& (left < x < right ==> x1 == x)
                    &&& (top < y < bottom ==> y1 == y)
                }
                &&& op matches Some(DrawOp::Curve(s)) ==> (s is Dot || s is Segment)
            }
        }),
{
    if let Input::Sample { x, y } = input {
        crate::layout::lemma_curve_stroke_placement(f, i, ns, prev, (x as int, y as int));
    }
}

/// What each step asks for, and which inputs it takes: label and grid
/// steps of the y axis ask for graduation `i` of the y axis and take its row
/// offset and zero flag, those of the x axis ask for graduation `i` of the x
/// axis and take its column, curve steps ask for sample `i` and take its
/// position, and every other step asks for nothing and takes nothing.
pub proof fn lemma_requests(f: PlotFrame, i: int, offset: i32, near_zero: bool, column: i32, x: i32, y: i32)
    requires
        0 <= i <= usize::MAX,
    ensures
        request_for((Part::YLabel, i)) == Request::YTick(i as usize),
        request_for((Part::YGrid, i)) == Request::YTick(i as usize),
        request_for((Part::XLabel, i)) == Request::XTick(i as usize),
        request_for((Part::XGrid, i)) == Request::XTick(i as usize),
        request_for((Part::Curve, i)) == Request::Sample(i as usize),
        request_for((Part::ChartBox, i)) == Request::Nothing,
        request_for((Part::YTitle, i)) == Request::Nothing,
        request_for((Part::XTitle, i)) == Request::Nothing,
        request_for((Part::TopBorder, i)) == Request::Nothing,
        request_for((Part::BottomBorder, i)) == Request::Nothing,
        request_for((Part::LeftBorder, i)) == Request::Nothing,
        request_for((Part::RightBorder, i)) == Request::Nothing,
        request_for((Part::Interior, i)) == Request::Nothing,
        ({
            let g = f.y + f.height - f.margin_bottom - 1 - offset;
            let yt = Input::YTick { offset, near_zero };
            i32::MIN <= g - 4 && g <= i32::MAX ==> input_accepted(f, (Part::YLabel, i), yt)
                && input_accepted(f, (Part::YGrid, i), yt)
        }),
        column >= i32::MIN + 8 ==> input_accepted(f, (Part::XLabel, i), Input::XTick { column })
            && input_accepted(f, (Part::XGrid, i), Input::XTick { column }),
        input_accepted(f, (Part::Curve, i), Input::Sample { x, y }),
        input_accepted(f, (Part::Interior, i), Input::Nothing),
        !input_accepted(f, (Part::YGrid, i), Input::Nothing),
        !input_accepted(f, (Part::XGrid, i), Input::Nothing),
        !input_accepted(f, (Part::Curve, i), Input::Nothing),
{
}

} // verus!

use embassy_st7789v_plot::{
    DrawOp, Input, Paint, PlotFrame, Rect, RenderWalk, Request, Rule, Stroke,
};

fn doc_frame() -> PlotFrame {
    PlotFrame {
        x: 10,
        y: 10,
        width: 220,
        height: 200,
        margin_left: 40,
        margin_right: 10,
        margin_top: 10,
        margin_bottom: 30,
    }
}

/// Runs a whole render, answering each request with fixed measurements.
fn run(draw_static: bool, ny: usize, nx: usize, samples: &[(i32, i32)]) -> (Vec<Request>, Vec<DrawOp>) {
    let f = doc_frame();
    let mut w = RenderWalk::new(f, draw_static, ny, nx, samples.len(), 4);
    let mut requests = Vec::new();
    let mut ops = Vec::new();
    loop {
        let req = w.request();
        requests.push(req);
        let input = match req {
            Request::Finished => break,
            Request::Nothing => Input::Nothing,
            Request::YTick(i) => Input::YTick { offset: (i as i32) * 159 / (ny as i32 - 1), near_zero: i == 0 },
            Request::XTick(i) => Input::XTick { column: 50 + (i as i32) * 169 / (nx as i32 - 1) },
            Request::Sample(i) => Input::Sample { x: samples[i].0, y: samples[i].1 },
        };
        if let Some(op) = w.advance(input) {
            ops.push(op);
        }
    }
    assert!(w.is_done());
    (requests, ops)
}

#[test]
fn first_render_draws_static_part_then_dynamic_part() {
    let (requests, ops) = run(true, 3, 2, &[(50, 100), (219, 20)]);
    assert_eq!(
        requests,
        vec![
            Request::Nothing,
            Request::YTick(0),
            Request::YTick(1),
            Request::YTick(2),
            Request::XTick(0),
            Request::XTick(1),
            Request::Nothing,
            Request::Nothing,
            Request::Nothing,
            Request::Nothing,
            Request::Nothing,
            Request::Nothing,
            Request::Nothing,
            Request::YTick(0),
            Request::YTick(1),
            Request::YTick(2),
            Request::XTick(0),
            Request::XTick(1),
            Request::Sample(0),
            Request::Sample(1),
            Request::Finished,
        ]
    );
    assert_eq!(
        ops,
        vec![
            DrawOp::Fill(Rect { x0: 10, y0: 10, x1: 229, y1: 209 }),
            DrawOp::YValue { x: 12, y: 175, paint: Paint::ZeroMark, tick: 0 },
            DrawOp::YValue { x: 12, y: 96, paint: Paint::Text, tick: 1 },
            DrawOp::YValue { x: 12, y: 18, paint: Paint::Text, tick: 2 },
            DrawOp::XValue { x: 42, y: 183, paint: Paint::Text, tick: 0 },
            DrawOp::XValue { x: 210, y: 183, paint: Paint::Text, tick: 1 },
            DrawOp::YTitle { x: 12, y: 0 },
            DrawOp::XTitle { x: 123, y: 214 },
            DrawOp::Line(Rule { x: 50, y: 20, len: 170, vertical: false, paint: Paint::Axis }),
            DrawOp::Line(Rule { x: 50, y: 179, len: 170, vertical: false, paint: Paint::Axis }),
            DrawOp::Line(Rule { x: 50, y: 20, len: 160, vertical: true, paint: Paint::Axis }),
            DrawOp::Line(Rule { x: 219, y: 20, len: 160, vertical: true, paint: Paint::Axis }),
            DrawOp::Fill(Rect { x0: 51, y0: 21, x1: 218, y1: 178 }),
            DrawOp::Line(Rule { x: 51, y: 100, len: 168, vertical: false, paint: Paint::Grid }),
            DrawOp::Curve(Stroke::Segment { x0: 51, y0: 100, x1: 218, y1: 21 }),
        ]
    );
}

#[test]
fn later_render_draws_only_dynamic_part() {
    let (requests, ops) = run(false, 3, 3, &[(120, 90)]);
    assert_eq!(requests[0], Request::Nothing);
    assert_eq!(requests.len(), 1 + 3 + 3 + 1 + 1);
    assert_eq!(
        ops,
        vec![
            DrawOp::Fill(Rect { x0: 51, y0: 21, x1: 218, y1: 178 }),
            DrawOp::Line(Rule { x: 51, y: 100, len: 168, vertical: false, paint: Paint::Grid }),
            DrawOp::Line(Rule { x: 134, y: 21, len: 158, vertical: true, paint: Paint::Grid }),
            DrawOp::Curve(Stroke::Dot { x: 120, y: 90 }),
        ]
    );
}

#[test]
fn render_without_samples_or_ticks() {
    let (requests, ops) = run(false, 0, 0, &[]);
    assert_eq!(requests, vec![Request::Nothing, Request::Finished]);
    assert_eq!(ops, vec![DrawOp::Fill(Rect { x0: 51, y0: 21, x1: 218, y1: 178 })]);
}

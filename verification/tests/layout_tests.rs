use embassy_st7789v_plot::{pixel_target, Paint, PlotFrame, Rect, RenderCycle, Rule, Stroke};

fn doc_frame() -> PlotFrame {
    PlotFrame {
        x: 10,
        y: 10,
        width: 220,
        height: 200,
        margin_left: 40,
        margin_right: 10,
        margin_top: 10,
        margin_bottom: 30,
    }
}

#[test]
fn plot_area_inside_margins() {
    let f = doc_frame();
    assert!(f.check_area());
    let a = f.plot_area();
    assert_eq!((a.x, a.y, a.width, a.height), (50, 20, 170, 160));
}

#[test]
fn refresh_clears_only_inside_the_border() {
    let f = doc_frame();
    assert!(f.check_render());
    assert_eq!(f.interior(), Some(Rect { x0: 51, y0: 21, x1: 218, y1: 178 }));
    let thin = PlotFrame { width: 52, ..doc_frame() };
    assert_eq!(thin.interior(), None);
}

#[test]
fn full_render_clears_the_chart_box() {
    let f = doc_frame();
    assert_eq!(f.chart_box(), Some(Rect { x0: 10, y0: 10, x1: 229, y1: 209 }));
    let empty = PlotFrame { height: 0, margin_top: 0, margin_bottom: 0, ..doc_frame() };
    assert_eq!(empty.chart_box(), None);
}

#[test]
fn static_part_drawn_once_until_reset() {
    let mut c = RenderCycle::new();
    assert!(c.begin());
    assert!(!c.begin());
    assert!(!c.begin());
    c.reset();
    assert!(c.begin());
    assert!(!c.begin());
}

#[test]
fn y_ticks_grid_and_labels() {
    let f = doc_frame();
    let first = f.y_tick(0, 6, 0, true);
    assert_eq!(first.grid, None);
    assert_eq!((first.label_x, first.label_y), (12, 175));
    assert_eq!(first.paint, Paint::ZeroMark);
    let mid = f.y_tick(2, 6, 63, false);
    assert_eq!(
        mid.grid,
        Some(Rule { x: 51, y: 116, len: 168, vertical: false, paint: Paint::Grid })
    );
    assert_eq!(mid.label_y, 112);
    assert_eq!(mid.paint, Paint::Text);
    let last = f.y_tick(5, 6, 159, false);
    assert_eq!(last.grid, None);
    // 20 - 4 = 16 is raised to the chart's ninth row
    assert_eq!(last.label_y, 18);
}

#[test]
fn zero_grid_line_is_highlighted() {
    let f = doc_frame();
    // axis -5..5 step 1: graduation 5 of 11 is the value 0, 80 rows up
    let zero = f.y_tick(5, 11, 80, true);
    assert_eq!(
        zero.grid,
        Some(Rule { x: 51, y: 99, len: 168, vertical: false, paint: Paint::ZeroMark })
    );
    assert_eq!(zero.paint, Paint::ZeroMark);
    let other = f.y_tick(4, 11, 64, false);
    assert_eq!(other.grid.map(|r| r.paint), Some(Paint::Grid));
}

#[test]
fn grid_lines_on_or_outside_the_border_are_dropped() {
    let f = doc_frame();
    assert_eq!(f.y_tick(2, 6, 0, false).grid, None);
    assert_eq!(f.y_tick(2, 6, 159, false).grid, None);
    assert_eq!(f.y_tick(2, 6, 200, false).grid, None);
    assert!(f.y_tick(2, 6, 1, false).grid.is_some());
    assert_eq!(f.x_tick(2, 6, 50).grid, None);
    assert_eq!(f.x_tick(2, 6, 219).grid, None);
    assert!(f.x_tick(2, 6, 218).grid.is_some());
}

#[test]
fn x_ticks_grid_and_labels() {
    let f = doc_frame();
    let first = f.x_tick(0, 6, 50);
    assert_eq!(first.grid, None);
    assert_eq!((first.label_x, first.label_y), (42, 183));
    let mid = f.x_tick(3, 6, 151);
    assert_eq!(
        mid.grid,
        Some(Rule { x: 151, y: 21, len: 158, vertical: true, paint: Paint::Grid })
    );
    assert_eq!(mid.label_x, 143);
    let last = f.x_tick(5, 6, 219);
    assert_eq!(last.grid, None);
    // 219 - 8 = 211 is lowered to the chart's twentieth column from the right
    assert_eq!(last.label_x, 210);
    let left = f.x_tick(1, 6, 11);
    assert_eq!(left.label_x, 12);
}

#[test]
fn axis_titles() {
    let f = doc_frame();
    assert_eq!(f.y_title(), (12, 0));
    // 50 + 170 / 2 - (4 * 6) / 2 = 123, on row 10 + 200 + 4
    assert_eq!(f.x_title(4), (123, 214));
    // a long title starts at the chart's left edge plus two
    assert_eq!(f.x_title(40), (15, 214));
    assert_eq!(f.x_title(50), (12, 214));
}

#[test]
fn x_title_kept_off_last_text_row() {
    let f = PlotFrame { x: 0, y: 0, width: 240, height: 320, margin_left: 40, margin_right: 10, margin_top: 10, margin_bottom: 30 };
    assert_eq!(f.x_title(7), (40 + 95 - 21, 312));
    let g = PlotFrame { y: 40, ..doc_frame() };
    assert_eq!(g.y_title(), (12, 24));
}

#[test]
fn borders_of_plot_area() {
    let b = doc_frame().borders();
    assert_eq!(b.top, Rule { x: 50, y: 20, len: 170, vertical: false, paint: Paint::Axis });
    assert_eq!(b.bottom, Rule { x: 50, y: 179, len: 170, vertical: false, paint: Paint::Axis });
    assert_eq!(b.left, Rule { x: 50, y: 20, len: 160, vertical: true, paint: Paint::Axis });
    assert_eq!(b.right, Rule { x: 219, y: 20, len: 160, vertical: true, paint: Paint::Axis });
}

#[test]
fn samples_spread_over_width() {
    let f = doc_frame();
    assert_eq!(f.sample_x(0, 100), 50);
    assert_eq!(f.sample_x(50, 100), 50 + 50 * 169 / 99);
    assert_eq!(f.sample_x(99, 100), 219);
    assert_eq!(f.sample_x(0, 1), 50);
}

#[test]
fn sample_columns_round_toward_zero_for_degenerate_area() {
    let f = PlotFrame { width: 40, ..doc_frame() };
    // plot width is -10, so each column step is -11 / 3 rounded toward zero
    assert_eq!(f.sample_x(1, 4), 50 - 3);
    assert_eq!(f.sample_x(2, 4), 50 - 7);
}

#[test]
fn overflowing_geometry_is_detected() {
    let f = PlotFrame { x: i32::MAX, ..doc_frame() };
    assert!(!f.check_area());
    let g = PlotFrame { height: i32::MAX - 5, margin_top: 0, margin_bottom: 0, ..doc_frame() };
    assert!(g.check_area());
    assert!(!g.check_render());
}

#[test]
fn curve_strokes_stay_inside_the_border() {
    let f = doc_frame();
    assert_eq!(f.curve_stroke(0, 1, (0, 0), (50, 100)), Some(Stroke::Dot { x: 51, y: 100 }));
    assert_eq!(f.curve_stroke(0, 5, (0, 0), (60, 100)), None);
    assert_eq!(
        f.curve_stroke(1, 5, (50, 179), (80, 20)),
        Some(Stroke::Segment { x0: 51, y0: 178, x1: 80, y1: 21 })
    );
    assert_eq!(
        f.curve_stroke(4, 5, (100, 90), (219, 60)),
        Some(Stroke::Segment { x0: 100, y0: 90, x1: 218, y1: 60 })
    );
    let thin = PlotFrame { height: 42, ..doc_frame() };
    assert_eq!(thin.curve_stroke(1, 2, (60, 21), (70, 21)), None);
}

#[test]
fn pixels_off_panel_are_dropped() {
    assert_eq!(pixel_target(100, 150), Some((100, 150)));
    assert_eq!(pixel_target(239, 319), Some((239, 319)));
    assert_eq!(pixel_target(-1, 10), None);
    assert_eq!(pixel_target(10, -1), None);
    assert_eq!(pixel_target(240, 10), None);
    assert_eq!(pixel_target(10, 320), None);
}

#[test]
fn per_element_range_checks() {
    let f = doc_frame();
    assert!(f.y_tick_fits(0));
    assert!(!f.y_tick_fits(i32::MIN));
    assert!(f.x_tick_fits(i32::MIN + 8));
    assert!(!f.x_tick_fits(i32::MIN + 7));
    assert!(f.sample_x_fits(99, 100));
    let wide = PlotFrame { width: i32::MAX - 100, x: 0, margin_left: 0, margin_right: 0, ..doc_frame() };
    assert!(wide.check_render());
    assert!(wide.sample_x_fits(0, 240));
    assert!(!wide.sample_x_fits(239, 240));
    assert!(f.x_title_fits(8));
    assert!(!f.x_title_fits(1 << 29));
}

#[test]
fn distinct_columns_when_area_is_wide_enough() {
    let f = doc_frame();
    let cols: Vec<i32> = (0..100).map(|i| f.sample_x(i, 100)).collect();
    for w in cols.windows(2) {
        assert!(w[0] < w[1]);
    }
}

use embassy_st7789v_plot::LineRaster;

fn walk(x0: i32, y0: i32, x1: i32, y1: i32) -> Vec<(i32, i32)> {
    let mut r = LineRaster::new(x0, y0, x1, y1);
    let mut out = vec![r.point()];
    while !r.is_done() {
        assert!(r.step_fits());
        r.step();
        out.push(r.point());
    }
    out
}

/// Textbook integer Bresenham with the same error term, used as an oracle.
fn oracle(mut x0: i32, mut y0: i32, x1: i32, y1: i32) -> Vec<(i32, i32)> {
    let dx = (x1 - x0).abs();
    let sx = if x0 < x1 { 1 } else { -1 };
    let dy = -(y1 - y0).abs();
    let sy = if y0 < y1 { 1 } else { -1 };
    let mut err = dx + dy;
    let mut out = Vec::new();
    loop {
        out.push((x0, y0));
        if x0 == x1 && y0 == y1 {
            break;
        }
        let e2 = 2 * err;
        if e2 >= dy {
            err += dy;
            x0 += sx;
        }
        if e2 <= dx {
            err += dx;
            y0 += sy;
        }
    }
    out
}

#[test]
fn shallow_segment_pixels() {
    assert_eq!(walk(0, 0, 5, 2), vec![(0, 0), (1, 0), (2, 1), (3, 1), (4, 2), (5, 2)]);
}

#[test]
fn single_pixel_segment() {
    let r = LineRaster::new(7, -3, 7, -3);
    assert!(r.is_done());
    assert_eq!(r.point(), (7, -3));
    assert_eq!(walk(7, -3, 7, -3), vec![(7, -3)]);
}

#[test]
fn horizontal_and_vertical_segments() {
    assert_eq!(walk(3, 4, 0, 4), vec![(3, 4), (2, 4), (1, 4), (0, 4)]);
    assert_eq!(walk(1, 1, 1, 4), vec![(1, 1), (1, 2), (1, 3), (1, 4)]);
}

#[test]
fn diagonal_segment() {
    assert_eq!(walk(0, 0, -3, 3), vec![(0, 0), (-1, 1), (-2, 2), (-3, 3)]);
}

#[test]
fn steep_segment_pixels() {
    assert_eq!(walk(0, 0, 2, 5), vec![(0, 0), (0, 1), (1, 2), (1, 3), (2, 4), (2, 5)]);
}

#[test]
fn matches_reference_rasteriser() {
    for x0 in -6..6 {
        for y0 in -6..6 {
            for x1 in -6..6 {
                for y1 in -6..6 {
                    assert_eq!(walk(x0, y0, x1, y1), oracle(x0, y0, x1, y1));
                }
            }
        }
    }
}

#[test]
fn pixel_count_is_major_span_plus_one() {
    let pts = walk(10, 20, 230, 45);
    assert_eq!(pts.len(), 221);
    assert_eq!(pts[0], (10, 20));
    assert_eq!(*pts.last().unwrap(), (230, 45));
}

#[test]
fn consecutive_pixels_touch() {
    let pts = walk(-40, 17, 93, -60);
    for w in pts.windows(2) {
        let ddx = (w[1].0 - w[0].0).abs();
        let ddy = (w[1].1 - w[0].1).abs();
        assert!(ddx <= 1 && ddy <= 1 && ddx + ddy >= 1);
    }
}

#[test]
fn pixels_stay_near_the_segment() {
    let (x0, y0, x1, y1) = (3, -8, 71, 29);
    let m = 68;
    for (px, py) in walk(x0, y0, x1, y1) {
        let cross = (py - y0) * (x1 - x0) - (px - x0) * (y1 - y0);
        assert!((2 * cross).abs() <= m);
    }
}

#[test]
fn start_fits_rejects_unrepresentable_distances() {
    assert!(LineRaster::start_fits(0, 0, 239, 319));
    assert!(LineRaster::start_fits(i32::MIN + 1, 0, 0, 0));
    assert!(!LineRaster::start_fits(i32::MIN, 0, 0, 0));
    assert!(!LineRaster::start_fits(0, i32::MIN, 0, i32::MAX));
}

#[test]
fn long_axis_segment_steps_without_overflow() {
    let mut r = LineRaster::new(0, 0, 1_000_000_000, 0);
    assert!(r.step_fits());
    r.step();
    assert_eq!(r.point(), (1, 0));
    assert!(r.step_fits());
}

#[test]
fn step_that_would_overflow_is_detected() {
    // error term 1_200_000_000: doubling it leaves i32
    let r = LineRaster::new(0, 0, 1_200_000_000, 0);
    assert!(!r.step_fits());
    let s = LineRaster::new(0, 0, 1_073_741_823, 0);
    assert!(s.step_fits());
}

#[test]
fn segment_between_points_of_a_box_stays_in_it() {
    let (l, t, r, b) = (50, 20, 219, 179);
    for (px, py) in walk(219, 20, 50, 179).into_iter().chain(walk(60, 178, 200, 21)) {
        assert!(l <= px && px <= r && t <= py && py <= b);
    }
}

#[test]
fn no_pixel_visited_twice() {
    let pts = walk(0, 0, 37, -90);
    let mut sorted = pts.clone();
    sorted.sort();
    sorted.dedup();
    assert_eq!(sorted.len(), pts.len());
}

#[test]
fn quarter_range_segment_every_step_fits() {
    let q = i32::MAX / 4;
    let mut r = LineRaster::new(0, 0, 1000, q);
    for _ in 0..5000 {
        assert!(r.step_fits());
        r.step();
    }
}

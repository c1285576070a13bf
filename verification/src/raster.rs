//! Bresenham rasterisation of a segment between two pixels.
//!
//! The drawing loop lives with the display driver; this module decides, one
//! pixel at a time, where the segment goes.  A [`LineRaster`] is created for
//! the two end points, hands out its current pixel, and is stepped until it
//! reports that it reached the far end.  Its pixels are exactly the points of
//! [`line_point`], a closed form of the rasterised segment.
use vstd::prelude::*;
use vstd::arithmetic::div_mod::{lemma_fundamental_div_mod, lemma_fundamental_div_mod_converse};
use crate::layout::fits_i32;

verus! {

/// Distance between two coordinates on one axis.
pub open spec fn span(from: int, to: int) -> int {
    if from <= to { to - from } else { from - to }
}

/// The coordinate reached from `from` after `n` unit moves toward `to`.
pub open spec fn toward(from: int, to: int, n: int) -> int {
    if from < to { from + n } else { from - n }
}

/// Number of moves from the first pixel of a segment to its last one:
/// the larger of the two axis distances.
pub open spec fn step_count(x0: int, y0: int, x1: int, y1: int) -> int {
    if span(x0, x1) >= span(y0, y1) { span(x0, x1) } else { span(y0, y1) }
}

/// Offset on the minor axis after `k` moves on the major axis:
/// `k * minor / major` rounded to the nearest integer, halves rounded up.
pub open spec fn minor_offset(k: int, major: int, minor: int) -> int {
    if major == 0 { 0 } else { (2 * k * minor + major) / (2 * major) }
}

/// The `k`-th pixel of the segment from `(x0, y0)` to `(x1, y1)`.
pub open spec fn line_point(x0: int, y0: int, x1: int, y1: int, k: int) -> (int, int) {
    let a = span(x0, x1);
    let b = span(y0, y1);
    if a >= b {
        (toward(x0, x1, k), toward(y0, y1, minor_offset(k, a, b)))
    } else {
        (toward(x0, x1, minor_offset(k, b, a)), toward(y0, y1, k))
    }
}

/// The axis distances of the segment are values of `i32`, so the rasteriser
/// can start.
pub open spec fn line_start_fits(x0: int, y0: int, x1: int, y1: int) -> bool {
    &&& span(x0, x1) <= i32::MAX
    &&& span(y0, y1) <= i32::MAX
}

/// Error term of Bresenham's algorithm on the `k`-th pixel: the axis
/// distances' difference plus the signed distance of the pixel's offsets
/// from the ideal segment, scaled by the axis distances.
pub open spec fn line_error(x0: int, y0: int, x1: int, y1: int, k: int) -> int {
    let a = span(x0, x1);
    let b = span(y0, y1);
    let (u, v) = if a >= b {
        (k, minor_offset(k, a, b))
    } else {
        (minor_offset(k, b, a), k)
    };
    a - b + (v * a - u * b)
}

/// The move from the `k`-th pixel to the next one keeps every value the
/// error term takes in `i32`: its double, and its value after each of the
/// two axis updates.
pub open spec fn step_fits_at(x0: int, y0: int, x1: int, y1: int, k: int) -> bool {
    let a = span(x0, x1);
    let b = span(y0, y1);
    let e = line_error(x0, y0, x1, y1, k);
    let after_x = if 2 * e >= -b { e - b } else { e };
    let after_y = if 2 * e <= a { after_x + a } else { after_x };
    &&& fits_i32(2 * e)
    &&& fits_i32(after_x)
    &&& fits_i32(after_y)
}

/// Chebyshev distance between two pixels.
pub open spec fn chebyshev(p: (int, int), q: (int, int)) -> int {
    if span(p.0, q.0) >= span(p.1, q.1) { span(p.0, q.0) } else { span(p.1, q.1) }
}

/// `j` is the minor offset that goes with major offset `k`: twice the signed
/// distance of `(k, j)` from the ideal segment, scaled by `major`, lies in
/// `(-major, major]`.
spec fn in_band(major: int, minor: int, k: int, j: int) -> bool {
    -major < 2 * (j * major - k * minor) <= major
}

proof fn lemma_band_offset(major: int, minor: int, k: int, j: int)
    requires
        major > 0,
        in_band(major, minor, k, j),
    ensures
        minor_offset(k, major, minor) == j,
{
    let r = major - 2 * (j * major - k * minor);
    assert(2 * k * minor + major == j * (2 * major) + r) by (nonlinear_arith)
        requires
            r == major - 2 * (j * major - k * minor),
    ;
    lemma_fundamental_div_mod_converse(2 * k * minor + major, 2 * major, j, r);
}

proof fn lemma_offset_band(major: int, minor: int, k: int)
    requires
        major > 0,
    ensures
        in_band(major, minor, k, minor_offset(k, major, minor)),
{
    let n = 2 * k * minor + major;
    let d = 2 * major;
    lemma_fundamental_div_mod(n, d);
    let q = n / d;
    let r = n % d;
    assert(0 <= r < d);
    assert(n == d * q + r);
    assert(2 * (q * major - k * minor) == major - r) by (nonlinear_arith)
        requires
            n == d * q + r,
            n == 2 * k * minor + major,
            d == 2 * major,
    ;
}

proof fn lemma_band_bounds(major: int, minor: int, k: int, j: int)
    requires
        0 <= minor <= major,
        major > 0,
        0 <= k <= major,
        in_band(major, minor, k, j),
    ensures
        0 <= j <= minor,
        j <= k,
        minor - j <= major - k,
{
    assert(j >= 0) by (nonlinear_arith)
        requires
            major > 0,
            0 <= minor,
            0 <= k,
            -major < 2 * (j * major - k * minor),
    {
        if j < 0 {
            assert(j * major <= -major);
            assert(k * minor >= 0);
        }
    }
    assert(j <= minor) by (nonlinear_arith)
        requires
            major > 0,
            0 <= minor,
            k <= major,
            2 * (j * major - k * minor) <= major,
    {
        if j > minor {
            assert(j * major >= (minor + 1) * major);
            assert(k * minor <= major * minor);
        }
    }
    assert(j <= k) by (nonlinear_arith)
        requires
            major > 0,
            0 <= minor <= major,
            0 <= k,
            2 * (j * major - k * minor) <= major,
    {
        if j > k {
            assert(j * major >= (k + 1) * major);
            assert(k * minor <= k * major);
        }
    }
    assert(minor - j <= major - k) by (nonlinear_arith)
        requires
            major > 0,
            0 <= minor <= major,
            0 <= k <= major,
            -major < 2 * (j * major - k * minor),
    {
        if minor - j > major - k {
            assert(j <= k + minor - major - 1);
            assert(j * major <= (k + minor - major - 1) * major);
            assert((major - k) * (major - minor) >= 0);
        }
    }
}

/// One move of the rasteriser: the major offset grows by one, the minor one
/// grows exactly when the midpoint test asks for it, and the band holds again.
proof fn lemma_band_advance(major: int, minor: int, k: int, j: int)
    requires
        0 <= minor <= major,
        0 <= k < major,
        in_band(major, minor, k, j),
    ensures
        ({
            let takes_minor = 2 * (j * major - k * minor) <= 2 * minor - major;
            in_band(major, minor, k + 1, if takes_minor { j + 1 } else { j })
        }),
{
    let d = j * major - k * minor;
    assert((k + 1) * minor == k * minor + minor) by (nonlinear_arith);
    assert((j + 1) * major == j * major + major) by (nonlinear_arith);
    assert(j * major - (k + 1) * minor == d - minor);
    assert((j + 1) * major - (k + 1) * minor == d + major - minor);
}

/// The pixel with offsets `(a, b)` along the two axes, when its offsets are in
/// band, is the pixel of `line_point` with the index of its major offset.
proof fn lemma_on_line(x0: int, y0: int, x1: int, y1: int, a: int, b: int)
    requires
        span(x0, x1) >= span(y0, y1) ==> (span(x0, x1) == 0 && a == 0 && b == 0) || (span(x0, x1) > 0
            && in_band(span(x0, x1), span(y0, y1), a, b)),
        span(x0, x1) < span(y0, y1) ==> in_band(span(y0, y1), span(x0, x1), b, a),
    ensures
        line_point(x0, y0, x1, y1, if span(x0, x1) >= span(y0, y1) { a } else { b }) == (
            toward(x0, x1, a),
            toward(y0, y1, b),
        ),
{
    let sa = span(x0, x1);
    let sb = span(y0, y1);
    if sa >= sb {
        if sa > 0 {
            lemma_band_offset(sa, sb, a, b);
        }
    } else {
        lemma_band_offset(sb, sa, b, a);
    }
}

/// Facts about the `k`-th pixel, stated on its offsets along the two axes.
proof fn lemma_point_offsets(x0: int, y0: int, x1: int, y1: int, k: int)
    requires
        0 <= k <= step_count(x0, y0, x1, y1),
    ensures
        ({
            let sa = span(x0, x1);
            let sb = span(y0, y1);
            let p = line_point(x0, y0, x1, y1, k);
            if sa >= sb {
                &&& p.0 == toward(x0, x1, k)
                &&& p.1 == toward(y0, y1, minor_offset(k, sa, sb))
                &&& sa > 0 ==> in_band(sa, sb, k, minor_offset(k, sa, sb))
                &&& 0 <= minor_offset(k, sa, sb) <= sb
                &&& minor_offset(k, sa, sb) <= k
                &&& sb - minor_offset(k, sa, sb) <= sa - k
            } else {
                &&& p.1 == toward(y0, y1, k)
                &&& p.0 == toward(x0, x1, minor_offset(k, sb, sa))
                &&& in_band(sb, sa, k, minor_offset(k, sb, sa))
                &&& 0 <= minor_offset(k, sb, sa) <= sa
                &&& minor_offset(k, sb, sa) <= k
                &&& sa - minor_offset(k, sb, sa) <= sb - k
            }
        }),
{
    let sa = span(x0, x1);
    let sb = span(y0, y1);
    if sa >= sb {
        if sa > 0 {
            lemma_offset_band(sa, sb, k);
            lemma_band_bounds(sa, sb, k, minor_offset(k, sa, sb));
        }
    } else {
        lemma_offset_band(sb, sa, k);
        lemma_band_bounds(sb, sa, k, minor_offset(k, sb, sa));
    }
}

/// The rasterised segment starts at its first end point and ends at its
/// second one, after exactly `step_count` moves.
pub proof fn lemma_line_endpoints(x0: int, y0: int, x1: int, y1: int)
    ensures
        line_point(x0, y0, x1, y1, 0) == (x0, y0),
        line_point(x0, y0, x1, y1, step_count(x0, y0, x1, y1)) == (x1, y1),
{
    let n = step_count(x0, y0, x1, y1);
    lemma_point_offsets(x0, y0, x1, y1, 0);
    lemma_point_offsets(x0, y0, x1, y1, n);
}

/// Every pixel of the rasterised segment lies in the box spanned by the two
/// end points, and the `k`-th one is `step_count - k` moves away from the
/// last one (Chebyshev distance): each move brings the pixel one step closer.
pub proof fn lemma_line_progress(x0: int, y0: int, x1: int, y1: int, k: int)
    requires
        0 <= k <= step_count(x0, y0, x1, y1),
    ensures
        ({
            let p = line_point(x0, y0, x1, y1, k);
            &&& span(x0, p.0) + span(p.0, x1) == span(x0, x1)
            &&& span(y0, p.1) + span(p.1, y1) == span(y0, y1)
            &&& chebyshev(p, (x1, y1)) == step_count(x0, y0, x1, y1) - k
        }),
{
    lemma_point_offsets(x0, y0, x1, y1, k);
}

/// A segment whose two end points lie in a rectangle stays in it: no pixel
/// of the rasterised segment leaves the rectangle.
pub proof fn lemma_line_inside_rect(
    x0: int,
    y0: int,
    x1: int,
    y1: int,
    left: int,
    top: int,
    right: int,
    bottom: int,
    k: int,
)
    requires
        left <= x0 <= right,
        left <= x1 <= right,
        top <= y0 <= bottom,
        top <= y1 <= bottom,
        0 <= k <= step_count(x0, y0, x1, y1),
    ensures
        left <= line_point(x0, y0, x1, y1, k).0 <= right,
        top <= line_point(x0, y0, x1, y1, k).1 <= bottom,
{
    lemma_line_progress(x0, y0, x1, y1, k);
}

/// The rasterised segment never visits a pixel twice.
pub proof fn lemma_line_no_repeats(x0: int, y0: int, x1: int, y1: int, k: int, l: int)
    requires
        0 <= k < l <= step_count(x0, y0, x1, y1),
    ensures
        line_point(x0, y0, x1, y1, k) != line_point(x0, y0, x1, y1, l),
{
    lemma_line_progress(x0, y0, x1, y1, k);
    lemma_line_progress(x0, y0, x1, y1, l);
}

/// Two consecutive pixels of the rasterised segment touch: they differ by at
/// most one on each axis, and by exactly one on the major axis.
pub proof fn lemma_line_adjacent(x0: int, y0: int, x1: int, y1: int, k: int)
    requires
        0 <= k < step_count(x0, y0, x1, y1),
    ensures
        ({
            let p = line_point(x0, y0, x1, y1, k);
            let q = line_point(x0, y0, x1, y1, k + 1);
            &&& span(p.0, q.0) <= 1
            &&& span(p.1, q.1) <= 1
            &&& chebyshev(p, q) == 1
        }),
{
    let sa = span(x0, x1);
    let sb = span(y0, y1);
    lemma_point_offsets(x0, y0, x1, y1, k);
    lemma_point_offsets(x0, y0, x1, y1, k + 1);
    if sa >= sb {
        let j = minor_offset(k, sa, sb);
        lemma_band_advance(sa, sb, k, j);
        let t = 2 * (j * sa - k * sb) <= 2 * sb - sa;
        lemma_band_offset(sa, sb, k + 1, if t { j + 1 } else { j });
    } else {
        let j = minor_offset(k, sb, sa);
        lemma_band_advance(sb, sa, k, j);
        let t = 2 * (j * sb - k * sa) <= 2 * sa - sb;
        lemma_band_offset(sb, sa, k + 1, if t { j + 1 } else { j });
    }
}

/// Every pixel of the rasterised segment is within half a pixel of the ideal
/// segment along the minor axis: twice the cross product of its offset with
/// the segment is at most `step_count` in absolute value.
pub proof fn lemma_line_near_segment(x0: int, y0: int, x1: int, y1: int, k: int)
    requires
        0 <= k <= step_count(x0, y0, x1, y1),
    ensures
        ({
            let p = line_point(x0, y0, x1, y1, k);
            let cross = (p.1 - y0) * (x1 - x0) - (p.0 - x0) * (y1 - y0);
            -step_count(x0, y0, x1, y1) <= 2 * cross <= step_count(x0, y0, x1, y1)
        }),
{
    let sa = span(x0, x1);
    let sb = span(y0, y1);
    let n = step_count(x0, y0, x1, y1);
    lemma_point_offsets(x0, y0, x1, y1, k);
    let p = line_point(x0, y0, x1, y1, k);
    // offsets of p along the axes, and the signed axis differences
    let (a, b) = if sa >= sb {
        (k, minor_offset(k, sa, sb))
    } else {
        (minor_offset(k, sb, sa), k)
    };
    let cx = p.0 - x0;
    let cy = p.1 - y0;
    let ex = x1 - x0;
    let ey = y1 - y0;
    let d = b * sa - a * sb;
    assert((cx == a && ex == sa) || (cx == -a && ex == -sa));
    assert((cy == b && ey == sb) || (cy == -b && ey == -sb));
    assert(cy * ex - cx * ey == d || cy * ex - cx * ey == -d) by (nonlinear_arith)
        requires
            (cx == a && ex == sa) || (cx == -a && ex == -sa),
            (cy == b && ey == sb) || (cy == -b && ey == -sb),
            d == b * sa - a * sb,
    ;
    if sa >= sb {
        if sa == 0 {
            assert(d == 0) by (nonlinear_arith)
                requires
                    sa == 0,
                    sb == 0,
                    d == b * sa - a * sb,
            ;
        }
    }
    assert(-n <= 2 * d <= n);
}

/// A segment whose axis distances are at most a quarter of `i32::MAX` is
/// rasterised from its first pixel to its last one without any value of the
/// error term leaving `i32`: every move fits.
pub proof fn lemma_short_line_steps_fit(x0: int, y0: int, x1: int, y1: int, k: int)
    requires
        4 * span(x0, x1) <= i32::MAX,
        4 * span(y0, y1) <= i32::MAX,
        0 <= k < step_count(x0, y0, x1, y1),
    ensures
        line_start_fits(x0, y0, x1, y1),
        step_fits_at(x0, y0, x1, y1, k),
{
    let sa = span(x0, x1);
    let sb = span(y0, y1);
    lemma_point_offsets(x0, y0, x1, y1, k);
    let (u, v) = if sa >= sb {
        (k, minor_offset(k, sa, sb))
    } else {
        (minor_offset(k, sb, sa), k)
    };
    let d = v * sa - u * sb;
    if sa >= sb {
        assert(sa > 0);
        assert(-sa < 2 * d <= sa);
    } else {
        assert(-sb < 2 * (u * sb - k * sa) <= sb);
        assert(u * sb - k * sa == -d);
        assert(-sb <= 2 * d < sb);
    }
    assert(line_error(x0, y0, x1, y1, k) == sa - sb + d);
}

/// How the rasterised segment rounds, in terms of the end points alone: the
/// `k`-th pixel is `k` moves from the first one along the major axis, and
/// its offset `m` along the minor axis is `k * minor / major` rounded to the
/// nearest integer with halves rounded up, that is
/// `-major < 2 * (m * major - k * minor) <= major`.
pub proof fn lemma_line_rounding(x0: int, y0: int, x1: int, y1: int, k: int)
    requires
        0 <= k <= step_count(x0, y0, x1, y1),
    ensures
        ({
            let p = line_point(x0, y0, x1, y1, k);
            let a = if x0 <= x1 { x1 - x0 } else { x0 - x1 };
            let b = if y0 <= y1 { y1 - y0 } else { y0 - y1 };
            let u = if x0 <= p.0 { p.0 - x0 } else { x0 - p.0 };
            let v = if y0 <= p.1 { p.1 - y0 } else { y0 - p.1 };
            &&& (x0 < x1 ==> x0 <= p.0 <= x1) && (x1 <= x0 ==> x1 <= p.0 <= x0)
            &&& (y0 < y1 ==> y0 <= p.1 <= y1) && (y1 <= y0 ==> y1 <= p.1 <= y0)
            &&& a >= b && a > 0 ==> u == k && -a < 2 * (v * a - k * b) <= a
            &&& a < b ==> v == k && -b < 2 * (u * b - k * a) <= b
            &&& a == 0 && b == 0 ==> p == (x0, y0)
        }),
{
    lemma_point_offsets(x0, y0, x1, y1, k);
}

/// Walks the pixels of the segment from `(x0, y0)` to `(x1, y1)`, first to
/// last, with the integer error term of Bresenham's algorithm.
pub struct LineRaster {
    x0: i32,
    y0: i32,
    x1: i32,
    y1: i32,
    x: i32,
    y: i32,
    dx: i32,
    dy: i32,
    sx: i32,
    sy: i32,
    err: i32,
}

impl LineRaster {
    /// Moves made on the x axis so far.
    spec fn moved_x(&self) -> int {
        span(self.x0 as int, self.x as int)
    }

    /// Moves made on the y axis so far.
    spec fn moved_y(&self) -> int {
        span(self.y0 as int, self.y as int)
    }

    #[verifier::type_invariant]
    spec fn well_formed(&self) -> bool {
        let sa = span(self.x0 as int, self.x1 as int);
        let sb = span(self.y0 as int, self.y1 as int);
        let a = self.moved_x();
        let b = self.moved_y();
        &&& line_start_fits(self.x0 as int, self.y0 as int, self.x1 as int, self.y1 as int)
        &&& self.dx == sa
        &&& self.dy == -sb
        &&& self.sx == (if self.x0 < self.x1 { 1int } else { -1int })
        &&& self.sy == (if self.y0 < self.y1 { 1int } else { -1int })
        &&& self.x == toward(self.x0 as int, self.x1 as int, a)
        &&& self.y == toward(self.y0 as int, self.y1 as int, b)
        &&& 0 <= a <= sa
        &&& 0 <= b <= sb
        &&& self.err == sa - sb + (b * sa - a * sb)
        &&& sa >= sb ==> (sa == 0 && a == 0 && b == 0) || (sa > 0 && in_band(sa, sb, a, b))
        &&& sa < sb ==> in_band(sb, sa, b, a)
    }

    /// First pixel of the segment.
    pub closed spec fn start(&self) -> (int, int) {
        (self.x0 as int, self.y0 as int)
    }

    /// Last pixel of the segment.
    pub closed spec fn end(&self) -> (int, int) {
        (self.x1 as int, self.y1 as int)
    }

    /// Number of moves made since the first pixel.
    pub closed spec fn index(&self) -> int {
        if span(self.x0 as int, self.x1 as int) >= span(self.y0 as int, self.y1 as int) {
            self.moved_x()
        } else {
            self.moved_y()
        }
    }

    /// Number of moves from the first pixel to the last one.
    pub open spec fn total(&self) -> int {
        step_count(self.start().0, self.start().1, self.end().0, self.end().1)
    }

    /// The pixel the rasteriser stands on.
    pub open spec fn current(&self) -> (int, int) {
        line_point(self.start().0, self.start().1, self.end().0, self.end().1, self.index())
    }

    /// Whether a segment between these end points can be started: both axis
    /// distances are values of `i32`.
    pub fn start_fits(x0: i32, y0: i32, x1: i32, y1: i32) -> (ok: bool)
        ensures
            ok == line_start_fits(x0 as int, y0 as int, x1 as int, y1 as int),
    {
        let ax: i64 = if x0 <= x1 { x1 as i64 - x0 as i64 } else { x0 as i64 - x1 as i64 };
        let ay: i64 = if y0 <= y1 { y1 as i64 - y0 as i64 } else { y0 as i64 - y1 as i64 };
        ax <= i32::MAX as i64 && ay <= i32::MAX as i64
    }

    /// Whether the next move keeps every value of the error term in `i32`.
    pub fn step_fits(&self) -> (ok: bool)
        ensures
            ok == step_fits_at(self.start().0, self.start().1, self.end().0, self.end().1, self.index()),
    {
        proof {
            use_type_invariant(self);
            lemma_on_line(
                self.x0 as int,
                self.y0 as int,
                self.x1 as int,
                self.y1 as int,
                self.moved_x(),
                self.moved_y(),
            );
        }
        let e = self.err as i64;
        let e2 = 2 * e;
        let after_x = if e2 >= self.dy as i64 { e + self.dy as i64 } else { e };
        let after_y = if e2 <= self.dx as i64 { after_x + self.dx as i64 } else { after_x };
        let lo = i32::MIN as i64;
        let hi = i32::MAX as i64;
        lo <= e2 && e2 <= hi && lo <= after_x && after_x <= hi && lo <= after_y && after_y <= hi
    }

    /// Starts a segment at its first pixel.
    pub fn new(x0: i32, y0: i32, x1: i32, y1: i32) -> (r: LineRaster)
        requires
            line_start_fits(x0 as int, y0 as int, x1 as int, y1 as int),
        ensures
            r.start() == (x0 as int, y0 as int),
            r.end() == (x1 as int, y1 as int),
            r.index() == 0,
            r.current() == (x0 as int, y0 as int),
    {
        let dx: i32 = if x0 <= x1 { x1 - x0 } else { x0 - x1 };
        let sx: i32 = if x0 < x1 { 1 } else { -1 };
        let dy: i32 = if y0 <= y1 { y0 - y1 } else { y1 - y0 };
        let sy: i32 = if y0 < y1 { 1 } else { -1 };
        proof {
            let sa = span(x0 as int, x1 as int);
            let sb = span(y0 as int, y1 as int);
            assert(0int * sa == 0 && 0int * sb == 0) by (nonlinear_arith);
            if sa >= sb && sa > 0 {
                assert(in_band(sa, sb, 0, 0));
            }
            if sa < sb {
                assert(in_band(sb, sa, 0, 0));
            }
            lemma_line_endpoints(x0 as int, y0 as int, x1 as int, y1 as int);
        }
        LineRaster { x0, y0, x1, y1, x: x0, y: y0, dx, dy, sx, sy, err: dx + dy }
    }

    /// The pixel the rasteriser stands on.
    pub fn point(&self) -> (p: (i32, i32))
        ensures
            (p.0 as int, p.1 as int) == self.current(),
            0 <= self.index() <= self.total(),
    {
        proof {
            use_type_invariant(self);
            lemma_on_line(
                self.x0 as int,
                self.y0 as int,
                self.x1 as int,
                self.y1 as int,
                self.moved_x(),
                self.moved_y(),
            );
        }
        (self.x, self.y)
    }

    /// Whether the rasteriser stands on the last pixel.
    pub fn is_done(&self) -> (done: bool)
        ensures
            done == (self.index() == self.total()),
            0 <= self.index() <= self.total(),
    {
        proof {
            use_type_invariant(self);
            let sa = span(self.x0 as int, self.x1 as int);
            let sb = span(self.y0 as int, self.y1 as int);
            if sa >= sb {
                if sa > 0 {
                    lemma_band_bounds(sa, sb, self.moved_x(), self.moved_y());
                }
            } else {
                lemma_band_bounds(sb, sa, self.moved_y(), self.moved_x());
            }
        }
        self.x == self.x1 && self.y == self.y1
    }

    /// Moves to the next pixel of the segment.
    pub fn step(&mut self)
        requires
            old(self).index() < old(self).total(),
            step_fits_at(
                old(self).start().0,
                old(self).start().1,
                old(self).end().0,
                old(self).end().1,
                old(self).index(),
            ),
        ensures
            final(self).start() == old(self).start(),
            final(self).end() == old(self).end(),
            final(self).index() == old(self).index() + 1,
    {
        proof {
            use_type_invariant(&*self);
        }
        let ghost sa = span(self.x0 as int, self.x1 as int);
        let ghost sb = span(self.y0 as int, self.y1 as int);
        let ghost a = self.moved_x();
        let ghost b = self.moved_y();
        let ghost d = b * sa - a * sb;
        let ghost take_x: bool = 2 * (sa - sb + d) >= -sb;
        let ghost take_y: bool = 2 * (sa - sb + d) <= sa;
        let ghost a2: int = if take_x { a + 1 } else { a };
        let ghost b2: int = if take_y { b + 1 } else { b };
        proof {
            assert((a + 1) * sb == a * sb + sb) by (nonlinear_arith);
            assert((b + 1) * sa == b * sa + sa) by (nonlinear_arith);
            assert(b2 * sa - a2 * sb == d + (if take_y { sa } else { 0 }) - (if take_x { sb } else { 0 }));
            if sa >= sb {
                assert(sa > 0);
                lemma_band_advance(sa, sb, a, b);
                assert(take_x);
                lemma_band_bounds(sa, sb, a + 1, b2);
            } else {
                lemma_band_advance(sb, sa, b, a);
                assert(take_y);
                lemma_band_bounds(sb, sa, b + 1, a2);
            }
        }
        proof {
            lemma_on_line(self.x0 as int, self.y0 as int, self.x1 as int, self.y1 as int, a, b);
        }
        let e = self.err as i64;
        let e2 = 2 * e;
        let mut err = e;
        let mut x = self.x;
        let mut y = self.y;
        if e2 >= self.dy as i64 {
            err = err + self.dy as i64;
            x = x + self.sx;
        }
        if e2 <= self.dx as i64 {
            err = err + self.dx as i64;
            y = y + self.sy;
        }
        let err = err as i32;
        *self = LineRaster { x, y, err, ..*self };
    }
}

} // verus!

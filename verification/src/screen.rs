//! The panel's dimensions, as the display driver defines them, and the
//! clipping of single pixels against them.
use vstd::prelude::*;

verus! {

/// Width of the panel in pixels.
pub open spec fn panel_width() -> int {
    240
}

/// Height of the panel in pixels.
pub open spec fn panel_height() -> int {
    320
}

/// Reads `embassy_st7789v::SCREEN_W`; the driver's source declares it as the
/// constant 240, which is all the contract claims.
#[verifier::external_body]
pub(crate) fn screen_width() -> (w: u16)
    ensures
        w == panel_width(),
{
    embassy_st7789v::SCREEN_W
}

/// Reads `embassy_st7789v::SCREEN_H`; the driver's source declares it as the
/// constant 320, which is all the contract claims.
#[verifier::external_body]
pub(crate) fn screen_height() -> (h: u16)
    ensures
        h == panel_height(),
{
    embassy_st7789v::SCREEN_H
}

/// Whether the pixel `(x, y)` lies on the panel.
pub open spec fn on_panel(x: int, y: int) -> bool {
    0 <= x < panel_width() && 0 <= y < panel_height()
}

/// The driver coordinates of the pixel `(x, y)` when it lies on the panel;
/// pixels off the panel are dropped.
pub fn pixel_target(x: i32, y: i32) -> (r: Option<(u16, u16)>)
    ensures
        r is Some <==> on_panel(x as int, y as int),
        r matches Some(p) ==> p.0 == x && p.1 == y,
{
    let w = screen_width();
    let h = screen_height();
    if x >= 0 && y >= 0 && x < w as i32 && y < h as i32 {
        Some((x as u16, y as u16))
    } else {
        None
    }
}

/// A pixel is on the panel exactly when its column is in `0..240` and its
/// row in `0..320`: the panel is 240 pixels wide and 320 high.
pub proof fn lemma_panel_bounds(x: int, y: int)
    ensures
        on_panel(x, y) <==> (0 <= x < 240 && 0 <= y < 320),
        panel_width() == 240,
        panel_height() == 320,
{
}

} // verus!

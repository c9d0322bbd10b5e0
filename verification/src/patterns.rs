//! Test patterns for checking a freshly wired panel: a border, diagonals from the
//! corners, an origin marker in the top-left corner and a full checkerboard, and the
//! sequence of frames that the display bring-up test shows.
use vstd::prelude::*;
use crate::ssd1306::{Ssd1306, on_screen, pixel};

verus! {

/// Whether `(x, y)` lies on the one-pixel border of the panel.
pub open spec fn border_pixel(x: int, y: int) -> bool {
    x == 0 || x == 127 || y == 0 || y == 63
}

/// Whether `(x, y)` lies on one of the two diagonals drawn from the corners: for each
/// row `i`, the columns `i * 127 / 63` and `127 - i * 127 / 63`.
pub open spec fn diagonal_pixel(x: int, y: int) -> bool {
    0 <= y < 64 && (x == y * 127 / 63 || x == 127 - y * 127 / 63)
}

/// Whether `(x, y)` lies in the solid 6x6 origin marker at columns and rows 2..8.
pub open spec fn marker_pixel(x: int, y: int) -> bool {
    2 <= x < 8 && 2 <= y < 8
}

/// Whether `(x, y)` is lit in the checkerboard: where `x + y` is even.
pub open spec fn checker_pixel(x: int, y: int) -> bool {
    (x + y) % 2 == 0
}

/// Turns on the one-pixel border around the full panel.
pub fn draw_border<I2C>(display: &mut Ssd1306<I2C>)
    ensures
        final(display).bus() == old(display).bus(),
        final(display)@.len() == 1024,
        forall|x: int, y: int| on_screen(x, y) ==> pixel(final(display)@, x, y)
            == (pixel(old(display)@, x, y) || border_pixel(x, y)),
{
    let ghost start = display@;
    proof { display.lemma_frame_len(); }
    let mut x: usize = 0;
    while x < 128
        invariant
            0 <= x <= 128,
            display.bus() == old(display).bus(),
            start == old(display)@,
            display@.len() == 1024,
            forall|px: int, py: int| on_screen(px, py) ==> pixel(display@, px, py)
                == (pixel(start, px, py) || (px < x && (py == 0 || py == 63))),
        decreases 128 - x,
    {
        display.set_pixel(x, 0, true);
        display.set_pixel(x, 63, true);
        x = x + 1;
    }
    let mut y: usize = 0;
    while y < 64
        invariant
            0 <= y <= 64,
            display.bus() == old(display).bus(),
            start == old(display)@,
            display@.len() == 1024,
            forall|px: int, py: int| on_screen(px, py) ==> pixel(display@, px, py)
                == (pixel(start, px, py) || py == 0 || py == 63 || (py < y && (px == 0 || px == 127))),
        decreases 64 - y,
    {
        display.set_pixel(0, y, true);
        display.set_pixel(127, y, true);
        y = y + 1;
    }
}

/// Turns on diagonal lines from the four corners towards the centre, so that a rotated
/// or mirrored panel shows at once.
pub fn draw_diagonals<I2C>(display: &mut Ssd1306<I2C>)
    ensures
        final(display).bus() == old(display).bus(),
        final(display)@.len() == 1024,
        forall|x: int, y: int| on_screen(x, y) ==> pixel(final(display)@, x, y)
            == (pixel(old(display)@, x, y) || diagonal_pixel(x, y)),
{
    let ghost start = display@;
    proof { display.lemma_frame_len(); }
    let mut i: usize = 0;
    while i < 64
        invariant
            0 <= i <= 64,
            display.bus() == old(display).bus(),
            start == old(display)@,
            display@.len() == 1024,
            forall|px: int, py: int| on_screen(px, py) ==> pixel(display@, px, py)
                == (pixel(start, px, py) || (py < i && diagonal_pixel(px, py))),
        decreases 64 - i,
    {
        let x = i * 127 / 63;
        assert(x <= 127) by (nonlinear_arith)
            requires x == i * 127 / 63, i < 64;
        display.set_pixel(x, i, true);
        display.set_pixel(127 - x, i, true);
        i = i + 1;
    }
}

/// Turns on the solid 6x6 "this side up" marker near the top-left corner.
pub fn draw_origin_marker<I2C>(display: &mut Ssd1306<I2C>)
    ensures
        final(display).bus() == old(display).bus(),
        final(display)@.len() == 1024,
        forall|x: int, y: int| on_screen(x, y) ==> pixel(final(display)@, x, y)
            == (pixel(old(display)@, x, y) || marker_pixel(x, y)),
{
    let ghost start = display@;
    proof { display.lemma_frame_len(); }
    let mut x: usize = 2;
    while x < 8
        invariant
            2 <= x <= 8,
            display.bus() == old(display).bus(),
            start == old(display)@,
            display@.len() == 1024,
            forall|px: int, py: int| on_screen(px, py) ==> pixel(display@, px, py)
                == (pixel(start, px, py) || (px < x && marker_pixel(px, py))),
        decreases 8 - x,
    {
        let mut y: usize = 2;
        while y < 8
            invariant
                2 <= x < 8,
                2 <= y <= 8,
                display.bus() == old(display).bus(),
                start == old(display)@,
                display@.len() == 1024,
                forall|px: int, py: int| on_screen(px, py) ==> pixel(display@, px, py)
                    == (pixel(start, px, py) || (px < x && marker_pixel(px, py))
                        || (px == x && 2 <= py < y)),
            decreases 8 - y,
        {
            display.set_pixel(x, y, true);
            y = y + 1;
        }
        x = x + 1;
    }
}

/// Sets every pixel of the panel to the checkerboard, whatever was drawn before.
pub fn draw_checkerboard<I2C>(display: &mut Ssd1306<I2C>)
    ensures
        final(display).bus() == old(display).bus(),
        final(display)@.len() == 1024,
        forall|x: int, y: int| on_screen(x, y) ==> pixel(final(display)@, x, y)
            == checker_pixel(x, y),
{
    let ghost start = display@;
    proof { display.lemma_frame_len(); }
    let mut y: usize = 0;
    while y < 64
        invariant
            0 <= y <= 64,
            display.bus() == old(display).bus(),
            start == old(display)@,
            display@.len() == 1024,
            forall|px: int, py: int| on_screen(px, py) ==> pixel(display@, px, py)
                == if py < y { checker_pixel(px, py) } else { pixel(start, px, py) },
        decreases 64 - y,
    {
        let mut x: usize = 0;
        while x < 128
            invariant
                0 <= y < 64,
                0 <= x <= 128,
                display.bus() == old(display).bus(),
                start == old(display)@,
                display@.len() == 1024,
                forall|px: int, py: int| on_screen(px, py) ==> pixel(display@, px, py)
                    == if py < y || (py == y && px < x) {
                        checker_pixel(px, py)
                    } else {
                        pixel(start, px, py)
                    },
            decreases 128 - x,
        {
            display.set_pixel(x, y, (x + y) % 2 == 0);
            x = x + 1;
        }
        y = y + 1;
    }
}

/// Draws frame `step` of the display test on a cleared framebuffer and returns how long
/// it is to stay up before frame `step + 1`; the firmware flushes it and waits.
///
/// Frame 0 shows border, diagonals and origin marker for 3 s; frame 1 the checkerboard
/// for 3 s; frame 2 a blank panel for 1 s; from frame 3 on, border and marker every
/// 500 ms, with the diagonals on every other frame, starting with them.
pub fn display_test_frame<I2C>(display: &mut Ssd1306<I2C>, step: u64) -> (pause_ms: u64)
    ensures
        final(display).bus() == old(display).bus(),
        final(display)@.len() == 1024,
        forall|x: int, y: int| on_screen(x, y) ==> pixel(final(display)@, x, y) == (if step == 0 {
            border_pixel(x, y) || diagonal_pixel(x, y) || marker_pixel(x, y)
        } else if step == 1 {
            checker_pixel(x, y)
        } else if step == 2 {
            false
        } else {
            border_pixel(x, y) || marker_pixel(x, y) || (diagonal_pixel(x, y) && (step - 3) % 2 == 0)
        }),
        pause_ms == (if step <= 1 { 3000u64 } else if step == 2 { 1000u64 } else { 500u64 }),
{
    display.clear();
    if step == 0 {
        draw_border(display);
        draw_diagonals(display);
        draw_origin_marker(display);
        3000
    } else if step == 1 {
        draw_checkerboard(display);
        3000
    } else if step == 2 {
        1000
    } else {
        draw_border(display);
        draw_origin_marker(display);
        if (step - 3) % 2 == 0 {
            draw_diagonals(display);
        }
        500
    }
}

} // verus!

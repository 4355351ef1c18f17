//! The standalone window on Windows: its size, where it opens (centred
//! at the golden section of the screen) and where it sits when hidden.
//! The screen's size is read by the shell.

use vstd::prelude::*;
use crate::shared::database::trunc_div;

verus! {

/// The golden-section position of a window of `width` by `height` on a
/// screen of `screen_w` by `screen_h`: centred horizontally, and with the
/// window's 0.382 line on the screen's 0.618 line. Both are worked out
/// exactly in thousandths and rounded toward zero.
pub open spec fn golden_position_of(screen_w: i32, screen_h: i32, width: i32, height: i32) -> (int, int) {
    (trunc_div(screen_w - width, 2), trunc_div(618 * screen_h - 382 * height, 1000))
}

/// The golden-section position (see [`golden_position_of`]).
pub fn golden_position(screen_w: i32, screen_h: i32, width: i32, height: i32) -> (r: (i32, i32))
    ensures
        (r.0 as int, r.1 as int) == golden_position_of(screen_w, screen_h, width, height),
{
    let dx: i64 = screen_w as i64 - width as i64;
    let x: i64 = if dx >= 0 { dx / 2 } else { -((-dx) / 2) };
    let dy: i64 = 618 * (screen_h as i64) - 382 * (height as i64);
    let y: i64 = if dy >= 0 { dy / 1000 } else { -((-dy) / 1000) };
    assert(-0x8000_0000 <= x <= 0x7FFF_FFFF) by (nonlinear_arith)
        requires
            dx == screen_w - width,
            x == trunc_div(dx as int, 2),
            -0x8000_0000 <= screen_w <= 0x7FFF_FFFF,
            -0x8000_0000 <= width <= 0x7FFF_FFFF,
    ;
    assert(-0x8000_0000 <= y <= 0x7FFF_FFFF) by (nonlinear_arith)
        requires
            dy == 618 * screen_h - 382 * height,
            y == trunc_div(dy as int, 1000),
            -0x8000_0000 <= screen_h <= 0x7FFF_FFFF,
            -0x8000_0000 <= height <= 0x7FFF_FFFF,
    ;
    (x as i32, y as i32)
}

/// The Windows window's size.
pub struct WindowConfig {
    pub width: i32,
    pub height: i32,
}

impl Default for WindowConfig {
    /// 280 by 396.
    fn default() -> (r: Self)
        ensures
            r.width == 280 && r.height == 396,
    {
        WindowConfig { width: 280, height: 396 }
    }
}

/// The golden-section position of a window of `config`'s size on a
/// screen of `screen_w` by `screen_h` (see [`golden_position_of`]).
pub fn calculate_golden_position(config: &WindowConfig, screen_w: i32, screen_h: i32) -> (r: (i32, i32))
    ensures
        (r.0 as int, r.1 as int) == golden_position_of(screen_w, screen_h, config.width, config.height),
{
    golden_position(screen_w, screen_h, config.width, config.height)
}

/// The Windows window: its size, 280 by 396 at first.
pub struct WindowsWindow {
    pub config: WindowConfig,
}

impl WindowsWindow {
    /// A window of the default size.
    pub fn new() -> (r: Self)
        ensures
            r.config.width == 280 && r.config.height == 396,
    {
        WindowsWindow { config: WindowConfig { width: 280, height: 396 } }
    }

    /// Where the window opens on a screen of `screen_w` by `screen_h`: at
    /// the golden section (see [`golden_position_of`]).
    pub fn show_at_center(&self, screen_w: i32, screen_h: i32) -> (r: (i32, i32))
        ensures
            (r.0 as int, r.1 as int) == golden_position_of(screen_w, screen_h, self.config.width, self.config.height),
    {
        calculate_golden_position(&self.config, screen_w, screen_h)
    }

    /// Where the window sits when hidden: far off the screen.
    pub fn hide_position() -> (r: (i32, i32))
        ensures
            r == (-10000i32, -10000i32),
    {
        (-10000, -10000)
    }
}

} // verus!

//! Where the desktop window opens: under the text caret of the window that
//! had focus when there is one, else centred on the mouse (or, in the
//! default mode, at the golden section of the screen, which the shell works
//! out in floating point).

use vstd::prelude::*;
use crate::desktop::focus::CaretRect;

verus! {

/// The gap between the caret and the window, in pixels.
pub const CARET_GAP: i32 = 14;

/// Whether every sum the placement under `caret` makes stays in range.
pub open spec fn caret_fits(caret: CaretRect, win_w: i32, win_h: i32) -> bool {
    &&& i32::MIN <= caret.bottom + CARET_GAP <= i32::MAX
    &&& i32::MIN <= caret.bottom + CARET_GAP + win_h <= i32::MAX
    &&& i32::MIN <= caret.top - win_h <= i32::MAX
    &&& i32::MIN <= caret.left + win_w <= i32::MAX
    &&& i32::MIN <= caret.right - win_w <= i32::MAX
    &&& i32::MIN <= caret.top - win_h - CARET_GAP <= i32::MAX
}

/// The window's position under `caret`: its left edge at the caret's left
/// and its top 14 pixels below the caret; when it would pass the screen's
/// right edge it ends at the caret's right instead, and when it would pass
/// the bottom it ends 14 pixels above the caret; never above or left of
/// the screen.
pub open spec fn caret_position(caret: CaretRect, win_w: i32, win_h: i32, screen_w: i32, screen_h: i32) -> (int, int) {
    let x0 = if caret.left + win_w > screen_w {
        caret.right - win_w
    } else {
        caret.left as int
    };
    let y0 = if caret.bottom + CARET_GAP + win_h > screen_h {
        caret.top - win_h - CARET_GAP
    } else {
        caret.bottom + CARET_GAP
    };
    (if x0 < 0 {
        0
    } else {
        x0
    }, if y0 < 0 {
        0
    } else {
        y0
    })
}

/// The window's position under `caret` (see [`caret_position`]).
pub fn caret_window_position(caret: CaretRect, win_w: i32, win_h: i32, screen_w: i32, screen_h: i32) -> (r: (i32, i32))
    requires
        caret_fits(caret, win_w, win_h),
    ensures
        (r.0 as int, r.1 as int) == caret_position(caret, win_w, win_h, screen_w, screen_h),
{
    let mut x = caret.left;
    let mut y = caret.bottom + CARET_GAP;
    if x + win_w > screen_w {
        x = caret.right - win_w;
    }
    if x < 0 {
        x = 0;
    }
    if y + win_h > screen_h {
        y = caret.top - win_h - CARET_GAP;
    }
    if y < 0 {
        y = 0;
    }
    (x, y)
}

/// Where the window opens.
#[derive(Debug, Clone, Copy, PartialEq, Eq, Structural)]
pub enum WindowPlacement {
    /// At this position.
    At(i32, i32),
    /// At the golden section of the screen, worked out by the shell.
    GoldenSection,
}

/// Whether the centring on the mouse stays in range.
pub open spec fn cursor_fits(cursor: (i32, i32), win_w: i32, win_h: i32) -> bool {
    i32::MIN <= cursor.0 - win_w / 2 <= i32::MAX && i32::MIN <= cursor.1 - win_h / 2 <= i32::MAX
}

/// Half of `v`, rounded toward zero.
pub open spec fn half(v: i32) -> int {
    if v >= 0 {
        v as int / 2
    } else {
        -((-(v as int)) / 2)
    }
}

/// Where the window of `win_w` by `win_h` opens: under the caret kept from
/// the focus tracker, else under the caret seen now; without a caret, at
/// the golden section in mode 0 and centred on the mouse in any other mode.
pub fn calc_window_position(
    cached_caret: Option<CaretRect>,
    live_caret: Option<CaretRect>,
    mode: i32,
    win_w: i32,
    win_h: i32,
    screen_w: i32,
    screen_h: i32,
    cursor: (i32, i32),
) -> (r: WindowPlacement)
    requires
        cached_caret matches Some(c) ==> caret_fits(c, win_w, win_h),
        live_caret matches Some(c) ==> caret_fits(c, win_w, win_h),
        i32::MIN <= cursor.0 - half(win_w) <= i32::MAX,
        i32::MIN <= cursor.1 - half(win_h) <= i32::MAX,
    ensures
        ({
            let caret = match cached_caret {
                Some(c) => Some(c),
                None => live_caret,
            };
            match caret {
                Some(c) => r matches WindowPlacement::At(x, y) && (x as int, y as int) == caret_position(
                    c,
                    win_w,
                    win_h,
                    screen_w,
                    screen_h,
                ),
                None => if mode == 0 {
                    r == WindowPlacement::GoldenSection
                } else {
                    r matches WindowPlacement::At(x, y) && x == cursor.0 - half(win_w) && y == cursor.1 - half(
                        win_h,
                    )
                },
            }
        }),
{
    let caret = match cached_caret {
        Some(c) => Some(c),
        None => live_caret,
    };
    match caret {
        Some(c) => {
            let (x, y) = caret_window_position(c, win_w, win_h, screen_w, screen_h);
            WindowPlacement::At(x, y)
        },
        None => {
            if mode == 0 {
                WindowPlacement::GoldenSection
            } else {
                WindowPlacement::At(cursor.0 - win_w / 2, cursor.1 - win_h / 2)
            }
        },
    }
}

} // verus!

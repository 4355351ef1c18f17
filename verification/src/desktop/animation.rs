//! Fading the desktop window in and out: only a known window is faded.

use vstd::prelude::*;

verus! {

/// The window to fade out, given our window's handle (0 when not known
/// yet): none when it is not known.
pub fn fade_window_out(app_hwnd: isize) -> (r: Option<isize>)
    ensures
        r == if app_hwnd != 0 {
            Some(app_hwnd)
        } else {
            None
        },
{
    if app_hwnd != 0 {
        Some(app_hwnd)
    } else {
        None
    }
}

/// The window to fade in, given our window's handle (0 when not known
/// yet): none when it is not known.
pub fn fade_window_in(app_hwnd: isize) -> (r: Option<isize>)
    ensures
        r == if app_hwnd != 0 {
            Some(app_hwnd)
        } else {
            None
        },
{
    if app_hwnd != 0 {
        Some(app_hwnd)
    } else {
        None
    }
}

/// The window to fade in at start, once the window effects are ready,
/// given our window's handle then: none when it is not known.
pub fn startup_window_fade_in(app_hwnd: isize) -> (r: Option<isize>)
    ensures
        r == if app_hwnd != 0 {
            Some(app_hwnd)
        } else {
            None
        },
{
    fade_window_in(app_hwnd)
}

/// How long the list content stays faded out after an update, in
/// milliseconds.
pub const CONTENT_FADE_MS: u64 = 100;

} // verus!

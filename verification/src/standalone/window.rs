//! The standalone window: its default size, where it opens and where it
//! sits when hidden, and showing or hiding it on request.

use vstd::prelude::*;
use crate::standalone::state::AppState;
use crate::standalone::windows_window::{golden_position, golden_position_of};

verus! {

/// The window's size.
pub struct WindowConfig {
    pub width: i32,
    pub height: i32,
}

impl Default for WindowConfig {
    /// 280 by 396.
    fn default() -> (r: Self)
        ensures
            r.width == 280 && r.height == 396,
    {
        WindowConfig { width: 280, height: 396 }
    }
}

/// The window's position on a screen of `screen_w` by `screen_h`, centred
/// at the golden section (see [`golden_position_of`]).
pub fn calculate_center_position(config: &WindowConfig, screen_w: i32, screen_h: i32) -> (r: (i32, i32))
    ensures
        (r.0 as int, r.1 as int) == golden_position_of(screen_w, screen_h, config.width, config.height),
{
    golden_position(screen_w, screen_h, config.width, config.height)
}

/// Where the window sits when hidden: far off the screen.
pub fn calculate_hidden_position() -> (r: (i32, i32))
    ensures
        r == (-10000i32, -10000i32),
{
    (-10000, -10000)
}

/// What toggling the window asks of the shell.
#[derive(Debug, Clone, Copy, PartialEq, Eq, Structural)]
pub enum Toggle {
    Show,
    Hide,
}

/// Shows the window when hidden and hides it when shown, recording the new
/// visibility; returns which was done, for the shell to carry out.
pub fn toggle_window_visibility(state: &mut AppState) -> (r: Toggle)
    ensures
        old(state).is_window_visible ==> r == Toggle::Hide && !final(state).is_window_visible,
        !old(state).is_window_visible ==> r == Toggle::Show && final(state).is_window_visible,
        final(state).db == old(state).db,
        final(state).max_history_size == old(state).max_history_size,
        final(state).device_id == old(state).device_id,
{
    if state.is_window_visible() {
        state.set_window_visible(false);
        Toggle::Hide
    } else {
        state.set_window_visible(true);
        Toggle::Show
    }
}

/// The horizontal position that centres a window of `width` on a screen
/// of `screen_width`.
pub fn centered_x(screen_width: i32, width: i32) -> (r: i32)
    requires
        i32::MIN <= screen_width - width <= i32::MAX,
    ensures
        r as int == if screen_width - width >= 0 {
            (screen_width - width) / 2
        } else {
            -((width - screen_width) / 2)
        },
{
    (screen_width - width) / 2
}

/// Where the window opens next to the caret at (`x`, `y`): 10 pixels to
/// its right.
pub fn caret_side_position(x: i32, y: i32) -> (r: (i32, i32))
    requires
        x <= i32::MAX - 10,
    ensures
        r == ((x + 10) as i32, y),
{
    (x + 10, y)
}

/// The caret's screen position from its window's top-left corner and the
/// caret's offset in that window.
pub fn caret_screen_position(window_left: i32, window_top: i32, caret_left: i32, caret_top: i32) -> (r: (i32, i32))
    requires
        i32::MIN <= window_left + caret_left <= i32::MAX,
        i32::MIN <= window_top + caret_top <= i32::MAX,
    ensures
        r == ((window_left + caret_left) as i32, (window_top + caret_top) as i32),
{
    (window_left + caret_left, window_top + caret_top)
}

/// The opacities of a fade in 16 steps from transparent to opaque (or the
/// reverse when fading out): step `i` of 15 is `255 * i / 15`.
pub fn fade_alphas(fade_in: bool) -> (r: Vec<u8>)
    ensures
        r@.len() == 16,
        forall|k: int| 0 <= k < 16 ==> r@[k] as int == 255 * (if fade_in {
            k
        } else {
            15 - k
        }) / 15,
{
    let mut out: Vec<u8> = Vec::new();
    let mut k: u32 = 0;
    while k <= 15
        invariant
            k <= 16,
            out@.len() == k,
            forall|j: int| 0 <= j < k ==> out@[j] as int == 255 * (if fade_in {
                j
            } else {
                15 - j
            }) / 15,
        decreases 16 - k,
    {
        let step: u32 = if fade_in { k } else { 15 - k };
        out.push((255 * step / 15) as u8);
        k = k + 1;
    }
    out
}

} // verus!

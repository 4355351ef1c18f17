//! The hover tooltip of the standalone application. Its window is drawn by
//! the shell; these entry points do nothing on their own.

use vstd::prelude::*;

verus! {

/// Keeps the tooltip above other windows; nothing to do here.
pub fn ensure_tooltip_always_on_top() {
}

/// Starts watching the tooltip's stacking; nothing to do here.
pub fn start_tooltip_zorder_monitor() {
}

/// Starts the tooltip; nothing to do here.
pub fn start_tooltip() {
}

/// Creates the tooltip window; nothing to do here.
pub fn create_tooltip_window() {
}

/// Sets the tooltip's text and time; nothing to do here.
pub fn set_tooltip_content(_text: &str, _timestamp: &str) {
}

/// Shows the tooltip at a point; nothing to do here.
pub fn show_tooltip_at(_x: i32, _y: i32, _text: &str) {
}

/// Hides the tooltip; nothing to do here.
pub fn hide_tooltip() {
}

/// Destroys the tooltip window; nothing to do here.
pub fn destroy_tooltip_window() {
}

/// Destroys the hover tooltip window; nothing to do here.
pub fn destroy_hover_tooltip_window() {
}

/// The mouse position where the platform cannot tell: the origin.
pub fn get_cursor_pos() -> (r: (i32, i32))
    ensures
        r == (0i32, 0i32),
{
    (0, 0)
}

/// Starts detecting hovering; nothing to do here.
pub fn start_hover_detection() {
}

/// Updates the hover state from the list's scroll offset and row height;
/// nothing to do here.
pub fn update_hover_state(_y_offset: i32, _item_height: i32) {
}

/// Sets what the hover tooltip shows for a point; nothing is kept here.
pub fn set_hover_callback<F: Fn(i32, i32) -> Option<String>>(_callback: F) {
}

/// Shows the hover tooltip at a point with a text and time; nothing to do
/// here.
pub fn show_hover_tooltip_at(_x: i32, _y: i32, _content: String, _timestamp: String) {
}

/// Hides the hover tooltip; nothing to do here.
pub fn hide_hover_tooltip() {
}

} // verus!

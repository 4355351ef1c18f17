//! What the shell needs from each platform: windows, the clipboard, global
//! hotkeys and the tray icon. Implementations live with the platform code.

use vstd::prelude::*;

verus! {

/// A native window handle.
pub type RawHandle = isize;

/// Window operations of a platform.
pub trait PlatformWindow {
    /// Shows the window at its position.
    fn show(&self) -> Result<(), String>;

    /// Hides the window.
    fn hide_window(&self) -> Result<(), String>;

    /// Fades the window in; platforms without it do nothing.
    fn fade_in(&self, _hwnd: RawHandle) -> Result<(), String> {
        Ok(())
    }

    /// Fades the window out; platforms without it do nothing.
    fn fade_out(&self, _hwnd: RawHandle) -> Result<(), String> {
        Ok(())
    }

    /// Moves the window.
    fn set_position(&self, x: i32, y: i32) -> Result<(), String>;

    /// The window's handle.
    fn get_hwnd(&self) -> RawHandle;
}

/// Clipboard operations of a platform.
pub trait PlatformClipboard {
    /// The clipboard's text, if it holds any.
    fn get_text(&self) -> Option<String>;

    /// Puts text on the clipboard.
    fn set_text(&self, text: &str) -> Result<(), String>;
}

/// Global hotkey operations of a platform.
pub trait PlatformHotkeyTrait {
    /// Registers a hotkey and returns its identifier.
    fn register(&mut self, key: &str, modifiers: &[&str]) -> Result<u32, String>;

    /// Unregisters a hotkey.
    fn unregister(&mut self, id: u32) -> Result<(), String>;
}

/// The identifiers of the tray menu's entries.
pub struct TrayHandles {
    pub show_id: String,
    pub quit_id: String,
}

/// Tray icon operations of a platform.
pub trait PlatformTrayTrait {
    /// Puts up the tray icon and its menu.
    fn setup(&self) -> Result<TrayHandles, String>;

    /// Sets the icon's tooltip.
    fn set_tooltip(&self, tooltip: &str) -> Result<(), String>;
}

/// A handle that keeps the tray icon alive.
pub struct TrayIconHandle {
    _priv: (),
}

/// The Windows tray icon.
pub struct WindowsTray;

impl WindowsTray {
    /// The tray icon, not yet put up.
    pub fn new() -> (r: Self) {
        WindowsTray
    }
}

/// The tray menu's label for showing and hiding the window.
pub const SHOW_HIDE_LABEL: &'static str = "Show/Hide";

/// The tray menu's label for quitting.
pub const QUIT_LABEL: &'static str = "Quit PasteBridge";

/// The tray icon's pixels: 16 by 16 of opaque grey, as RGBA.
pub fn tray_icon_rgba() -> (r: Vec<u8>)
    ensures
        r@.len() == 16 * 16 * 4,
        forall|i: int| 0 <= i < r@.len() ==> r@[i] == if i % 4 == 3 {
            255u8
        } else {
            150u8
        },
{
    let mut rgba: Vec<u8> = Vec::new();
    let mut i: usize = 0;
    while i < 16 * 16
        invariant
            i <= 256,
            rgba@.len() == 4 * i,
            forall|k: int| 0 <= k < rgba@.len() ==> rgba@[k] == if k % 4 == 3 {
                255u8
            } else {
                150u8
            },
        decreases 256 - i,
    {
        rgba.push(150);
        rgba.push(150);
        rgba.push(150);
        rgba.push(255);
        i = i + 1;
    }
    rgba
}

} // verus!

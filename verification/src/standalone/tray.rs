//! The tray icon of the standalone application: whether the window is
//! shown, and what the hotkey and the tray menu do to it.

use vstd::prelude::*;
use crate::text::str_eq;

verus! {

/// A tray menu event.
#[derive(Debug, Clone, Copy, PartialEq, Eq, Structural)]
pub enum TrayEvent {
    Show,
    Hide,
    Quit,
}

/// What the tray asks of the shell.
#[derive(Debug, Clone, Copy, PartialEq, Eq, Structural)]
pub enum TrayAction {
    /// Nothing.
    Nothing,
    /// Hide this window.
    HideWindow(isize),
    /// Show this window and bring it to the foreground.
    ShowWindow(isize),
    /// Quit the application.
    Quit,
}

/// Whether the window is shown (it is at start).
pub struct TrayVisibility {
    pub visible: bool,
}

impl TrayVisibility {
    /// The window is shown at start.
    pub fn new() -> (r: Self)
        ensures
            r.visible,
    {
        TrayVisibility { visible: true }
    }

    /// Whether the window is shown.
    pub fn is_visible(&self) -> (r: bool)
        ensures
            r == self.visible,
    {
        self.visible
    }

    /// Records whether the window is shown.
    pub fn set_visible(&mut self, visible: bool)
        ensures
            final(self).visible == visible,
    {
        self.visible = visible;
    }

    /// Shows a shown window's opposite: hides it when shown, shows it when
    /// hidden; nothing while our window is not known (0).
    fn toggle(&mut self, app_hwnd: isize) -> (r: TrayAction)
        ensures
            app_hwnd == 0 ==> r == TrayAction::Nothing && final(self).visible == old(self).visible,
            app_hwnd != 0 && old(self).visible ==> r == TrayAction::HideWindow(app_hwnd) && !final(self).visible,
            app_hwnd != 0 && !old(self).visible ==> r == TrayAction::ShowWindow(app_hwnd) && final(self).visible,
    {
        if app_hwnd == 0 {
            TrayAction::Nothing
        } else if self.visible {
            self.visible = false;
            TrayAction::HideWindow(app_hwnd)
        } else {
            self.visible = true;
            TrayAction::ShowWindow(app_hwnd)
        }
    }

    /// A hotkey event: the press of our hotkey toggles the window.
    pub fn on_hotkey(&mut self, event_id: u32, pressed: bool, hotkey_id: u32, app_hwnd: isize) -> (r: TrayAction)
        ensures
            !(event_id == hotkey_id && pressed) ==> r == TrayAction::Nothing && final(self).visible == old(self).visible,
            event_id == hotkey_id && pressed && app_hwnd == 0 ==> r == TrayAction::Nothing && final(self).visible
                == old(self).visible,
            event_id == hotkey_id && pressed && app_hwnd != 0 ==> final(self).visible == !old(self).visible && r == (
            if old(self).visible {
                TrayAction::HideWindow(app_hwnd)
            } else {
                TrayAction::ShowWindow(app_hwnd)
            }),
    {
        if event_id == hotkey_id && pressed {
            self.toggle(app_hwnd)
        } else {
            TrayAction::Nothing
        }
    }

    /// A tray menu event for entry `item`: the quit entry quits, the
    /// show entry toggles the window.
    pub fn on_menu(&mut self, item: &str, show_id: &str, quit_id: &str, app_hwnd: isize) -> (r: TrayAction)
        ensures
            item@ == quit_id@ ==> r == TrayAction::Quit && final(self).visible == old(self).visible,
            item@ != quit_id@ && item@ == show_id@ && app_hwnd != 0 ==> final(self).visible == !old(self).visible
                && r == (if old(self).visible {
                TrayAction::HideWindow(app_hwnd)
            } else {
                TrayAction::ShowWindow(app_hwnd)
            }),
            item@ != quit_id@ && !(item@ == show_id@ && app_hwnd != 0) ==> r == TrayAction::Nothing
                && final(self).visible == old(self).visible,
    {
        if str_eq(item, quit_id) {
            TrayAction::Quit
        } else if str_eq(item, show_id) {
            self.toggle(app_hwnd)
        } else {
            TrayAction::Nothing
        }
    }
}

} // verus!

//! Focus handling of the desktop shell: where the text caret of the focused
//! window is, which window had focus before ours, giving focus back, and
//! taking focus while the mouse hovers over our window. Window handles are
//! integers; 0 stands for no window.

use vstd::prelude::*;

verus! {

/// A rectangle on the screen, in pixels.
#[derive(Debug, Clone, Copy)]
pub struct CaretRect {
    pub left: i32,
    pub top: i32,
    pub right: i32,
    pub bottom: i32,
}

/// What the system reported about the caret of the focused window.
pub struct CaretProbe {
    /// The foreground window (0 when there is none).
    pub foreground: isize,
    /// Our own window (0 when not known yet).
    pub app_hwnd: isize,
    /// The caret's location through accessibility: left, top, width, height.
    pub accessible: Option<(i32, i32, i32, i32)>,
    /// The caret's rectangle in its window, when the GUI thread reports a
    /// caret window.
    pub thread_caret: Option<CaretRect>,
    /// That rectangle converted to screen coordinates, when the conversion
    /// succeeded.
    pub thread_caret_on_screen: Option<CaretRect>,
}

/// Whether the location can be turned into a rectangle without overflow.
pub open spec fn location_fits(l: (i32, i32, i32, i32)) -> bool {
    i32::MIN <= l.0 + l.2 <= i32::MAX && i32::MIN <= l.1 + l.3 <= i32::MAX
}

/// Whether the thread's caret rectangle has a width and height that fit.
pub open spec fn rect_extent_fits(r: CaretRect) -> bool {
    i32::MIN <= r.right - r.left <= i32::MAX && i32::MIN <= r.bottom - r.top <= i32::MAX
}

/// Whether the figures of the probe that are used can be added without
/// overflow: none when there is no foreground window or it is ours; the
/// accessible location when it has a width or a height; else the thread's
/// caret rectangle.
pub open spec fn probe_fits(p: CaretProbe) -> bool {
    if p.foreground == 0 || p.foreground == p.app_hwnd {
        true
    } else if p.accessible matches Some(l) && (l.2 > 0 || l.3 > 0) {
        location_fits(p.accessible->0)
    } else {
        p.thread_caret matches Some(r) ==> rect_extent_fits(r)
    }
}

/// The caret of the focused window, from a probe: none when there is no
/// foreground window or it is ours; else the accessible location when it
/// has a width or a height; else the thread's caret on screen when its
/// rectangle is not inverted; else none.
pub open spec fn caret_of(p: CaretProbe) -> Option<CaretRect> {
    if p.foreground == 0 || p.foreground == p.app_hwnd {
        None
    } else if p.accessible matches Some(l) && (l.2 > 0 || l.3 > 0) {
        let l = p.accessible->0;
        Some(CaretRect { left: l.0, top: l.1, right: (l.0 + l.2) as i32, bottom: (l.1 + l.3) as i32 })
    } else if p.thread_caret matches Some(r) && r.right - r.left >= 0 && r.bottom - r.top >= 0 {
        p.thread_caret_on_screen
    } else {
        None
    }
}

/// The caret of the focused window (see [`caret_of`]).
pub fn get_focused_caret_screen_pos(probe: &CaretProbe) -> (r: Option<CaretRect>)
    requires
        probe_fits(*probe),
    ensures
        r == caret_of(*probe),
{
    if probe.foreground == 0 || probe.foreground == probe.app_hwnd {
        return None;
    }
    match probe.accessible {
        Some((left, top, width, height)) => {
            if width > 0 || height > 0 {
                return Some(CaretRect { left, top, right: left + width, bottom: top + height });
            }
        },
        None => {},
    }
    match probe.thread_caret {
        Some(rc) => {
            if rc.right - rc.left >= 0 && rc.bottom - rc.top >= 0 {
                probe.thread_caret_on_screen
            } else {
                None
            }
        },
        None => None,
    }
}

/// What the hover monitor asks the shell to do after a look at the mouse.
#[derive(Debug, Clone, Copy, PartialEq, Eq, Structural)]
pub enum HoverAction {
    /// Nothing; look again after the usual pause.
    Nothing,
    /// Our window is not known yet; look again after the usual pause.
    Wait,
    /// The mouse is resizing our window; look again after a short pause.
    Resizing,
    /// Bring this window to the foreground.
    Focus(isize),
}

/// What changing the hover setting asks of the shell.
#[derive(Debug, Clone, Copy, PartialEq, Eq, Structural)]
pub enum HoverToggle {
    /// Nothing.
    Nothing,
    /// Start the hover monitor.
    StartMonitor,
    /// The monitor stops; nothing else.
    Stopped,
    /// The monitor stops and focus is given back (see
    /// [`FocusState::restore_previous_focus`]).
    StoppedRestoreFocus,
}

/// One look of the hover monitor: the mouse, our window's rectangle,
/// whether the left button is down, and the foreground window.
#[derive(Clone, Copy)]
pub struct HoverInput {
    pub cursor_x: i32,
    pub cursor_y: i32,
    pub window: CaretRect,
    pub left_button_pressed: bool,
    pub foreground: isize,
}

/// The width of the band along our window's edges where the mouse resizes.
pub const RESIZE_BORDER: i32 = 20;

/// Whether the window's edges, widened by [`RESIZE_BORDER`], stay in range.
pub open spec fn window_fits(w: CaretRect) -> bool {
    w.left + RESIZE_BORDER <= i32::MAX && w.top + RESIZE_BORDER <= i32::MAX && w.right - RESIZE_BORDER >= i32::MIN
        && w.bottom - RESIZE_BORDER >= i32::MIN
}

/// Whether the mouse is over the window (edges included).
pub open spec fn inside_of(i: HoverInput) -> bool {
    i.cursor_x >= i.window.left && i.cursor_x <= i.window.right && i.cursor_y >= i.window.top && i.cursor_y
        <= i.window.bottom
}

/// Whether the mouse is in the band along one of the window's edges.
pub open spec fn on_edge_of(i: HoverInput) -> bool {
    (i.cursor_x >= i.window.left && i.cursor_x <= i.window.left + RESIZE_BORDER) || (i.cursor_x >= i.window.right
        - RESIZE_BORDER && i.cursor_x <= i.window.right) || (i.cursor_y >= i.window.top && i.cursor_y
        <= i.window.top + RESIZE_BORDER) || (i.cursor_y >= i.window.bottom - RESIZE_BORDER && i.cursor_y
        <= i.window.bottom)
}

/// The focus state and the action after one look of the hover monitor
/// from state `s` (see [`FocusState::hover_step`]).
pub open spec fn hover_next(s: FocusState, input: HoverInput, app_hwnd: isize) -> (FocusState, HoverAction) {
    if app_hwnd == 0 {
        (s, HoverAction::Wait)
    } else if input.left_button_pressed && on_edge_of(input) {
        (s, HoverAction::Resizing)
    } else {
        let inside = inside_of(input);
        let was = s.mouse_inside;
        let fg = input.foreground;
        let takes = fg != 0 && fg != app_hwnd && (inside && !was || inside && was && !on_edge_of(input));
        let gives = !inside && was && !on_edge_of(input) && s.hover_captured_hwnd != 0 && fg != 0 && fg == app_hwnd;
        (
            FocusState {
                mouse_inside: inside,
                hover_captured_hwnd: if takes {
                    fg
                } else {
                    s.hover_captured_hwnd
                },
                ..s
            },
            if takes {
                HoverAction::Focus(app_hwnd)
            } else if gives {
                HoverAction::Focus(s.hover_captured_hwnd)
            } else {
                HoverAction::Nothing
            },
        )
    }
}

/// The focus state of the desktop shell.
pub struct FocusState {
    /// The caret last seen in another window.
    pub last_focus_pos: Option<CaretRect>,
    /// The last other window seen in the foreground (0: none).
    pub last_focus_hwnd: isize,
    /// Whether focus is given back when our window closes.
    pub restore_focus_enabled: bool,
    /// Whether hovering over our window takes focus.
    pub mouse_hover_focus_enabled: bool,
    /// Whether the hover monitor runs.
    pub hover_running: bool,
    /// Whether the mouse was over our window at the last look.
    pub mouse_inside: bool,
    /// The window that had focus when hovering took it (0: none).
    pub hover_captured_hwnd: isize,
}

impl FocusState {
    /// The state at start: nothing seen, focus given back, hovering off.
    pub fn new() -> (r: Self)
        ensures
            r.last_focus_pos is None,
            r.last_focus_hwnd == 0,
            r.restore_focus_enabled,
            !r.mouse_hover_focus_enabled,
            !r.hover_running,
            !r.mouse_inside,
            r.hover_captured_hwnd == 0,
    {
        FocusState {
            last_focus_pos: None,
            last_focus_hwnd: 0,
            restore_focus_enabled: true,
            mouse_hover_focus_enabled: false,
            hover_running: false,
            mouse_inside: false,
            hover_captured_hwnd: 0,
        }
    }

    /// Sets whether focus is given back when our window closes.
    pub fn set_restore_focus_enabled(&mut self, enabled: bool)
        ensures
            *final(self) == (FocusState { restore_focus_enabled: enabled, ..*old(self) }),
    {
        self.restore_focus_enabled = enabled;
    }

    /// Whether focus is given back when our window closes.
    pub fn get_restore_focus_enabled(&self) -> (r: bool)
        ensures
            r == self.restore_focus_enabled,
    {
        self.restore_focus_enabled
    }

    /// One look of the focus tracker: the caret seen (if any) is kept, and
    /// a foreground window other than ours is remembered once our window is
    /// known.
    pub fn track_focus(&mut self, caret: Option<CaretRect>, foreground: isize, app_hwnd: isize)
        ensures
            final(self).last_focus_pos == caret,
            final(self).last_focus_hwnd == if foreground != 0 && foreground != app_hwnd && app_hwnd != 0 {
                foreground
            } else {
                old(self).last_focus_hwnd
            },
            final(self).restore_focus_enabled == old(self).restore_focus_enabled,
            final(self).mouse_hover_focus_enabled == old(self).mouse_hover_focus_enabled,
            final(self).hover_running == old(self).hover_running,
            final(self).mouse_inside == old(self).mouse_inside,
            final(self).hover_captured_hwnd == old(self).hover_captured_hwnd,
    {
        self.last_focus_pos = caret;
        if foreground != 0 && foreground != app_hwnd && app_hwnd != 0 {
            self.last_focus_hwnd = foreground;
        }
    }

    /// The caret last seen in another window.
    pub fn get_cached_focus_pos(&self) -> (r: Option<CaretRect>)
        ensures
            r == self.last_focus_pos,
    {
        self.last_focus_pos
    }

    /// The window to give focus back to, given the current foreground
    /// window: the remembered one, when giving focus back is on, a window
    /// is remembered and it is not in the foreground already.
    pub fn restore_previous_focus(&self, current_foreground: isize) -> (r: Option<isize>)
        ensures
            r == if self.restore_focus_enabled && self.last_focus_hwnd != 0 && current_foreground
                != self.last_focus_hwnd {
                Some(self.last_focus_hwnd)
            } else {
                None
            },
    {
        if !self.restore_focus_enabled {
            return None;
        }
        let previous = self.last_focus_hwnd;
        if previous != 0 && current_foreground != previous {
            Some(previous)
        } else {
            None
        }
    }

    /// Sets whether hovering over our window takes focus: turning it on
    /// starts the monitor unless it runs; turning it off stops the monitor
    /// and, when the mouse is over our window, gives focus back.
    pub fn set_mouse_hover_focus_enabled(&mut self, enabled: bool) -> (r: HoverToggle)
        ensures
            final(self).mouse_hover_focus_enabled == enabled,
            enabled && !old(self).mouse_hover_focus_enabled ==> final(self).hover_running && r == (
            if old(self).hover_running {
                HoverToggle::Nothing
            } else {
                HoverToggle::StartMonitor
            }),
            !enabled && old(self).mouse_hover_focus_enabled ==> !final(self).hover_running && r == (
            if old(self).mouse_inside {
                HoverToggle::StoppedRestoreFocus
            } else {
                HoverToggle::Stopped
            }),
            enabled == old(self).mouse_hover_focus_enabled ==> final(self).hover_running
                == old(self).hover_running && r == HoverToggle::Nothing,
            final(self).last_focus_pos == old(self).last_focus_pos,
            final(self).last_focus_hwnd == old(self).last_focus_hwnd,
            final(self).restore_focus_enabled == old(self).restore_focus_enabled,
            final(self).mouse_inside == old(self).mouse_inside,
            final(self).hover_captured_hwnd == old(self).hover_captured_hwnd,
    {
        let was_enabled = self.mouse_hover_focus_enabled;
        self.mouse_hover_focus_enabled = enabled;
        if enabled && !was_enabled {
            if self.hover_running {
                HoverToggle::Nothing
            } else {
                self.hover_running = true;
                HoverToggle::StartMonitor
            }
        } else if !enabled && was_enabled {
            self.hover_running = false;
            if self.mouse_inside {
                HoverToggle::StoppedRestoreFocus
            } else {
                HoverToggle::Stopped
            }
        } else {
            HoverToggle::Nothing
        }
    }

    /// Whether hovering over our window takes focus.
    pub fn get_mouse_hover_focus_enabled(&self) -> (r: bool)
        ensures
            r == self.mouse_hover_focus_enabled,
    {
        self.mouse_hover_focus_enabled
    }

    /// One look of the hover monitor, with our window `app_hwnd` (0: not
    /// known yet). While the left button resizes the window nothing
    /// changes. Entering the window takes focus from the foreground window
    /// (remembered); leaving it, away from the edges, gives focus back to
    /// the remembered window if ours is in the foreground; staying inside,
    /// away from the edges, takes focus again from a window that stole it.
    pub fn hover_step(&mut self, input: &HoverInput, app_hwnd: isize) -> (r: HoverAction)
        requires
            window_fits(input.window),
        ensures
            (*final(self), r) == hover_next(*old(self), *input, app_hwnd),
    {
        if app_hwnd == 0 {
            return HoverAction::Wait;
        }
        let w = input.window;
        let x = input.cursor_x;
        let y = input.cursor_y;
        let inside = x >= w.left && x <= w.right && y >= w.top && y <= w.bottom;
        let on_edge = (x >= w.left && x <= w.left + RESIZE_BORDER) || (x >= w.right - RESIZE_BORDER && x <= w.right)
            || (y >= w.top && y <= w.top + RESIZE_BORDER) || (y >= w.bottom - RESIZE_BORDER && y <= w.bottom);
        if input.left_button_pressed && on_edge {
            return HoverAction::Resizing;
        }
        let was_inside = self.mouse_inside;
        let fg = input.foreground;
        let mut action = HoverAction::Nothing;
        if inside && !was_inside {
            if fg != 0 && fg != app_hwnd {
                self.hover_captured_hwnd = fg;
                action = HoverAction::Focus(app_hwnd);
            }
        } else if !inside && was_inside {
            if !on_edge {
                let captured = self.hover_captured_hwnd;
                if captured != 0 && fg != 0 && fg == app_hwnd {
                    action = HoverAction::Focus(captured);
                }
            }
        } else if inside {
            if !on_edge {
                if fg != 0 && fg != app_hwnd {
                    self.hover_captured_hwnd = fg;
                    action = HoverAction::Focus(app_hwnd);
                }
            }
        }
        self.mouse_inside = inside;
        action
    }

    /// Whether the hover monitor keeps running.
    pub fn hover_monitor_running(&self) -> (r: bool)
        ensures
            r == self.hover_running,
    {
        self.hover_running
    }
}

} // verus!

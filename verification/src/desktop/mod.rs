//! The desktop shell's decisions: focus handling, dragging text out, the
//! clipboard watch, the history list shown, window placement, settings and
//! the peer list. The shell performs what these decide.

pub mod focus;
pub mod drag_out;
pub mod clipboard_watch;
pub mod history_view;
pub mod window_position;
pub mod settings;
pub mod peers;
pub mod list_actions;
pub mod net;
pub mod platform;
pub mod animation;
pub mod laws;

//! The standalone clipboard application: its store, state, HTTP API and
//! window, tray and hotkey rules.

pub mod store;
pub mod state;
pub mod api;
pub mod window;
pub mod hotkey;
pub mod tray;
pub mod tooltip;
pub mod windows_window;
pub mod clipboard;
pub mod platform;
pub mod device;
pub mod memory;

//! What the standalone application needs from each platform; the same
//! interfaces as the desktop shell's.

pub use crate::desktop::platform::{
    RawHandle, PlatformWindow, PlatformClipboard, PlatformHotkeyTrait, PlatformTrayTrait, TrayHandles, TrayIconHandle,
};

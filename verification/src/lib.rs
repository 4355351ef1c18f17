//! A clipboard history manager: history store with de-duplication, search,
//! favorite folders and settings; peer discovery and synchronisation
//! decisions; the HTTP API router; the desktop shell's window, focus and
//! clipboard-monitor decisions; and the standalone application that keeps
//! images as files.

pub mod text;
pub mod shared;
pub mod desktop;
pub mod standalone;


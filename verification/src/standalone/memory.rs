//! Memory use of the standalone application, watched as in the shared
//! core.

pub use crate::shared::memory::MemoryMonitor;

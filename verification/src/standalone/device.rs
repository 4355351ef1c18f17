//! This device's identifier in the standalone application, worked out as
//! in the shared core.

pub use crate::shared::device::{stored_device_id, parse_machine_guid, generate_fallback_uuid, rand_simple};

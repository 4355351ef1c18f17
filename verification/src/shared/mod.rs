//! The shared core: the clipboard history store and the logic around it.

pub mod api;
pub mod hashing;
pub mod laws;
pub mod like;
pub mod ordering;
pub mod state;
pub mod store_laws;
pub mod sync_device;
pub mod database;
pub mod device;
pub mod discovery;
pub mod mock_data;
pub mod memory;
pub mod migration;
pub mod models;

//! Configuration data: what the router reads and what the user edits.

pub mod ardeck_profile;
pub mod cache;
pub mod mapping_presets;
pub mod store;

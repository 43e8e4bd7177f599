//! Durable, turn-scoped before-images of the workspace files that managed tools change.

pub mod digest;
pub mod error;
pub mod file_map;
pub mod laws;
pub mod model;
pub mod plan;
pub mod restore;
pub mod store;

//! The routing table and its durable form.

pub mod file_manager;
pub mod model;
pub mod utils;

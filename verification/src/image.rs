//! Commands on the recorded images.

pub mod delete;
pub mod fetch;

//! The metadata store: which images have been accepted, and when.

pub mod filters;
pub mod laws;
pub mod sqlite3;
pub mod t_images;

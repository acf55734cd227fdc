//! Ingestion core of a photo manager: a codec pipeline that re-encodes an
//! uploaded image into a compact lossy artifact rendered as radix-64 text, and
//! a metadata table that records the identifiers of accepted images.

pub mod compression;
pub mod database;
pub mod image;
pub mod pixels;
pub mod radix64;

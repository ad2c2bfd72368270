//! Importer for distribution "Contents" package-index files.
//!
//! A Contents file maps each installed filesystem path to the package that
//! provides it. This library decompresses such files, filters and parses
//! their lines, deduplicates package and directory names, and loads the
//! result into a relational database under one of three schema layouts.

pub mod bytes;
pub mod filter;
pub mod parser;
pub mod segment;
pub mod lines;
pub mod keycache;
pub mod model;
pub mod gz;
pub mod db;
pub mod error;
pub mod import;
pub mod names;

pub use error::ImportError;
pub use import::{Importer, PocketStats};
pub use model::SchemaVersion;

//! Compiler for a versioned telemetry schema: a fixed, fully known schema of
//! named subtypes and typed fields is checked (every field type must resolve
//! to a storage width, names must be unique) and turned into two C text
//! artifacts, a header and a source file, that guard each subtype's storage
//! with one lock of its own.

pub mod dashboard;
pub mod generate;
pub mod schema;

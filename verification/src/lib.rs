//! A golden-file testing engine: captured output is staged under registered
//! relative paths, then either verified byte-for-byte against golden reference
//! files (rendering a line-aligned diff of the first mismatch) or promoted to
//! become the new golden references.

pub mod cursor;
pub mod diff;
pub mod gzip;
pub mod store;
pub mod session;
pub mod laws;

//! Temporary, self-expiring loopback names in a hosts file.
//!
//! The library parses hosts-file lines into entries, validates requested
//! names, reconciles the entries against the current instant and one
//! requested operation, and renders the result back to text.

pub mod entry;
pub mod instant;
pub mod laws;
pub mod reconcile;
pub mod request;
pub mod text;
pub mod validate;

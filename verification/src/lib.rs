//! A client-side trust engine for signed repository metadata.
//!
//! The library holds the currently trusted root, timestamp, snapshot and
//! targets metadata, admits signed updates after verifying them against the
//! delegation graph, and resolves target paths to their descriptions.

pub mod codec;
pub mod crypto;
pub mod database;
pub mod error;
pub mod interchange;
pub mod laws;
pub mod metadata;
pub mod pattern;
pub mod threshold;

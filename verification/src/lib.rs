//! Socket-to-process correlation engine.
//!
//! The library answers "which process owns this network socket?" over two
//! independently captured, immutable snapshots: the kernel's socket table and
//! the process table (with per-process descriptor tables).  It joins them
//! through the shared kernel identifier (inode) or a direct per-socket owner
//! reference, enriches the result with user names from a captured account
//! directory, and assembles a sorted, optionally port-filtered record set.
//!
//! All inputs are plain values constructed once per run by the caller; every
//! function here is a pure, verified transformation of those snapshots.

pub mod assemble;
pub mod enumerate;
pub mod identity;
pub mod laws;
pub mod records;
pub mod render;
pub mod resolve;
pub mod snapshot;

//! Package acquisition engine of the `msc` package manager.
//!
//! The library holds every decision an install takes: how a package
//! specifier is read, what the manifest looks like after a dependency is
//! merged into it, and in which order a remote file tree is mirrored. Network
//! and file-system work is left to the caller, which performs the actions the
//! library asks for and reports what came of them.

pub mod commands;
pub mod error;
pub mod registry;
pub mod specifier;
pub mod types;

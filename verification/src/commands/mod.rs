//! The commands of the package manager.

pub mod init;
pub mod install;

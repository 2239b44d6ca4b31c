//! Verified core of vaultpipe: resolving secret references in environment
//! files, and the KeePassXC browser protocol client that fetches them.

pub mod config;
pub mod env;
pub mod keepassxc;
pub mod pty;
pub mod source;

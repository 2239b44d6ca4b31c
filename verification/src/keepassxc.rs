//! The KeePassXC browser protocol: the requests a client sends, how they are
//! framed as JSON, sealed and answered.

pub mod action;
pub mod client;
pub mod crypto;
pub mod encoding;
pub mod error;
pub mod json;
pub mod message;
pub mod reply;
pub mod socket;

//! The command vocabulary that describes a message's wire image, in three
//! contexts: one that measures, one that writes and one that reads.

pub mod sizeof;
pub mod types;
pub mod unwrap;
pub mod wrap;
pub mod x25519;

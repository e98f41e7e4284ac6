//! Framing and state engine of a sponge-based publish/subscribe messaging protocol.
//!
//! An author creates a stream, accepts subscribers, hands out keyload keys and
//! publishes signed or tagged packets. Every message is framed by a header and a
//! payload frame and is bound to an earlier message through a sponge state.

pub mod address;
pub mod api;
pub mod crypto;
pub mod ddml;
pub mod error;
pub mod id;
pub mod kinds;
pub mod laws;
pub mod message;
pub mod order;
pub mod spongos;
pub mod store;

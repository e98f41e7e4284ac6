//! The user of a stream: the state that they keep, what receiving a message
//! does to it, and what sending one does.

pub mod backup;
pub mod message;
pub mod messages;
pub mod receive;
pub mod send;
pub mod state;
pub mod table;
pub mod transport;
pub mod user;
pub mod user_builder;

//! The kinds of messages of a stream, each with how it is written and read.

pub mod announcement;
pub mod keyload;
pub mod message_types;
pub mod signed_packet;
pub mod subscription;
pub mod tagged_packet;
pub mod unsubscription;

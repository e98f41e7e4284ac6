//! Who takes part in a stream: identifiers, identities, pre-shared keys and
//! permissions.

pub mod identifier;
pub mod identity;
pub mod permission;
pub mod psk;

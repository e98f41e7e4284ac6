//! The message types that a header can name.

use vstd::prelude::*;

verus! {

/// The announcement of a stream by its author.
pub const ANNOUNCEMENT: u8 = 0;

/// A key for a chosen set of readers.
pub const KEYLOAD: u8 = 1;

/// A payload signed by its publisher.
pub const SIGNED_PACKET: u8 = 2;

/// A payload authenticated by the sponge alone.
pub const TAGGED_PACKET: u8 = 3;

/// The request of a subscriber to join.
pub const SUBSCRIPTION: u8 = 4;

/// The notice of a subscriber that leaves.
pub const UNSUBSCRIPTION: u8 = 5;

} // verus!

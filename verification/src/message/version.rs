//! The constants of the framing.

use vstd::prelude::*;

verus! {

/// The version of the protocol that this library speaks.
pub const STREAMS_VERSION: u8 = 2;

/// The frame type of a header.
pub const HDF_ID: u8 = 4;

/// The frame type of the first payload frame of several.
pub const INIT_PCF_ID: u8 = 5;

/// The frame type of a payload frame between the first and the last.
pub const INTER_PCF_ID: u8 = 14;

/// The frame type of the last payload frame, and of the only one.
pub const FINAL_PCF_ID: u8 = 15;

} // verus!

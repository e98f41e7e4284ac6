//! How a message is framed: a header, a payload frame and a content.

pub mod content;
pub mod hdf;
pub mod pcf;
pub mod preparsed;
pub mod transport;
pub mod version;
pub mod wrapped;

//! Host-side driver core for SR5900P-class networked label-tape printers.
//!
//! The crate holds the parts of the driver that can be reasoned about without
//! touching a socket: the tape geometry, the one-bit raster and its geometric
//! transforms, the 32-byte control header, the classification of control
//! responses, the label stream encoder and the analyzer that reads such a
//! stream back.
pub mod error;
pub mod analyzer;
pub mod display;
pub mod print;
pub mod protocol;
pub mod roundtrip;
pub mod session;
pub mod status;
pub mod tape;

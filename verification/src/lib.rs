//! Decoder for the framed byte stream of a spinning LiDAR rangefinder.
//!
//! The sensor sends ninety frames per revolution, each covering four
//! consecutive degrees. This crate finds the frames in the raw byte stream,
//! checks each against its checksum, decodes the measurements into a buffer
//! of 360 slots and renders that buffer as one line of text per revolution.

mod clock;
pub mod frame;
pub mod record;
pub mod source;
pub mod sync;
pub mod theorems;

//! Streams a captured display region to a pixelflut canvas server: wire
//! encoding, canvas geometry, frame double buffering and the size handshake.

pub mod args;
pub mod frames;
pub mod geometry;
pub mod handshake;
pub mod painter;
pub mod wire;

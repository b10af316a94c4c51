//! Converts a tile-grid map (layers, chunks, tilesets) into the textual
//! scene-fragment and tileset resource files of a 2D game engine.
//!
//! The map model is plain immutable data built by the caller; the emitters
//! produce the output files as in-memory text, byte for byte.

pub mod coords;
pub mod emit;
pub mod model;
pub mod numfmt;
pub mod records;

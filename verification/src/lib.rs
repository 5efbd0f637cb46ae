//! Decoders for the metadata carried by three binary media containers:
//! ISOBMFF/HEIF box trees, JPEG marker segments, and the TIFF/EXIF
//! directory format embedded in both.
//!
//! Every decoder works over an in-memory byte buffer through a
//! position-tracked cursor, reports malformed input through typed
//! errors instead of panicking, and is specified down to the byte
//! offsets it consumes.

pub mod atom;
pub mod atoms;
pub mod cursor;
pub mod error;
pub mod heif;
pub mod jpeg;
pub mod tags;
pub mod tiff;
pub mod utils;

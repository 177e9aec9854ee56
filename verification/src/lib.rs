//! Embeds a geographic position and a capture time into JPEG and PNG images.
//!
//! The position and the time are turned into an EXIF block, and the block is
//! spliced into the image's container: as an application segment of a JPEG
//! marker stream, or as an ancillary chunk of a PNG chunk stream.

pub mod coords;
pub mod error;
pub mod exif_block;
pub mod jpeg;
pub mod jpeg_laws;
pub mod png_stream;
pub mod png_exif;
pub mod embed;

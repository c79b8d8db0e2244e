//! A PNG decoder that produces a raster of 8-bit RGB pixels, with the
//! metadata that is needed to lay the picture on a background.
//!
//! [`png::parse`] decodes a file. It reads the chunk stream ([`png`], with
//! one parser for each chunk type under [`png::chunks`]) and checks every
//! chunk's CRC ([`crc`]), decompresses the image data ([`zlib`]), reverses
//! the filter of every scanline ([`filter`]) and expands the samples to
//! pixels ([`parse_image`]). Interlaced images are recognised and rejected.
//! Samples of 16 bits are cut down to their high byte.
//!
//! The pixel `(0, 0, 0)` stands for a fully transparent pixel; a pixel that
//! is black and opaque is `(0, 0, 1)`.

pub mod common;
pub mod crc;
pub mod error;
pub mod filter;
pub mod parse_image;
pub mod png;
pub mod zlib;

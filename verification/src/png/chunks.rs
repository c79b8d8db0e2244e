//! One parser for each chunk type that the decoder understands.

pub mod ancillary;
pub mod chunk_types;
pub mod ihdr;
pub mod plte;

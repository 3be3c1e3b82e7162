//! The container codec: type codes, chunks and whole images.
pub mod checksum;
pub mod chunk;
pub mod chunk_type;
pub mod endian;
pub mod image;
pub mod text;

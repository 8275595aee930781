//! A verified library for the PNG chunk container format.
//!
//! A container is an 8-byte signature followed by an ordered sequence of
//! chunks; each chunk is a big-endian length, a 4-byte type tag, a payload of
//! that length, and a CRC-32 checksum over the tag and the payload. The
//! library parses and serializes containers, validates type tags against the
//! bit-level naming convention, and supports appending, finding and removing
//! chunks, so that an auxiliary chunk carrying a user-supplied message can be
//! embedded in, read from, or stripped from an image file.

pub mod be_bytes;
pub mod chunk;
pub mod chunk_type;
pub mod commands;
pub mod crc32;
pub mod error;
pub mod png;

//! Reading, editing and writing the chunk container of PNG files.
//!
//! A PNG file is an eight byte signature followed by chunks. A chunk is a
//! length, a four byte type code, the data, and a CRC-32 over type and data.
//! This crate parses such a file into a [`png::Png`], lets the caller append,
//! find and remove chunks, and writes the container back byte for byte.
//! Every function is verified against a contract stated over sequences of
//! bytes.

pub mod checksum;
pub mod chunk;
pub mod chunk_type;
pub mod commands;
pub mod png;
pub mod text;
pub mod utils;
pub mod wire;

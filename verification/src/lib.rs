//! Decoding and encoding of the binary documents found inside APK files: the
//! `resources.arsc` table and the binary XML documents.
//!
//! The byte layout of every chunk is described by spec functions over `Seq<u8>`, and
//! each reader and writer is verified against them.

pub mod endian;
pub mod text;
pub mod codec;
pub mod errors;
pub mod chunks;
pub mod model;
pub mod visitor;
pub mod decoder;
pub mod encoder;
pub mod apk;

//! Decoding of AEDAT 4 event-camera recordings.

pub mod aedat4_decoder;
pub mod codec;
pub mod error;
pub mod file;
pub mod flatbuf;
pub mod metadata;
pub mod number;
pub mod text;

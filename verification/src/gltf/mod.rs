//! Packing a glTF document with its companion files into one binary file.
pub mod codec;
pub mod codec_laws;
pub mod pack;
pub mod tree;

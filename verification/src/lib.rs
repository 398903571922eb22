//! Loader for transformer language-model weights.
//!
//! A weight container stores named tensors as raw little-endian byte
//! buffers together with their shapes.  This crate rebuilds the logical
//! parameter set of a LLaMA-style model (embedding table, per-layer
//! attention and feed-forward weights, output head) from that flat name
//! space, decoding each byte buffer into 32-bit scalar words.

pub mod decode;
pub mod error;
pub mod names;
pub mod params;
pub mod source;
pub mod tensor;

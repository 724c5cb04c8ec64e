//! The `encode` and `decode` scalar functions: they turn binary or string data into a
//! textual representation (base64 without padding, or lowercase hex) and back.
//!
//! The byte-level codecs come from the `base64` and `hex` crates; the dispatch over
//! scalar and array values, the decoding of whole arrays into one shared buffer, the
//! planning rules (`return_type`, `coerce_types`) and the round-trip laws live here.

pub mod outside;
pub mod text;
pub mod hex_codec;
pub mod base64_codec;
pub mod data;
pub mod error;
pub mod encoding;
pub mod arrays;
pub mod functions;
pub mod udf;
pub mod laws;

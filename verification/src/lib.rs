//! A verified encoder for a compact lossless image container format.
//!
//! The library turns a raw 3-channel (RGB) pixel buffer into a byte stream:
//! a fixed 14-byte header, a sequence of variable-length chunks produced by
//! a single forward scan over the pixels, and a fixed 8-byte end marker.
//! The exact bytes produced are pinned down by the spec functions in
//! [`stream`] and [`encoder`], and [`encoder::encode`] is proved to emit them.

pub mod encoder;
pub mod laws;
pub mod pixel;
pub mod stream;

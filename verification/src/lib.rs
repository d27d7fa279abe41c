//! Turns grid-shaped color descriptions into PNG images.
//!
//! The pipeline: hex color tokens are parsed into RGBA pixels, pixel grids
//! become rectangular buffers, named textures are composited into scenes by
//! nearest-neighbor sampling, and buffers are serialized as PNG bytes,
//! optionally base64-encoded and gathered into a JSON object.

pub mod api;
pub mod base64;
pub mod codec;
pub mod color;
pub mod grid;
pub mod json_out;
pub mod scene;

use vstd::prelude::*;

verus! {

/// One RGBA color sample: four 8-bit channels.
#[derive(Clone, Copy, Debug, PartialEq, Eq, Structural)]
pub struct Pixel {
    pub r: u8,
    pub g: u8,
    pub b: u8,
    pub a: u8,
}

/// The two ways a whole request can fail: the input text does not have the
/// expected structure, or the PNG serialization step fails.
#[derive(Clone, Copy, Debug, PartialEq, Eq, Structural)]
pub enum GenError {
    MalformedInput,
    EncodeFailure,
}

} // verus!

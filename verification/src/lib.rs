//! Frame decoding, Nostr event construction and signing for a networked camera.

pub mod camera;
pub mod crypto;
pub mod json;
pub mod laws;
pub mod publisher;
pub mod pixel;
pub mod raster;
pub mod rgb_image;
pub mod session;
pub mod signer;
pub mod text;

use vstd::prelude::*;

verus! {

} // verus!

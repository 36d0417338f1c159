//! A small software renderer: RGBA frame buffers, blend modes, line and
//! rectangle rasterisation, a built-in bitmap font, sprite blitting and
//! mouse input tracking.
use vstd::prelude::*;

pub mod context;
pub mod error;
pub mod font;
pub mod host;
pub mod keys;
pub mod pixel;
pub mod raster;
pub mod sprite;

verus! {

} // verus!

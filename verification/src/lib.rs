//! Conversion of raster images into character grids, storage of such grids
//! in a compact binary form, and rendering of grids back into RGB pixels for
//! an external video encoder.
//!
//! The functions of this crate are verified against contracts that are
//! stated over sequences of bytes and mathematical integers, and none of
//! them panics on inputs that meet its precondition. What is taken on
//! trust is named where it stands: the decoding and the resampling of
//! pictures, which the `image` crate does.

pub mod atlas;
pub mod cframe;
pub mod convert;
pub mod crop;
pub mod details;
pub mod error;
pub mod ffmpeg;
pub mod frame;
pub mod layout;
pub mod loops;
pub mod luminance;
pub mod pipeline;
pub mod preprocessing;
pub mod progress;
pub mod raster;
pub mod render;
pub mod sources;
pub mod text;
pub mod textgrid;

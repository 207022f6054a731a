use vstd::prelude::*;

pub mod stateless;

use crate::error::Error;
use crate::DecodedFormat;
use crate::Resolution;

verus! {

/// What a decoder knows of the stream it decodes.
#[derive(Clone, Copy, Debug, PartialEq, Eq, Structural)]
pub struct StreamInfo {
    pub format: DecodedFormat,
    pub min_num_frames: usize,
    pub coded_resolution: Resolution,
    pub display_resolution: Resolution,
}


/// Why a decoder did not take a unit of the stream.
#[derive(Clone, Copy, Debug, PartialEq, Eq, Structural)]
pub enum DecodeError {
    /// The decoder has events waiting, and takes no more before they are
    /// fetched.
    CheckEvents,
    /// The decoder failed for good.
    DecoderError(Error),
}

} // verus!

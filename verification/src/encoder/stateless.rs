use vstd::prelude::*;

use crate::error::Error;
use crate::Resolution;

pub mod vp9;

verus! {

/// What an operation of an encoder backend answers.
pub type StatelessBackendResult<T> = Result<T, Error>;

/// What can go wrong in an encoder.
#[derive(Clone, Copy, Debug, PartialEq, Eq, Structural)]
pub enum EncodeError {
    Unsupported,
    InvalidInternalState,
    StatelessBackendError(Error),
}

/// What an operation of an encoder answers.
pub type EncodeResult<T> = Result<T, EncodeError>;

/// What is known of an input frame besides its pixels.
#[derive(Clone, Copy, Debug, PartialEq, Eq, Structural)]
pub struct FrameMetadata {
    pub display_resolution: Resolution,
    pub timestamp: u64,
    pub force_keyframe: bool,
}

/// The quality and rate that the encoder aims at.
#[derive(Clone, Copy, Debug, PartialEq, Eq, Structural)]
pub struct Tunings {
    pub framerate: u32,
    pub min_quality: u32,
    pub max_quality: u32,
}

/// Which frames may be predicted from which.
#[derive(Clone, Copy, Debug, PartialEq, Eq, Structural)]
pub enum PredictionStructure {
    /// One key frame, then at most `limit` frames that each lean on the one
    /// before.
    LowDelay { limit: u16 },
}

/// The coded bitstream of one frame on its way, with what is known of the
/// frame.
#[derive(Debug)]
pub struct BitstreamPromise<P> {
    pub bitstream: P,
    pub meta: FrameMetadata,
}

} // verus!

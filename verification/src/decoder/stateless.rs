use vstd::prelude::*;

use crate::backend::v4l2::decoder::stateless::V4l2StatelessDecoderBackend;
use crate::error::Error;
use crate::BlockingMode;

pub mod h264;

verus! {

/// What an operation of a backend answers.
pub type StatelessBackendResult<T> = Result<T, Error>;

/// A decoder: a backend, and whether its caller waits for each frame.
pub struct StatelessDecoder {
    pub backend: V4l2StatelessDecoderBackend,
    pub blocking_mode: BlockingMode,
}

} // verus!

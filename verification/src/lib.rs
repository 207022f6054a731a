//! The core of a stateless video decoder and encoder on top of a V4L2 device.
//!
//! The codec state machine parses the stream and decides what to decode; the
//! device decodes. This library stands between the two: it keeps the books
//! on the buffers of the two queues of the device, builds the job that each
//! slice asks of the device, and finds the picture that each decoded frame
//! belongs to when the device hands frames back in an order of its own.
//!
//! Nothing in here talks to the device. Every operation says what the device
//! is to be given, and takes what the device answered, as plain values; the
//! caller carries both across.

use vstd::prelude::*;

pub mod backend;
pub mod codec;
pub mod decoder;
pub mod device;
pub mod encoder;
pub mod error;
pub mod utils;

verus! {

/// Width and height of a frame, in pixels.
#[derive(Clone, Copy, Debug, PartialEq, Eq, Structural)]
pub struct Resolution {
    pub width: u32,
    pub height: u32,
}

/// Pixel layout of the frames that a decoder hands out.
#[derive(Clone, Copy, Debug, PartialEq, Eq, Structural)]
pub enum DecodedFormat {
    NV12,
    I420,
}

/// Whether the caller waits for each unit of work or collects results later.
#[derive(Clone, Copy, Debug, PartialEq, Eq, Structural)]
pub enum BlockingMode {
    Blocking,
    NonBlocking,
}

} // verus!

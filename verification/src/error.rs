use vstd::prelude::*;

verus! {

/// What can go wrong between the codec state machine and the device.
#[derive(Clone, Copy, Debug, PartialEq, Eq, Structural)]
pub enum Error {
    /// The device could not be opened or set up. Fatal, never retried.
    SetupFailure,
    /// No buffer is free. The caller retries once a poll cycle has freed one.
    ResourceExhausted,
    /// A rule between the caller and this library was broken: a completion
    /// for a time stamp that nobody registered, a reference to a picture that
    /// does not exist, a buffer or request used twice.
    ProtocolViolation,
    /// The operation is known and not supported.
    Unimplemented,
    /// The device refused a submission or a write. Fatal for the unit of work
    /// concerned.
    DeviceIo,
}

} // verus!

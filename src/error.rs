use vstd::prelude::*;

verus! {

/// Failures that end one utterance round trip. A failed packet decode is absorbed by the
/// synthesis pipeline and never leaves it, and silence is an outcome, not an error.
#[derive(Clone, Debug, PartialEq, Eq)]
pub enum PipelineError {
    /// No matching device exists.
    DeviceUnavailable,
    /// The device offers no usable sample format, rate or channel layout.
    ConfigUnsupported,
    /// A driver-level fault, such as a device unplugged mid-stream.
    BackendError(String),
    /// The thread on the other end of a channel has gone away.
    ChannelClosed,
}

} // verus!

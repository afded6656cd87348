use vstd::prelude::*;

verus! {

/// Failure reported by the segmented (ISO-TP) transport beneath UDS.
#[derive(Clone, Copy, Debug, PartialEq, Eq, Structural)]
pub enum IsotpError {
    /// No frame arrived in time.
    Timeout,
    /// The peer's flow control frames broke the segmentation protocol.
    InvalidFlowControl,
    /// A reassembled message would not fit the receive buffer.
    Overflow,
    /// A frame arrived that does not fit the current transfer.
    UnexpectedFrame,
    /// The frame transport underneath failed.
    Io,
}

/// A segmented transport: carries whole messages of any length over a
/// frame bus, one message at a time.
pub trait Isotp {
    /// Sends one whole message, segmenting it when needed.
    fn write_isotp(&self, data: &[u8]) -> Result<(), IsotpError>;

    /// Blocks until one whole message is reassembled, or the transport fails.
    fn read_isotp(&self) -> Result<Vec<u8>, IsotpError>;
}

} // verus!

use vstd::prelude::*;

verus! {

/// What can go wrong in the transport's own logic.
#[derive(Debug, Clone, Copy, PartialEq, Eq, Structural)]
pub enum TransportError {
    /// A payload too long for the four-byte length prefix.
    FrameTooLarge,
    /// The stream ended in the middle of a frame.
    TruncatedFrame,
    /// The bytes of a frame are not a serialized event.
    MalformedEnvelope,
    /// All assignable addresses have been handed out.
    AddressesExhausted,
    /// A server already answers at the endpoint.
    ServerAlreadyRunning,
    /// No server became reachable before the deadline.
    ServerStartupTimeout,
}

} // verus!

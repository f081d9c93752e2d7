use vstd::prelude::*;

verus! {

/// The ways a bridge call can fail. Every failure is fatal for the request:
/// either a well-formed response head is produced, or one of these is
/// returned before any response exists.
#[derive(Clone, Copy, Debug, PartialEq, Eq, Structural)]
pub enum BridgeError {
    /// The backend executable could not be started.
    ProcessSpawnError,
    /// The request body declared a compressed encoding but did not decode.
    BodyDecodeError,
    /// The backend emitted a header line without a colon separator.
    ResponseParseError,
    /// A pipe read or write failed underneath the bridge.
    StreamIOError,
}

impl BridgeError {
    /// A short fixed description of the failure, for diagnostics.
    pub fn message(&self) -> (r: &'static str)
        ensures
            *self == BridgeError::ProcessSpawnError ==> r@ == "failed to spawn backend process"@,
            *self == BridgeError::BodyDecodeError ==> r@ == "failed to decode request body"@,
            *self == BridgeError::ResponseParseError ==> r@ == "malformed header line in backend output"@,
            *self == BridgeError::StreamIOError ==> r@ == "stream read or write failed"@,
    {
        match self {
            BridgeError::ProcessSpawnError => "failed to spawn backend process",
            BridgeError::BodyDecodeError => "failed to decode request body",
            BridgeError::ResponseParseError => "malformed header line in backend output",
            BridgeError::StreamIOError => "stream read or write failed",
        }
    }
}

} // verus!

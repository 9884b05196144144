use vstd::prelude::*;

verus! {

/// Failure taxonomy for the deployment tooling. Every operation reports
/// failures through this type; nothing is silently swallowed except the
/// non-fatal error code a synchronous broadcast may carry, which is returned
/// to the caller inside the outcome instead.
#[derive(Debug, Clone, PartialEq, Eq)]
pub enum ScriptError {
    /// A required configuration value (environment-provided directory,
    /// multisig address) is missing.
    ConfigurationError,
    /// The state document has no address or code id recorded where one is
    /// required.
    NotFound,
    /// Reading or writing the persisted state file failed.
    IOFailure,
    /// A payload could not be encoded or decoded.
    SerializationFailure,
    /// Broadcast, polling or query transport failed.
    ChainCommunicationFailure,
    /// The confirmation-poll attempt budget was exhausted before the
    /// transaction was found.
    ConfirmationTimeout,
    /// An expected log attribute was absent or unparseable.
    MalformedChainResponse,
}

} // verus!

//! The error taxonomy of the service core.

use vstd::prelude::*;

verus! {

/// Every failure a service entry point or channel operation can report.
///
/// Input-validation failures (`UnknownCommand`, `MalformedRequest`) and
/// lifecycle misuse (`IllegalTransition`) are always local and non-fatal:
/// the caller gets the typed failure and the service state is untouched.
/// `AttestationFailure` and `ChannelConfigError` are reported from
/// service start-up and leave the lifecycle where it was, so a retry is
/// possible.  `ConnectionError` is scoped to a single connection.
#[derive(Clone, Copy, Debug, PartialEq, Eq, Structural)]
pub enum ServiceError {
    /// Quote generation, endorsement-service communication, or
    /// endorsement validation failed.
    AttestationFailure,
    /// A TLS configuration was requested from a malformed identity or
    /// trust policy.
    ChannelConfigError,
    /// The command identifier is outside the closed entry-point table.
    UnknownCommand,
    /// The raw request bytes do not decode to the command's input type.
    MalformedRequest,
    /// The command is not legal in the current lifecycle state.
    IllegalTransition,
    /// A single RPC connection failed; other connections are unaffected.
    ConnectionError,
}

} // verus!

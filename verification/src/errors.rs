//! The error taxonomy of the core.

use vstd::prelude::*;

verus! {

/// The handshake step that an error report points at.
#[derive(Clone, Copy, PartialEq, Eq, Structural, Debug)]
pub enum Step {
    CreateClient,
    UpdateClient,
    ConnectionOpenInit,
    ConnectionOpenTry,
    ConnectionOpenAck,
    ConnectionOpenConfirm,
    ChannelOpenInit,
    ChannelOpenTry,
    ChannelOpenAck,
    ChannelOpenConfirm,
    ChannelCloseInit,
    ChannelCloseConfirm,
}

/// Failures of the core.
///
/// `NotFound` comes from registries and state accessors when the queried
/// key does not exist; `ConfigInvalid` from chain construction when a
/// setup-time invariant is violated; `ValidationFailure` from message
/// handling when a state or proof-height rule rejects the message; and
/// `ProtocolViolation` from the coordinator when a dispatched step fails
/// or produces an unexpected outcome, naming the step that failed. Nothing
/// is retried: a `ProtocolViolation` aborts the whole composite operation.
#[derive(Clone, Copy, PartialEq, Eq, Structural, Debug)]
pub enum Error {
    NotFound,
    ConfigInvalid,
    ValidationFailure,
    ProtocolViolation(Step),
}

} // verus!

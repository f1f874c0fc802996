//! Failures at the client boundary.

use vstd::prelude::*;

use crate::protocol::{
    AttachmentCommandId, CommandDisposition, ControlFailure, ErrorCode, ProtocolError,
    RuntimeIdentity,
};

verus! {

/// Why an attachment no longer admits commands.
#[derive(Debug, Clone, Copy, PartialEq, Eq, Structural)]
pub enum AttachmentUnavailableReason {
    /// A clean detach has started.
    Detaching,
    /// The connection has terminated or was closed locally.
    Closed,
    /// The connection-local command numbers were consumed.
    CommandIdsExhausted,
}

impl AttachmentUnavailableReason {
    /// The detail for a person.
    pub open spec fn says(&self) -> Seq<char> {
        match self {
            AttachmentUnavailableReason::Detaching => "clean detach is in progress"@,
            AttachmentUnavailableReason::Closed => "the attachment is closed"@,
            AttachmentUnavailableReason::CommandIdsExhausted =>
                "the attachment command-id space is exhausted"@,
        }
    }

    /// Write the detail for a person.
    pub fn message(&self) -> (r: &'static str)
        ensures
            r@ == self.says(),
    {
        match self {
            AttachmentUnavailableReason::Detaching => "clean detach is in progress",
            AttachmentUnavailableReason::Closed => "the attachment is closed",
            AttachmentUnavailableReason::CommandIdsExhausted =>
                "the attachment command-id space is exhausted",
        }
    }
}

/// Why a sent or ambiguously sent attachment command has no unique result.
#[derive(Debug, Clone, Copy, PartialEq, Eq, Structural)]
pub enum AttachmentUnknownReason {
    /// The transport ended before the unique result arrived.
    TransportTerminated,
    /// A daemon frame violated correlation or receipt invariants.
    ProtocolViolation,
    /// The caller abruptly closed the attachment.
    ClosedLocally,
}

impl AttachmentUnknownReason {
    /// The detail for a person.
    pub open spec fn says(&self) -> Seq<char> {
        match self {
            AttachmentUnknownReason::TransportTerminated =>
                "the attachment transport terminated"@,
            AttachmentUnknownReason::ProtocolViolation =>
                "the daemon violated the attachment protocol"@,
            AttachmentUnknownReason::ClosedLocally => "the attachment was closed locally"@,
        }
    }

    /// Write the detail for a person.
    pub fn message(&self) -> (r: &'static str)
        ensures
            r@ == self.says(),
    {
        match self {
            AttachmentUnknownReason::TransportTerminated => "the attachment transport terminated",
            AttachmentUnknownReason::ProtocolViolation =>
                "the daemon violated the attachment protocol",
            AttachmentUnknownReason::ClosedLocally => "the attachment was closed locally",
        }
    }
}

/// Failure observed at the public client boundary. Failures of the platform
/// and of the transport are carried as their text.
#[derive(Debug, PartialEq, Eq)]
#[allow(inconsistent_fields)]
pub enum ClientError {
    /// The daemon socket could not be reached.
    Connect { path: String, source: String },
    /// The socket closed before the expected frame arrived.
    Closed,
    /// The line transport failed.
    Transport(String),
    /// A frame could not be encoded or decoded.
    Frame(String),
    /// The daemon explicitly rejected the operation.
    Protocol { code: ErrorCode, message: String },
    /// A correlated control request was rejected with a known application
    /// boundary.
    ControlRejected { failure: ControlFailure },
    /// A short-lived control request was sent but its unique correlated result
    /// was not proven.
    ControlRequestUnknown { source: Box<ClientError> },
    /// A local control preflight failed before the command reached transport.
    ControlNotApplied { source: Box<ClientError> },
    /// Another attachment command would violate a local hard bound.
    AttachmentBackpressure { limit: &'static str },
    /// The attachment no longer accepts new commands.
    AttachmentUnavailable { reason: AttachmentUnavailableReason },
    /// An attachment command lost its unique result and may have crossed its
    /// owner boundary.
    AttachmentCommandUnknown { command_id: AttachmentCommandId, reason: AttachmentUnknownReason },
    /// More than one caller awaited the same attachment event stream.
    ConcurrentEventRead,
    /// The daemon violated a control receipt or attachment delivery invariant.
    ProtocolContractViolation(&'static str),
    /// The daemon returned a valid frame in the wrong protocol state.
    UnexpectedFrame(&'static str),
    /// A required capability version lies outside `1..=maximum_version`.
    InvalidCapabilityRequirement {
        capability: String,
        required_version: u64,
        maximum_version: u64,
    },
    /// The Runtime does not advertise a required capability version.
    UnsupportedCapability {
        capability: String,
        required_version: u64,
        advertised_version: Option<u64>,
    },
    /// The reachable Runtime is not the one that the caller expects.
    RuntimeIdentityMismatch { expected: Box<RuntimeIdentity>, actual: Box<RuntimeIdentity> },
}

impl ClientError {
    /// What is known of the application of a failed control command, where the
    /// failure is itself the outcome of one.
    pub open spec fn disposition(&self) -> Option<CommandDisposition> {
        match self {
            ClientError::ControlRejected { failure } => Some(failure.disposition),
            ClientError::ControlRequestUnknown { .. } => Some(CommandDisposition::Unknown),
            ClientError::AttachmentCommandUnknown { .. } => Some(CommandDisposition::Unknown),
            ClientError::ControlNotApplied { .. } => Some(CommandDisposition::NotApplied),
            ClientError::AttachmentBackpressure { .. } => Some(CommandDisposition::NotApplied),
            ClientError::AttachmentUnavailable { .. } => Some(CommandDisposition::NotApplied),
            ClientError::UnsupportedCapability { .. } => Some(CommandDisposition::NotApplied),
            ClientError::RuntimeIdentityMismatch { .. } => Some(CommandDisposition::NotApplied),
            _ => None,
        }
    }

    /// Return the known application disposition for a failed control command.
    ///
    /// `None` means the error is not itself a correlated control outcome.
    pub fn control_disposition(&self) -> (r: Option<CommandDisposition>)
        ensures
            r == self.disposition(),
    {
        match self {
            ClientError::ControlRejected { failure } => Some(failure.disposition),
            ClientError::ControlRequestUnknown { .. } => Some(CommandDisposition::Unknown),
            ClientError::AttachmentCommandUnknown { .. } => Some(CommandDisposition::Unknown),
            ClientError::ControlNotApplied { .. } => Some(CommandDisposition::NotApplied),
            ClientError::AttachmentBackpressure { .. } => Some(CommandDisposition::NotApplied),
            ClientError::AttachmentUnavailable { .. } => Some(CommandDisposition::NotApplied),
            ClientError::UnsupportedCapability { .. } => Some(CommandDisposition::NotApplied),
            ClientError::RuntimeIdentityMismatch { .. } => Some(CommandDisposition::NotApplied),
            _ => None,
        }
    }

    /// Whether this is the contract violation with this detail.
    pub open spec fn violates(&self, message: Seq<char>) -> bool {
        match self {
            ClientError::ProtocolContractViolation(text) => text@ == message,
            _ => false,
        }
    }

    /// Whether this is the unexpected frame with this detail.
    pub open spec fn unexpected(&self, message: Seq<char>) -> bool {
        match self {
            ClientError::UnexpectedFrame(text) => text@ == message,
            _ => false,
        }
    }

    /// The failure that the daemon reported.
    pub fn from_protocol(error: ProtocolError) -> (r: ClientError)
        ensures
            r == (ClientError::Protocol { code: error.code, message: error.message }),
    {
        ClientError::Protocol { code: error.code, message: error.message }
    }
}

/// The failure of a control request that was sent without a proven result.
pub fn control_request_unknown(source: ClientError) -> (r: ClientError)
    ensures
        r == (ClientError::ControlRequestUnknown { source: Box::new(source) }),
{
    ClientError::ControlRequestUnknown { source: Box::new(source) }
}

/// The failure of a control request that never reached transport.
pub fn control_not_applied(source: ClientError) -> (r: ClientError)
    ensures
        r == (ClientError::ControlNotApplied { source: Box::new(source) }),
{
    ClientError::ControlNotApplied { source: Box::new(source) }
}

} // verus!

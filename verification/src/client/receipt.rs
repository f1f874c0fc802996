//! Receipts: what an accepted control command proves.

use vstd::prelude::*;

use crate::client::error::ClientError;
use crate::protocol::{
    AttachmentCommandId, CommandDisposition, ControlFailure, ControlReceipt, ErrorCode, RunInfo,
    RunSignal, StopDisposition, TerminalSize,
};

verus! {

/// Typed receipt for one complete PTY input write.
#[derive(Debug, Clone, Copy, PartialEq, Eq, Structural)]
pub struct InputReceipt {
    /// Bytes that reached the daemon-owned PTY write boundary.
    pub written_bytes: u32,
}

/// Typed receipt for one applied PTY resize.
#[derive(Debug, Clone, Copy, PartialEq, Eq, Structural)]
pub struct ResizeReceipt {
    /// Size read back from the owning PTY.
    pub applied_size: TerminalSize,
}

/// Typed receipt that one portable signal reached the native lifecycle owner.
#[derive(Debug, Clone, Copy, PartialEq, Eq, Structural)]
pub struct SignalReceipt {
    /// Exact signal delivered by the daemon.
    pub signal: RunSignal,
}

/// Typed receipt that the complete native Run session reached quiescence.
#[derive(Debug, Clone, Copy, PartialEq, Eq, Structural)]
pub struct StopReceipt {
    /// Whether the graceful phase was sufficient or force was required.
    pub disposition: StopDisposition,
}

/// One accepted short-lived control request.
#[derive(Debug, Clone, PartialEq, Eq)]
pub struct ControlAccepted<R> {
    /// Current Run metadata returned with the owner receipt.
    pub run: RunInfo,
    /// Operation-specific owner-boundary receipt.
    pub receipt: R,
}

/// One accepted command on a persistent attachment.
#[derive(Debug, Clone, PartialEq, Eq)]
pub struct AttachmentControlAccepted<R> {
    /// Connection-local command correlation identity.
    pub command_id: AttachmentCommandId,
    /// Operation-specific owner-boundary receipt.
    pub receipt: R,
}

/// Backpressure is only ever reported for a command that was not applied.
pub open spec fn failure_is_consistent(failure: ControlFailure) -> bool {
    failure.error.code == ErrorCode::ControlBackpressure ==> failure.disposition
        == CommandDisposition::NotApplied
}

/// Check a control failure against the protocol.
pub fn validate_control_failure(failure: &ControlFailure) -> (r: Result<(), &'static str>)
    ensures
        r is Ok == failure_is_consistent(*failure),
        r matches Err(message) ==> message@
            == "control_backpressure must have not_applied disposition"@,
{
    if failure.error.code == ErrorCode::ControlBackpressure && failure.disposition
        != CommandDisposition::NotApplied {
        return Err("control_backpressure must have not_applied disposition");
    }
    Ok(())
}

/// Read the receipt of an Input of `expected_bytes` bytes.
pub fn decode_input_receipt(receipt: &ControlReceipt, expected_bytes: usize) -> (r: Result<
    InputReceipt,
    ClientError,
>)
    ensures
        match *receipt {
            ControlReceipt::Input { written_bytes } => if written_bytes as int
                == expected_bytes as int {
                r == Ok::<InputReceipt, ClientError>(InputReceipt { written_bytes })
            } else {
                r matches Err(e) && e.violates(
                    "input receipt byte count differs from the command payload"@,
                )
            },
            _ => r matches Err(e) && e.violates("input returned another receipt kind"@),
        },
{
    match receipt {
        ControlReceipt::Input { written_bytes } => {
            if *written_bytes as u64 == expected_bytes as u64 {
                Ok(InputReceipt { written_bytes: *written_bytes })
            } else {
                Err(
                    ClientError::ProtocolContractViolation(
                        "input receipt byte count differs from the command payload",
                    ),
                )
            }
        },
        _ => Err(ClientError::ProtocolContractViolation("input returned another receipt kind")),
    }
}

/// Read the receipt of a resize.
pub fn decode_resize_receipt(receipt: &ControlReceipt) -> (r: Result<ResizeReceipt, ClientError>)
    ensures
        match *receipt {
            ControlReceipt::Resize { applied_size } => if applied_size.cols != 0
                && applied_size.rows != 0 {
                r == Ok::<ResizeReceipt, ClientError>(ResizeReceipt { applied_size })
            } else {
                r matches Err(e) && e.violates("resize receipt reported a zero applied dimension"@)
            },
            _ => r matches Err(e) && e.violates("resize returned another receipt kind"@),
        },
{
    match receipt {
        ControlReceipt::Resize { applied_size } => {
            if applied_size.cols != 0 && applied_size.rows != 0 {
                Ok(ResizeReceipt { applied_size: *applied_size })
            } else {
                Err(
                    ClientError::ProtocolContractViolation(
                        "resize receipt reported a zero applied dimension",
                    ),
                )
            }
        },
        _ => Err(ClientError::ProtocolContractViolation("resize returned another receipt kind")),
    }
}

/// Read the receipt of a stop.
pub fn decode_stop_receipt(receipt: &ControlReceipt) -> (r: Result<StopReceipt, ClientError>)
    ensures
        match *receipt {
            ControlReceipt::Stop { disposition } => r == Ok::<StopReceipt, ClientError>(
                StopReceipt { disposition },
            ),
            _ => r matches Err(e) && e.violates("stop returned another receipt kind"@),
        },
{
    match receipt {
        ControlReceipt::Stop { disposition } => Ok(StopReceipt { disposition: *disposition }),
        _ => Err(ClientError::ProtocolContractViolation("stop returned another receipt kind")),
    }
}

/// Read the receipt of the signal `expected`.
pub fn decode_signal_receipt(receipt: &ControlReceipt, expected: RunSignal) -> (r: Result<
    SignalReceipt,
    ClientError,
>)
    ensures
        match *receipt {
            ControlReceipt::Signal { signal } => if signal == expected {
                r == Ok::<SignalReceipt, ClientError>(SignalReceipt { signal })
            } else {
                r matches Err(e) && e.violates("signal receipt differs from the requested signal"@)
            },
            _ => r matches Err(e) && e.violates("signal returned another receipt kind"@),
        },
{
    match receipt {
        ControlReceipt::Signal { signal } => {
            if *signal == expected {
                Ok(SignalReceipt { signal: *signal })
            } else {
                Err(
                    ClientError::ProtocolContractViolation(
                        "signal receipt differs from the requested signal",
                    ),
                )
            }
        },
        _ => Err(ClientError::ProtocolContractViolation("signal returned another receipt kind")),
    }
}

} // verus!

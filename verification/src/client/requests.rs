//! The frames that a client sends for its calls.

use vstd::prelude::*;

use crate::client::connector::{reads_hello, Client, Received};
use crate::client::error::ClientError;
use crate::identity::RunId;
use crate::protocol::{
    ClientFrame, CommandDisposition, ForkPlan, OperationKey, RecoverableInput, Request,
    RunSignal, RunSpec, RuntimeIdentity, TerminalSize, PROTOCOL_VERSION,
};

verus! {

/// What a client asks of a daemon in one call.
#[derive(Debug, PartialEq, Eq)]
pub enum ClientCall {
    StartWithOperationKey { operation_key: OperationKey, spec: RunSpec },
    DiscoverTmux { socket_path: String },
    ImportTmux { socket_path: String, pane_id: String },
    ForkWithOperationKey { operation_key: OperationKey, parent: RunId, plan: ForkPlan },
    List,
    Status { id: RunId },
    Input { id: RunId, data: Vec<u8> },
    RecoverableInput { operation: RecoverableInput },
    Resize { id: RunId, size: TerminalSize },
    Interrupt { id: RunId },
    Stop { id: RunId },
    Attach { id: RunId, after_byte: u64 },
}

/// The request that a call sends.
pub open spec fn request_of(call: ClientCall) -> Request {
    match call {
        ClientCall::StartWithOperationKey { operation_key, spec } => Request::Start {
            operation_key,
            spec,
        },
        ClientCall::DiscoverTmux { socket_path } => Request::DiscoverTmux { socket_path },
        ClientCall::ImportTmux { socket_path, pane_id } => Request::ImportTmux {
            socket_path,
            pane_id,
        },
        ClientCall::ForkWithOperationKey { operation_key, parent, plan } => Request::Fork {
            operation_key,
            parent,
            plan,
        },
        ClientCall::List => Request::List,
        ClientCall::Status { id } => Request::Status { id },
        ClientCall::Input { id, data } => Request::Input { id, data },
        ClientCall::RecoverableInput { operation } => Request::RecoverableInput { operation },
        ClientCall::Resize { id, size } => Request::Resize { id, size },
        ClientCall::Interrupt { id } => Request::Signal { id, signal: RunSignal::Interrupt },
        ClientCall::Stop { id } => Request::Stop { id },
        ClientCall::Attach { id, after_byte } => Request::Attach { id, after_byte },
    }
}

/// The first frame of every connection.
pub fn hello() -> (r: ClientFrame)
    ensures
        r == (ClientFrame::Hello { protocol: PROTOCOL_VERSION }),
{
    ClientFrame::Hello { protocol: PROTOCOL_VERSION }
}

/// Whether a call changes a Run, so that its failure has to say whether it was
/// applied.
pub open spec fn is_control(call: ClientCall) -> bool {
    call is Input || call is RecoverableInput || call is Resize || call is Interrupt || call is Stop
}

impl ClientCall {
    /// Whether this call changes a Run, so that its failure has to say whether
    /// it was applied.
    pub fn is_control(&self) -> (r: bool)
        ensures
            r == is_control(*self),
    {
        match self {
            ClientCall::Input { .. }
            | ClientCall::RecoverableInput { .. }
            | ClientCall::Resize { .. }
            | ClientCall::Interrupt { .. }
            | ClientCall::Stop { .. } => true,
            _ => false,
        }
    }
}

fn call_request(call: ClientCall) -> (r: Request)
    ensures
        r == request_of(call),
{
    match call {
        ClientCall::StartWithOperationKey { operation_key, spec } => Request::Start {
            operation_key,
            spec,
        },
        ClientCall::DiscoverTmux { socket_path } => Request::DiscoverTmux { socket_path },
        ClientCall::ImportTmux { socket_path, pane_id } => Request::ImportTmux {
            socket_path,
            pane_id,
        },
        ClientCall::ForkWithOperationKey { operation_key, parent, plan } => Request::Fork {
            operation_key,
            parent,
            plan,
        },
        ClientCall::List => Request::List,
        ClientCall::Status { id } => Request::Status { id },
        ClientCall::Input { id, data } => Request::Input { id, data },
        ClientCall::RecoverableInput { operation } => Request::RecoverableInput { operation },
        ClientCall::Resize { id, size } => Request::Resize { id, size },
        ClientCall::Interrupt { id } => Request::Signal { id, signal: RunSignal::Interrupt },
        ClientCall::Stop { id } => Request::Stop { id },
        ClientCall::Attach { id, after_byte } => Request::Attach { id, after_byte },
    }
}

impl Client {
    /// The one business frame of a call, for a connection that began with
    /// `hello`. There is none unless the Runtime is admitted.
    pub fn dispatch(&self, hello: Received, call: ClientCall) -> (r: Result<
        ClientFrame,
        ClientError,
    >)
        ensures
            match r {
                Ok(frame) => frame == (ClientFrame::Request { request: request_of(call) })
                    && exists|identity: RuntimeIdentity| #[trigger]
                    reads_hello(hello, Ok(identity)) && self@.admits(identity@),
                Err(e) => {
                    ||| exists|identity: RuntimeIdentity| #[trigger]
                        reads_hello(hello, Ok(identity)) && !self@.admits(identity@)
                            && self@.rejects_with(identity@, e)
                    ||| if is_control(call) {
                        e matches ClientError::ControlNotApplied { source } && reads_hello(
                            hello,
                            Err(*source),
                        )
                    } else {
                        reads_hello(hello, Err(e))
                    }
                },
            },
            is_control(call) ==> (r matches Err(e) ==> e.disposition() == Some(
                CommandDisposition::NotApplied,
            )),
    {
        if call.is_control() {
            match self.connect_control(hello) {
                Ok(identity) => {
                    assert(reads_hello(hello, Ok(identity)));
                    Ok(ClientFrame::Request { request: call_request(call) })
                },
                Err(error) => Err(error),
            }
        } else {
            match self.connect(hello) {
                Ok(identity) => {
                    assert(reads_hello(hello, Ok(identity)));
                    Ok(ClientFrame::Request { request: call_request(call) })
                },
                Err(error) => Err(error),
            }
        }
    }
}

} // verus!

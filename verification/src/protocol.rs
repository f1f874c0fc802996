//! Plain values of the local protocol that the client and the daemon exchange.

use vstd::prelude::*;

use crate::identity::{DaemonInstanceId, RunId, RuntimeId};

verus! {

/// Protocol generation that this client and daemon speak.
pub const PROTOCOL_VERSION: u32 = 13;

/// Version of the capability manifest that a compatible Runtime sends.
pub const RUNTIME_CAPABILITY_MANIFEST_VERSION: u32 = 1;

/// Largest capability version: the largest integer that every client can
/// represent exactly.
pub const MAX_RUNTIME_CAPABILITY_VERSION: u64 = 9007199254740991;

/// Stable machine-readable category of a daemon failure.
#[derive(Debug, Clone, Copy, PartialEq, Eq, Structural)]
pub enum ErrorCode {
    BackendUnavailable,
    ControlBackpressure,
    CreationConflict,
    DaemonInstanceMismatch,
    Internal,
    InvalidRequest,
    InvalidRunState,
    Io,
    Persistence,
    RunCapacity,
    RunNotFound,
    SpawnFailed,
    StopOperationConflict,
    TargetChanged,
    UnsupportedCapability,
    VersionMismatch,
}

/// A daemon failure: its category and the detail for a person.
#[derive(Debug, PartialEq, Eq)]
pub struct ProtocolError {
    pub code: ErrorCode,
    pub message: String,
}

impl ProtocolError {
    /// The failure with this category and detail.
    pub fn new(code: ErrorCode, message: String) -> (r: ProtocolError)
        ensures
            r.code == code,
            r.message == message,
    {
        ProtocolError { code, message }
    }

    /// Whether this is the failure with this category and detail.
    pub open spec fn says(&self, code: ErrorCode, message: Seq<char>) -> bool {
        self.code == code && self.message@ == message
    }

    /// A copy of this failure.
    pub fn copied(&self) -> (r: ProtocolError)
        ensures
            r == *self,
    {
        ProtocolError { code: self.code, message: self.message.clone() }
    }
}

/// The failure with a fixed detail.
pub fn protocol_error(code: ErrorCode, message: &str) -> (r: ProtocolError)
    ensures
        r.says(code, message@),
{
    ProtocolError { code, message: message.to_owned() }
}

/// Whether a failed control command may have reached its owner.
#[derive(Debug, Clone, Copy, PartialEq, Eq, Structural)]
pub enum CommandDisposition {
    NotApplied,
    Unknown,
}

/// A failed control command.
#[derive(Debug, PartialEq, Eq)]
pub struct ControlFailure {
    pub error: ProtocolError,
    pub disposition: CommandDisposition,
}

impl ControlFailure {
    /// A copy of this failure.
    pub fn copied(&self) -> (r: ControlFailure)
        ensures
            r == *self,
    {
        ControlFailure { error: self.error.copied(), disposition: self.disposition }
    }
}

/// A control failure that never reached its owner.
pub fn control_failure_not_applied(error: ProtocolError) -> (r: ControlFailure)
    ensures
        r == (ControlFailure { error, disposition: CommandDisposition::NotApplied }),
{
    ControlFailure { error, disposition: CommandDisposition::NotApplied }
}

/// Rows and columns of a terminal.
#[derive(Debug, Clone, Copy, PartialEq, Eq, Structural)]
pub struct TerminalSize {
    pub cols: u16,
    pub rows: u16,
}

/// Portable signal to a Run.
#[derive(Debug, Clone, Copy, PartialEq, Eq, Structural)]
pub enum RunSignal {
    Interrupt,
}

/// Whether a stopped session needed force.
#[derive(Debug, Clone, Copy, PartialEq, Eq, Structural)]
pub enum StopDisposition {
    Graceful,
    Forced,
}

/// What the owner of a control proves about one accepted command.
#[derive(Debug, Clone, Copy, PartialEq, Eq, Structural)]
pub enum ControlReceipt {
    Input { written_bytes: u32 },
    Resize { applied_size: TerminalSize },
    Signal { signal: RunSignal },
    Stop { disposition: StopDisposition },
}

/// Result of one control command at its owner.
pub type ControlResult = Result<ControlReceipt, ControlFailure>;

/// A copy of one control result.
pub fn copied_control_result(result: &ControlResult) -> (r: ControlResult)
    ensures
        r == *result,
{
    match result {
        Ok(receipt) => Ok(*receipt),
        Err(failure) => Err(failure.copied()),
    }
}

/// Outcome of one attachment command as the daemon reports it.
#[derive(Debug, PartialEq, Eq)]
pub enum ControlOutcome {
    Accepted { receipt: ControlReceipt },
    Rejected { failure: ControlFailure },
}

/// Range of input bytes that a recoverable Input applied.
#[derive(Debug, Clone, Copy, PartialEq, Eq, Structural)]
pub struct AppliedInputRange {
    pub start_byte: u64,
    pub end_byte: u64,
}

/// A caller-retained key that makes one operation retryable. `defect` says why
/// the protocol refuses the text as a key, where it does.
#[derive(Debug, PartialEq, Eq)]
pub struct OperationKey {
    pub text: String,
    pub defect: Option<String>,
}

impl OperationKey {
    /// The characters by which two keys are compared.
    pub open spec fn view(&self) -> Seq<char> {
        self.text@
    }

    /// A copy of this key.
    pub fn copied(&self) -> (r: OperationKey)
        ensures
            r == *self,
    {
        let defect = match &self.defect {
            Some(defect) => Some(defect.clone()),
            None => None,
        };
        OperationKey { text: self.text.clone(), defect }
    }

    /// Whether both are the same key.
    pub fn same(&self, other: &OperationKey) -> (r: bool)
        ensures
            r == (self@ == other@),
    {
        self.text.eq(&other.text)
    }
}

/// The program that a native Run executes.
#[derive(Debug, Clone, PartialEq, Eq)]
pub struct RunSpec {
    pub program: String,
    pub args: Vec<String>,
    pub cwd: Option<String>,
    /// Names and values of environment variables. Their order does not matter;
    /// of two values for one name the later counts.
    pub env: Vec<(String, String)>,
    pub size: TerminalSize,
    pub declared_inputs: Vec<String>,
}

/// How a forked Run relates to the state of its parent.
#[derive(Debug, Clone, Copy, PartialEq, Eq, Structural)]
pub enum ForkFidelity {
    LevelA,
    LevelB,
}

/// How to make a child Run.
#[derive(Debug, PartialEq, Eq)]
pub enum ForkPlan {
    /// Execute the parent's own specification.
    LevelA,
    /// Execute a specification that the caller materialised.
    LevelB { spec: RunSpec },
}

/// Where a forked Run came from.
#[derive(Debug, Clone, Copy, PartialEq, Eq, Structural)]
pub struct RunLineage {
    pub parent: RunId,
    pub fidelity: ForkFidelity,
}

/// What executes or observes a Run.
#[derive(Debug, Clone, PartialEq, Eq)]
pub enum RunBackend {
    Native,
    Tmux {
        socket_path: String,
        server_pid: u32,
        server_started_at: u64,
        session_id: String,
        window_id: String,
        pane_id: String,
        tmux_version: String,
    },
}

impl RunBackend {
    /// A copy of this backend.
    pub fn copied(&self) -> (r: RunBackend)
        ensures
            r == *self,
    {
        match self {
            RunBackend::Native => RunBackend::Native,
            RunBackend::Tmux {
                socket_path,
                server_pid,
                server_started_at,
                session_id,
                window_id,
                pane_id,
                tmux_version,
            } => RunBackend::Tmux {
                socket_path: socket_path.clone(),
                server_pid: *server_pid,
                server_started_at: *server_started_at,
                session_id: session_id.clone(),
                window_id: window_id.clone(),
                pane_id: pane_id.clone(),
                tmux_version: tmux_version.clone(),
            },
        }
    }
}

/// Operations that a Run accepts.
#[derive(Debug, Clone, Copy, PartialEq, Eq, Structural)]
pub struct RunCapabilities {
    pub input: bool,
    pub resize: bool,
    pub stop: bool,
    pub fork_level_a: bool,
    pub fork_level_b: bool,
}

/// What a native Run accepts.
pub fn native_capabilities() -> (r: RunCapabilities)
    ensures
        r.input && r.resize && r.stop && r.fork_level_a && r.fork_level_b,
{
    RunCapabilities { input: true, resize: true, stop: true, fork_level_a: true, fork_level_b: true }
}

/// What a Run that observes a tmux pane accepts: nothing.
pub fn tmux_read_only_capabilities() -> (r: RunCapabilities)
    ensures
        !r.input && !r.resize && !r.stop && !r.fork_level_a && !r.fork_level_b,
{
    RunCapabilities {
        input: false,
        resize: false,
        stop: false,
        fork_level_a: false,
        fork_level_b: false,
    }
}

/// Why a Run ended without an exit status.
#[derive(Debug, Clone, Copy, PartialEq, Eq, Structural)]
pub enum InterruptionReason {
    DaemonRestart,
    TmuxProtocolError,
    TmuxServerUnavailable,
    TmuxTargetChanged,
}

/// Lifecycle state of a Run.
#[derive(Debug, Clone, PartialEq, Eq)]
pub enum RunState {
    Running,
    Exited { code: u32, signal: Option<String> },
    Interrupted { reason: InterruptionReason },
}

impl RunState {
    /// A copy of this state.
    pub fn copied(&self) -> (r: RunState)
        ensures
            r == *self,
    {
        match self {
            RunState::Running => RunState::Running,
            RunState::Exited { code, signal } => {
                let signal = match signal {
                    Some(name) => Some(name.clone()),
                    None => None,
                };
                RunState::Exited { code: *code, signal }
            },
            RunState::Interrupted { reason } => RunState::Interrupted { reason: *reason },
        }
    }
}

/// Public description of one Run.
#[derive(Debug, Clone, PartialEq, Eq)]
pub struct RunInfo {
    pub id: RunId,
    pub spec: Option<RunSpec>,
    pub lineage: Option<RunLineage>,
    pub backend: RunBackend,
    pub capabilities: RunCapabilities,
    pub pid: Option<u32>,
    pub state: RunState,
    pub latest_output_bytes: u64,
    pub durable_output_bytes: Option<u64>,
    pub first_available_byte: u64,
    pub attachments: usize,
    pub applied_input_bytes: Option<u64>,
}

/// A contiguous run of output bytes: those at `start_byte..end_byte` of all
/// output that the Run ever produced.
#[derive(Debug, PartialEq, Eq)]
pub struct OutputChunk {
    pub start_byte: u64,
    pub end_byte: u64,
    pub data: Vec<u8>,
}

/// Retained output after a cursor.
#[derive(Debug, PartialEq, Eq)]
pub struct OutputReplay {
    pub chunks: Vec<OutputChunk>,
    pub first_available_byte: u64,
    pub latest_output_bytes: u64,
    pub truncated: bool,
}

/// The replay without its chunks, which follow as separate frames.
#[derive(Debug, Clone, Copy, PartialEq, Eq, Structural)]
pub struct OutputReplayHeader {
    pub first_available_byte: u64,
    pub latest_output_bytes: u64,
    pub truncated: bool,
}

/// First frame of an attachment.
#[derive(Debug, PartialEq, Eq)]
pub struct AttachedSnapshotHeader {
    pub run: RunInfo,
    pub replay: OutputReplayHeader,
}

/// State of a Run at the moment of attachment.
#[derive(Debug, PartialEq, Eq)]
pub struct AttachedSnapshot {
    pub run: RunInfo,
    pub replay: OutputReplay,
}

/// Observation of an imported tmux pane.
#[derive(Debug, PartialEq, Eq)]
pub enum TmuxRunEvent {
    Paused,
    Continued,
    SessionRenamed { name: String },
}

/// Live event of one Run.
#[derive(Debug, PartialEq, Eq)]
pub enum RunEvent {
    Output { chunk: OutputChunk },
    /// Output up to `latest_output_bytes` was not delivered.
    Gap { latest_output_bytes: u64 },
    Exited { state: RunState },
    Interrupted { reason: InterruptionReason },
    Tmux { event: TmuxRunEvent },
}

/// One pane of a tmux server, with everything that identifies it.
#[derive(Debug, PartialEq, Eq)]
pub struct TmuxPaneInfo {
    pub socket_path: String,
    pub server_pid: u32,
    pub server_started_at: u64,
    pub session_id: String,
    pub window_id: String,
    pub pane_id: String,
    pub pane_pid: u32,
    pub tmux_version: String,
}

/// An Input that the caller can retry on the same daemon incarnation.
#[derive(Debug, PartialEq, Eq)]
pub struct RecoverableInput {
    pub daemon_instance_id: DaemonInstanceId,
    pub id: RunId,
    pub operation_key: OperationKey,
    pub expected_byte: u64,
    pub data: Vec<u8>,
}

/// One client request.
#[derive(Debug, PartialEq, Eq)]
pub enum Request {
    Start { operation_key: OperationKey, spec: RunSpec },
    DiscoverTmux { socket_path: String },
    ImportTmux { socket_path: String, pane_id: String },
    Fork { operation_key: OperationKey, parent: RunId, plan: ForkPlan },
    List,
    Status { id: RunId },
    Input { id: RunId, data: Vec<u8> },
    RecoverableInput { operation: RecoverableInput },
    Resize { id: RunId, size: TerminalSize },
    Signal { id: RunId, signal: RunSignal },
    Stop { id: RunId },
    Attach { id: RunId, after_byte: u64 },
}

/// One daemon answer to a request.
#[derive(Debug, PartialEq, Eq)]
pub enum Response {
    Started { run: RunInfo },
    TmuxPanes { tmux_version: String, panes: Vec<TmuxPaneInfo> },
    Imported { run: RunInfo },
    Forked { run: RunInfo },
    Runs { runs: Vec<RunInfo> },
    Status { run: RunInfo },
    InputApplied { run: RunInfo, range: AppliedInputRange },
    ControlAccepted { run: RunInfo, receipt: ControlReceipt },
    ControlRejected { failure: ControlFailure },
}

/// Connection-local number of one attachment command. It is never zero.
#[derive(Debug, Clone, Copy, PartialEq, Eq, Structural)]
pub struct AttachmentCommandId {
    pub number: u32,
}

impl AttachmentCommandId {
    /// The command with this number, unless it is zero.
    pub fn new(number: u32) -> (r: Option<AttachmentCommandId>)
        ensures
            r == (if number == 0 {
                None
            } else {
                Some(AttachmentCommandId { number })
            }),
    {
        if number == 0 {
            None
        } else {
            Some(AttachmentCommandId { number })
        }
    }

    /// The number of this command.
    pub fn get(&self) -> (r: u32)
        ensures
            r == self.number,
    {
        self.number
    }
}

/// One frame from a client.
#[derive(Debug, PartialEq, Eq)]
pub enum ClientFrame {
    Hello { protocol: u32 },
    Request { request: Request },
    Input { command_id: AttachmentCommandId, data: Vec<u8> },
    Resize { command_id: AttachmentCommandId, size: TerminalSize },
    Stop { command_id: AttachmentCommandId },
    Detach,
}

/// Native operations of a Runtime.
#[derive(Debug, Clone, Copy, PartialEq, Eq, Structural)]
pub struct NativeRuntimeCapabilities {
    pub start: bool,
    pub recoverable_input: bool,
    pub fork_level_a: bool,
    pub execute_materialized_level_b: bool,
}

/// tmux operations of a Runtime.
#[derive(Debug, Clone, Copy, PartialEq, Eq, Structural)]
pub struct TmuxRuntimeCapabilities {
    pub discover: bool,
    pub import: bool,
}

/// Services of a Runtime.
#[derive(Debug, Clone, Copy, PartialEq, Eq, Structural)]
pub struct RuntimeServiceCapabilities {
    pub persistent_state_active: bool,
    pub planned_exec_upgrade_continuity: bool,
}

/// What a Runtime can do, in a versioned shape.
#[derive(Debug, Clone, Copy, PartialEq, Eq, Structural)]
pub struct RuntimeCapabilityManifest {
    pub version: u32,
    pub native: NativeRuntimeCapabilities,
    pub tmux: TmuxRuntimeCapabilities,
    pub services: RuntimeServiceCapabilities,
}

/// Provider-neutral description of a reachable Runtime.
#[derive(Debug, Clone, PartialEq, Eq)]
pub struct RuntimeDescription {
    pub runtime_id: RuntimeId,
    pub daemon_instance_id: DaemonInstanceId,
    pub build_id: String,
    pub protocol_generation: u32,
    pub capabilities: RuntimeCapabilityManifest,
}

/// How long a Runtime identity lasts.
#[derive(Debug, Clone, Copy, PartialEq, Eq, Structural)]
pub enum RuntimeIdPersistence {
    /// As long as the daemon process.
    Daemon,
    /// As long as the state directory.
    StateDirectory,
}

/// One capability and its version.
#[derive(Debug, Clone, PartialEq, Eq)]
pub struct CapabilityVersion {
    pub capability: String,
    pub version: u64,
}

/// Complete identity that a Runtime shows at the start of a connection.
#[derive(Debug, Clone, PartialEq, Eq)]
pub struct RuntimeIdentity {
    pub daemon_instance_id: DaemonInstanceId,
    pub runtime_id: RuntimeId,
    pub runtime_id_persistence: RuntimeIdPersistence,
    pub build_id: String,
    pub protocol_generation: u32,
    pub platform: String,
    pub arch: String,
    pub capabilities: Vec<CapabilityVersion>,
}

/// One frame from a daemon.
#[derive(Debug, PartialEq, Eq)]
pub enum ServerFrame {
    Hello { runtime: RuntimeDescription, identity: RuntimeIdentity },
    Response { response: Response },
    Error { error: ProtocolError },
    Attached { snapshot: AttachedSnapshotHeader },
    Event { event: RunEvent },
    CommandResult { command_id: AttachmentCommandId, outcome: ControlOutcome },
    Detached,
}

} // verus!

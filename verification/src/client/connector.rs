//! The stateless connector to one daemon: which Runtime it accepts, what it
//! asks, and what each answer proves.
//!
//! Transport belongs to the caller: it hands in what it received, or the
//! failure that kept it from receiving.

use vstd::prelude::*;

use crate::client::error::{
    control_not_applied, control_request_unknown, ClientError,
};
use crate::client::receipt::{
    decode_input_receipt, decode_resize_receipt, decode_signal_receipt, decode_stop_receipt,
    failure_is_consistent, validate_control_failure, ControlAccepted, InputReceipt, ResizeReceipt,
    SignalReceipt, StopReceipt,
};
use crate::client::replay::begin_replay;
use crate::identity::{DaemonInstanceId, RunId, RuntimeId};
use crate::protocol::{
    AppliedInputRange, AttachedSnapshot, CapabilityVersion, CommandDisposition, ControlReceipt,
    MAX_RUNTIME_CAPABILITY_VERSION, OutputChunk, PROTOCOL_VERSION,
    RUNTIME_CAPABILITY_MANIFEST_VERSION, RecoverableInput, Response, RunInfo, RunSignal,
    RuntimeDescription, RuntimeIdPersistence, RuntimeIdentity, ServerFrame, TmuxPaneInfo,
};
use crate::text::same_text;

verus! {

/// What a frame, or the failure to receive one, brought.
pub type Received = Result<ServerFrame, ClientError>;

/// A capability by its characters and its version.
pub open spec fn capability_view(entry: CapabilityVersion) -> (Seq<char>, u64) {
    (entry.capability@, entry.version)
}

/// Capabilities by their characters and versions, in order.
pub open spec fn capabilities_view(entries: Seq<CapabilityVersion>) -> Seq<(Seq<char>, u64)> {
    entries.map_values(|entry: CapabilityVersion| capability_view(entry))
}

fn copied_capabilities(capabilities: &Vec<CapabilityVersion>) -> (r: Vec<CapabilityVersion>)
    ensures
        r@ == capabilities@,
{
    let mut r: Vec<CapabilityVersion> = Vec::new();
    let mut i: usize = 0;
    while i < capabilities.len()
        invariant
            i <= capabilities@.len(),
            r@.len() == i,
            forall|k: int| 0 <= k < i ==> #[trigger] r@[k] == capabilities@[k],
        decreases capabilities@.len() - i,
    {
        let entry = &capabilities[i];
        r.push(
            CapabilityVersion { capability: entry.capability.clone(), version: entry.version },
        );
        i = i + 1;
    }
    assert(r@ =~= capabilities@);
    r
}

/// Everything by which two Runtime identities are compared.
pub struct RuntimeIdentityView {
    pub daemon_instance_id: DaemonInstanceId,
    pub runtime_id: RuntimeId,
    pub runtime_id_persistence: RuntimeIdPersistence,
    pub build_id: Seq<char>,
    pub protocol_generation: u32,
    pub platform: Seq<char>,
    pub arch: Seq<char>,
    pub capabilities: Seq<(Seq<char>, u64)>,
}

impl RuntimeIdentity {
    /// Everything by which this identity is compared.
    pub open spec fn view(&self) -> RuntimeIdentityView {
        RuntimeIdentityView {
            daemon_instance_id: self.daemon_instance_id,
            runtime_id: self.runtime_id,
            runtime_id_persistence: self.runtime_id_persistence,
            build_id: self.build_id@,
            protocol_generation: self.protocol_generation,
            platform: self.platform@,
            arch: self.arch@,
            capabilities: capabilities_view(self.capabilities@),
        }
    }

    /// Whether both are the same identity, in every part.
    pub fn same(&self, other: &RuntimeIdentity) -> (r: bool)
        ensures
            r == (self@ == other@),
    {
        if self.daemon_instance_id != other.daemon_instance_id || self.runtime_id
            != other.runtime_id || self.runtime_id_persistence != other.runtime_id_persistence
            || self.protocol_generation != other.protocol_generation {
            return false;
        }
        if !same_text(&self.build_id, &other.build_id) || !same_text(
            &self.platform,
            &other.platform,
        ) || !same_text(&self.arch, &other.arch) {
            return false;
        }
        if self.capabilities.len() != other.capabilities.len() {
            assert(self@.capabilities.len() != other@.capabilities.len());
            return false;
        }
        let mut i: usize = 0;
        while i < self.capabilities.len()
            invariant
                i <= self.capabilities@.len(),
                self.capabilities@.len() == other.capabilities@.len(),
                forall|k: int|
                    0 <= k < i ==> #[trigger] self@.capabilities[k] == other@.capabilities[k],
            decreases self.capabilities@.len() - i,
        {
            let mine = &self.capabilities[i];
            let theirs = &other.capabilities[i];
            if mine.version != theirs.version || !same_text(&mine.capability, &theirs.capability) {
                assert(self@.capabilities[i as int] != other@.capabilities[i as int]);
                return false;
            }
            assert(self@.capabilities[i as int] == other@.capabilities[i as int]);
            i = i + 1;
        }
        assert(self@.capabilities =~= other@.capabilities);
        true
    }

    /// A copy of this identity.
    pub fn copied(&self) -> (r: RuntimeIdentity)
        ensures
            r@ == self@,
    {
        RuntimeIdentity {
            daemon_instance_id: self.daemon_instance_id,
            runtime_id: self.runtime_id,
            runtime_id_persistence: self.runtime_id_persistence,
            build_id: self.build_id.clone(),
            protocol_generation: self.protocol_generation,
            platform: self.platform.clone(),
            arch: self.arch.clone(),
            capabilities: copied_capabilities(&self.capabilities),
        }
    }
}

/// The version that a Runtime advertises for a capability.
pub open spec fn advertised_version(capabilities: Seq<(Seq<char>, u64)>, name: Seq<char>) -> Option<
    u64,
>
    decreases capabilities.len(),
{
    if capabilities.len() == 0 {
        None
    } else if capabilities[0].0 == name {
        Some(capabilities[0].1)
    } else {
        advertised_version(capabilities.drop_first(), name)
    }
}

/// Whether a Runtime with these capabilities meets one requirement.
pub open spec fn meets(
    capabilities: Seq<(Seq<char>, u64)>,
    requirement: (Seq<char>, u64),
) -> bool {
    match advertised_version(capabilities, requirement.0) {
        Some(version) => version >= requirement.1,
        None => false,
    }
}

/// Whether a required version is one that every client can name.
pub open spec fn version_is_nameable(version: u64) -> bool {
    1 <= version <= MAX_RUNTIME_CAPABILITY_VERSION
}

/// Whether `place` is the first requirement that does not hold.
pub open spec fn is_first_unmet(
    capabilities: Seq<(Seq<char>, u64)>,
    required: Seq<(Seq<char>, u64)>,
    place: int,
) -> bool {
    &&& 0 <= place < required.len()
    &&& !meets(capabilities, required[place])
    &&& forall|k: int| 0 <= k < place ==> meets(capabilities, #[trigger] required[k])
}

fn find_advertised(capabilities: &Vec<CapabilityVersion>, name: &String) -> (r: Option<u64>)
    ensures
        r == advertised_version(capabilities_view(capabilities@), name@),
{
    let ghost all = capabilities_view(capabilities@);
    let mut i: usize = 0;
    assert(all.skip(0) =~= all);
    while i < capabilities.len()
        invariant
            i <= capabilities@.len(),
            all == capabilities_view(capabilities@),
            advertised_version(all.skip(i as int), name@) == advertised_version(all, name@),
        decreases capabilities@.len() - i,
    {
        assert(all.skip(i as int)[0] == capability_view(capabilities@[i as int]));
        if same_text(&capabilities[i].capability, name) {
            return Some(capabilities[i].version);
        }
        assert(all.skip(i as int).drop_first() =~= all.skip(i + 1));
        i = i + 1;
    }
    None
}

/// Whether a description is one of a Runtime that this client can talk to.
pub open spec fn description_is_compatible(runtime: RuntimeDescription) -> bool {
    runtime.protocol_generation == PROTOCOL_VERSION && runtime.capabilities.version
        == RUNTIME_CAPABILITY_MANIFEST_VERSION
}

/// Check the generation and the manifest version of a Runtime.
pub fn validate_runtime_description(runtime: &RuntimeDescription) -> (r: Result<(), ClientError>)
    ensures
        r is Ok == description_is_compatible(*runtime),
        r matches Err(e) ==> e.unexpected("expected compatible hello"@),
{
    if runtime.protocol_generation != PROTOCOL_VERSION || runtime.capabilities.version
        != RUNTIME_CAPABILITY_MANIFEST_VERSION {
        return Err(ClientError::UnexpectedFrame("expected compatible hello"));
    }
    Ok(())
}

/// What the first frame of a connection shows: whether `r` is its reading.
pub open spec fn reads_hello(received: Received, r: Result<RuntimeIdentity, ClientError>) -> bool {
    match received {
        Err(error) => r == Err::<RuntimeIdentity, ClientError>(error),
        Ok(ServerFrame::Hello { runtime, identity }) => if description_is_compatible(runtime) {
            r == Ok::<RuntimeIdentity, ClientError>(identity)
        } else {
            r matches Err(e) && e.unexpected("expected compatible hello"@)
        },
        Ok(ServerFrame::Error { error }) => r == Err::<RuntimeIdentity, ClientError>(
            ClientError::Protocol { code: error.code, message: error.message },
        ),
        Ok(_) => r matches Err(e) && e.unexpected("expected compatible hello"@),
    }
}

/// Read the first frame of a connection.
pub fn accept_hello(received: Received) -> (r: Result<RuntimeIdentity, ClientError>)
    ensures
        reads_hello(received, r),
{
    match received {
        Err(error) => Err(error),
        Ok(ServerFrame::Hello { runtime, identity }) => match validate_runtime_description(
            &runtime,
        ) {
            Ok(()) => Ok(identity),
            Err(error) => Err(error),
        },
        Ok(ServerFrame::Error { error }) => Err(ClientError::from_protocol(error)),
        Ok(_) => Err(ClientError::UnexpectedFrame("expected compatible hello")),
    }
}

/// Whether `r` is the reading of a frame that should hold a response.
pub open spec fn reads_response(received: Received, r: Result<Response, ClientError>) -> bool {
    match received {
        Err(error) => r == Err::<Response, ClientError>(error),
        Ok(ServerFrame::Response { response }) => r == Ok::<Response, ClientError>(response),
        Ok(ServerFrame::Error { error }) => r == Err::<Response, ClientError>(
            ClientError::Protocol { code: error.code, message: error.message },
        ),
        Ok(_) => r matches Err(e) && e.unexpected("expected request response"@),
    }
}

/// Read the answer to a request.
pub fn request(received: Received) -> (r: Result<Response, ClientError>)
    ensures
        reads_response(received, r),
{
    match received {
        Err(error) => Err(error),
        Ok(ServerFrame::Response { response }) => Ok(response),
        Ok(ServerFrame::Error { error }) => Err(ClientError::from_protocol(error)),
        Ok(_) => Err(ClientError::UnexpectedFrame("expected request response")),
    }
}

/// Whether `e` says that a sent control request has no proven result, because
/// of a failure of which `cause` holds.
pub open spec fn unknown_because(e: ClientError, cause: spec_fn(ClientError) -> bool) -> bool {
    match e {
        ClientError::ControlRequestUnknown { source } => cause(*source),
        _ => false,
    }
}

/// How far a control request came.
#[derive(Debug, PartialEq, Eq)]
pub enum ControlExchange {
    /// Its frame could not be encoded: nothing was handed to the transport.
    NotEncoded(String),
    /// It was handed to the transport, and this is what that brought.
    HandedOver(Received),
}

/// Read the answer to a control request. One that never reached the transport
/// was not applied; from then on, whatever is not its response leaves the
/// command's disposition unknown.
pub fn control_request(exchange: ControlExchange) -> (r: Result<Response, ClientError>)
    ensures
        match exchange {
            ControlExchange::NotEncoded(reason) => r == Err::<Response, ClientError>(
                ClientError::ControlNotApplied { source: Box::new(ClientError::Frame(reason)) },
            ),
            ControlExchange::HandedOver(received) => match received {
                Ok(ServerFrame::Response { response }) => r == Ok::<Response, ClientError>(
                    response,
                ),
                Err(error) => r == Err::<Response, ClientError>(
                    ClientError::ControlRequestUnknown { source: Box::new(error) },
                ),
                Ok(ServerFrame::Error { error }) => r == Err::<Response, ClientError>(
                    ClientError::ControlRequestUnknown {
                        source: Box::new(
                            ClientError::Protocol { code: error.code, message: error.message },
                        ),
                    },
                ),
                Ok(_) => r matches Err(e) && unknown_because(
                    e,
                    |source: ClientError|
                        source.unexpected("expected correlated control response"@),
                ),
            },
        },
        r matches Err(e) ==> e.disposition() == Some(
            if exchange is NotEncoded {
                CommandDisposition::NotApplied
            } else {
                CommandDisposition::Unknown
            },
        ),
{
    let received = match exchange {
        ControlExchange::NotEncoded(reason) => {
            return Err(control_not_applied(ClientError::Frame(reason)));
        },
        ControlExchange::HandedOver(received) => received,
    };
    match received {
        Ok(ServerFrame::Response { response }) => Ok(response),
        Err(error) => Err(control_request_unknown(error)),
        Ok(ServerFrame::Error { error }) => Err(
            control_request_unknown(ClientError::from_protocol(error)),
        ),
        Ok(_) => Err(
            control_request_unknown(
                ClientError::UnexpectedFrame("expected correlated control response"),
            ),
        ),
    }
}

/// What a control response says of its command.
pub enum ShortControl {
    Accepted { run: RunInfo, receipt: ControlReceipt },
    Failed(ClientError),
}

/// Whether `r` is the reading of a control response before its receipt is
/// decoded.
pub open spec fn reads_control(reply: Result<Response, ClientError>, r: ShortControl) -> bool {
    match reply {
        Err(error) => r == ShortControl::Failed(error),
        Ok(Response::ControlAccepted { run, receipt }) => r == (ShortControl::Accepted {
            run,
            receipt,
        }),
        Ok(Response::ControlRejected { failure }) => if failure_is_consistent(failure) {
            r == ShortControl::Failed(ClientError::ControlRejected { failure })
        } else {
            r matches ShortControl::Failed(e) && unknown_because(
                e,
                |source: ClientError|
                    source.violates("control_backpressure must have not_applied disposition"@),
            )
        },
        Ok(_) => r matches ShortControl::Failed(e) && unknown_because(
            e,
            |source: ClientError| source.unexpected("expected correlated control response"@),
        ),
    }
}

/// Read a control response, up to its receipt.
pub fn decode_short_control(reply: Result<Response, ClientError>) -> (r: ShortControl)
    ensures
        reads_control(reply, r),
{
    match reply {
        Err(error) => ShortControl::Failed(error),
        Ok(Response::ControlAccepted { run, receipt }) => ShortControl::Accepted { run, receipt },
        Ok(Response::ControlRejected { failure }) => match validate_control_failure(&failure) {
            Ok(()) => ShortControl::Failed(ClientError::ControlRejected { failure }),
            Err(message) => ShortControl::Failed(
                control_request_unknown(ClientError::ProtocolContractViolation(message)),
            ),
        },
        Ok(_) => ShortControl::Failed(
            control_request_unknown(
                ClientError::UnexpectedFrame("expected correlated control response"),
            ),
        ),
    }
}

/// Whether `r` is what a control call returns for a reply: its receipt where
/// `good` yields one, an unknown disposition where it yields a violation.
pub open spec fn control_outcome<R>(
    reply: Result<Response, ClientError>,
    good: spec_fn(ControlReceipt) -> Result<R, Seq<char>>,
    r: Result<ControlAccepted<R>, ClientError>,
) -> bool {
    match reply {
        Ok(Response::ControlAccepted { run, receipt }) => match good(receipt) {
            Ok(receipt) => r == Ok::<ControlAccepted<R>, ClientError>(
                ControlAccepted { run, receipt },
            ),
            Err(message) => r matches Err(e) && unknown_because(
                e,
                |source: ClientError| source.violates(message),
            ),
        },
        _ => r matches Err(e) && reads_control(reply, ShortControl::Failed(e)),
    }
}

/// The typed receipt of an Input of `expected_bytes` bytes.
pub open spec fn input_receipt(expected_bytes: int, receipt: ControlReceipt) -> Result<
    InputReceipt,
    Seq<char>,
> {
    match receipt {
        ControlReceipt::Input { written_bytes } => if written_bytes == expected_bytes {
            Ok(InputReceipt { written_bytes })
        } else {
            Err("input receipt byte count differs from the command payload"@)
        },
        _ => Err("input returned another receipt kind"@),
    }
}

/// The typed receipt of a resize.
pub open spec fn resize_receipt(receipt: ControlReceipt) -> Result<ResizeReceipt, Seq<char>> {
    match receipt {
        ControlReceipt::Resize { applied_size } => if applied_size.cols != 0 && applied_size.rows
            != 0 {
            Ok(ResizeReceipt { applied_size })
        } else {
            Err("resize receipt reported a zero applied dimension"@)
        },
        _ => Err("resize returned another receipt kind"@),
    }
}

/// The typed receipt of a signal.
pub open spec fn signal_receipt(expected: RunSignal, receipt: ControlReceipt) -> Result<
    SignalReceipt,
    Seq<char>,
> {
    match receipt {
        ControlReceipt::Signal { signal } => if signal == expected {
            Ok(SignalReceipt { signal })
        } else {
            Err("signal receipt differs from the requested signal"@)
        },
        _ => Err("signal returned another receipt kind"@),
    }
}

/// The typed receipt of a stop.
pub open spec fn stop_receipt(receipt: ControlReceipt) -> Result<StopReceipt, Seq<char>> {
    match receipt {
        ControlReceipt::Stop { disposition } => Ok(StopReceipt { disposition }),
        _ => Err("stop returned another receipt kind"@),
    }
}

/// The cursor after a recoverable Input, where it fits.
pub open spec fn expected_end(operation: RecoverableInput) -> Option<u64> {
    if operation.expected_byte + operation.data@.len() <= u64::MAX {
        Some((operation.expected_byte + operation.data@.len()) as u64)
    } else {
        None
    }
}

/// Whether an applied Input proves that the operation was applied exactly.
pub open spec fn proves_input(
    id: RunId,
    start: u64,
    end: u64,
    run: RunInfo,
    range: AppliedInputRange,
) -> bool {
    &&& run.id == id
    &&& range.start_byte == start
    &&& range.end_byte == end
    &&& run.applied_input_bytes matches Some(cursor) && cursor >= range.end_byte
}

/// Stateless connector to one local ctxmux daemon.
#[derive(Debug)]
pub struct Client {
    socket_path: String,
    expected_identity: Option<RuntimeIdentity>,
    required_capabilities: Vec<CapabilityVersion>,
}

/// What a connector was made with.
pub struct ClientView {
    pub socket_path: Seq<char>,
    pub expected: Option<RuntimeIdentityView>,
    pub required: Seq<(Seq<char>, u64)>,
}

impl ClientView {
    /// Whether the Runtime is the expected one, where one is expected.
    pub open spec fn expects(&self, actual: RuntimeIdentityView) -> bool {
        self.expected matches Some(expected) ==> expected == actual
    }

    /// Whether a business frame may be sent to a Runtime.
    pub open spec fn admits(&self, actual: RuntimeIdentityView) -> bool {
        &&& self.expects(actual)
        &&& forall|k: int|
            0 <= k < self.required.len() ==> meets(
                actual.capabilities,
                #[trigger] self.required[k],
            )
    }

    /// Whether `e` says why a Runtime is not admitted.
    pub open spec fn rejects_with(&self, actual: RuntimeIdentityView, e: ClientError) -> bool {
        if !self.expects(actual) {
            e matches ClientError::RuntimeIdentityMismatch { expected, actual: shown }
                && Some((*expected)@) == self.expected && (*shown)@ == actual
        } else {
            exists|place: int| #[trigger]
                is_first_unmet(actual.capabilities, self.required, place) && (
                e matches ClientError::UnsupportedCapability {
                    capability,
                    required_version,
                    advertised_version: shown,
                } && capability@ == self.required[place].0 && required_version
                    == self.required[place].1 && shown == advertised_version(
                    actual.capabilities,
                    self.required[place].0,
                ))
        }
    }
}

impl Clone for Client {
    /// A connector that was made with the same: it targets the same socket and
    /// has the same requirements.
    fn clone(&self) -> (r: Client)
        ensures
            r@ == self@,
    {
        let expected_identity = match &self.expected_identity {
            Some(identity) => Some(identity.copied()),
            None => None,
        };
        Client {
            socket_path: self.socket_path.clone(),
            expected_identity,
            required_capabilities: copied_capabilities(&self.required_capabilities),
        }
    }
}

impl Client {
    /// What this connector was made with.
    pub closed spec fn view(&self) -> ClientView {
        ClientView {
            socket_path: self.socket_path@,
            expected: match self.expected_identity {
                Some(identity) => Some(identity@),
                None => None,
            },
            required: capabilities_view(self.required_capabilities@),
        }
    }

    /// Target one explicit daemon socket.
    pub fn new(socket_path: &str) -> (r: Client)
        ensures
            r@ == (ClientView { socket_path: socket_path@, expected: None, required: seq![] }),
    {
        let r = Client {
            socket_path: socket_path.to_owned(),
            expected_identity: None,
            required_capabilities: Vec::new(),
        };
        assert(r@.required =~= seq![]);
        r
    }

    /// Socket path used by this connector.
    pub fn socket_path(&self) -> (r: &str)
        ensures
            r@ == self@.socket_path,
    {
        self.socket_path.as_str()
    }

    /// Send business frames only to the Runtime with exactly this identity.
    pub fn with_expected_runtime_identity(self, identity: RuntimeIdentity) -> (r: Client)
        ensures
            r@ == (ClientView { expected: Some(identity@), ..self@ }),
    {
        Client {
            socket_path: self.socket_path,
            expected_identity: Some(identity),
            required_capabilities: self.required_capabilities,
        }
    }

    /// Send business frames only to a Runtime with at least these capability
    /// versions. The first version outside the nameable range is refused.
    pub fn with_required_capabilities(self, required: Vec<CapabilityVersion>) -> (r: Result<
        Client,
        ClientError,
    >)
        ensures
            match r {
                Ok(client) => {
                    &&& forall|k: int|
                        0 <= k < required@.len() ==> version_is_nameable(
                            (#[trigger] required@[k]).version,
                        )
                    &&& client@ == (ClientView { required: capabilities_view(required@), ..self@ })
                },
                Err(ClientError::InvalidCapabilityRequirement {
                    capability,
                    required_version,
                    maximum_version,
                }) => exists|place: int|
                    0 <= place < required@.len() && {
                        &&& !version_is_nameable((#[trigger] required@[place]).version)
                        &&& capability@ == required@[place].capability@
                        &&& required_version == required@[place].version
                        &&& maximum_version == MAX_RUNTIME_CAPABILITY_VERSION
                        &&& forall|k: int|
                            0 <= k < place ==> version_is_nameable((#[trigger] required@[k]).version)
                    },
                Err(_) => false,
            },
    {
        let mut i: usize = 0;
        while i < required.len()
            invariant
                i <= required@.len(),
                forall|k: int|
                    0 <= k < i ==> version_is_nameable((#[trigger] required@[k]).version),
            decreases required@.len() - i,
        {
            let version: u64 = required[i].version;
            if version == 0 || version > MAX_RUNTIME_CAPABILITY_VERSION {
                return Err(
                    ClientError::InvalidCapabilityRequirement {
                        capability: required[i].capability.clone(),
                        required_version: version,
                        maximum_version: MAX_RUNTIME_CAPABILITY_VERSION,
                    },
                );
            }
            i = i + 1;
        }
        Ok(
            Client {
                socket_path: self.socket_path,
                expected_identity: self.expected_identity,
                required_capabilities: required,
            },
        )
    }

    /// Decide whether a Runtime may get a business frame.
    pub fn check_runtime(&self, actual: &RuntimeIdentity) -> (r: Result<(), ClientError>)
        ensures
            r is Ok == self@.admits(actual@),
            r matches Err(e) ==> self@.rejects_with(actual@, e),
    {
        if let Some(expected) = &self.expected_identity {
            if !expected.same(actual) {
                return Err(
                    ClientError::RuntimeIdentityMismatch {
                        expected: Box::new(expected.copied()),
                        actual: Box::new(actual.copied()),
                    },
                );
            }
        }
        let mut i: usize = 0;
        while i < self.required_capabilities.len()
            invariant
                self@.expects(actual@),
                i <= self.required_capabilities@.len(),
                forall|k: int|
                    0 <= k < i ==> meets(actual@.capabilities, #[trigger] self@.required[k]),
            decreases self.required_capabilities@.len() - i,
        {
            let requirement = &self.required_capabilities[i];
            assert(self@.required[i as int] == capability_view(*requirement));
            let advertised = find_advertised(&actual.capabilities, &requirement.capability);
            let met = match advertised {
                Some(version) => version >= requirement.version,
                None => false,
            };
            if !met {
                assert(is_first_unmet(actual@.capabilities, self@.required, i as int));
                return Err(
                    ClientError::UnsupportedCapability {
                        capability: requirement.capability.clone(),
                        required_version: requirement.version,
                        advertised_version: advertised,
                    },
                );
            }
            i = i + 1;
        }
        Ok(())
    }

    /// Verify that the daemon is reachable and protocol-compatible. No
    /// requirement of this connector applies.
    pub fn ping(&self, hello: Received) -> (r: Result<(), ClientError>)
        ensures
            match r {
                Ok(_) => exists|identity: RuntimeIdentity| #[trigger]
                    reads_hello(hello, Ok(identity)),
                Err(e) => reads_hello(hello, Err(e)),
            },
    {
        match accept_hello(hello) {
            Ok(identity) => {
                assert(reads_hello(hello, Ok(identity)));
                Ok(())
            },
            Err(error) => Err(error),
        }
    }

    /// Return the identity of the reachable Runtime. No requirement of this
    /// connector applies.
    pub fn runtime_info(&self, hello: Received) -> (r: Result<RuntimeIdentity, ClientError>)
        ensures
            reads_hello(hello, r),
    {
        accept_hello(hello)
    }

    /// Return the identity of the currently reachable daemon incarnation.
    pub fn daemon_instance(&self, hello: Received) -> (r: Result<DaemonInstanceId, ClientError>)
        ensures
            match r {
                Ok(id) => exists|identity: RuntimeIdentity| #[trigger]
                    reads_hello(hello, Ok(identity)) && id == identity.daemon_instance_id,
                Err(e) => reads_hello(hello, Err(e)),
            },
    {
        match accept_hello(hello) {
            Ok(identity) => {
                assert(reads_hello(hello, Ok(identity)));
                Ok(identity.daemon_instance_id)
            },
            Err(error) => Err(error),
        }
    }

    /// Open a connection for a request or an attachment: no business frame may
    /// be sent unless this succeeds.
    pub fn connect(&self, hello: Received) -> (r: Result<RuntimeIdentity, ClientError>)
        ensures
            match r {
                Ok(identity) => reads_hello(hello, Ok(identity)) && self@.admits(identity@),
                Err(e) => reads_hello(hello, Err(e)) || exists|shown: RuntimeIdentity| #[trigger]
                    reads_hello(hello, Ok(shown)) && !self@.admits(shown@)
                        && self@.rejects_with(shown@, e),
            },
    {
        match accept_hello(hello) {
            Ok(identity) => match self.check_runtime(&identity) {
                Ok(()) => Ok(identity),
                Err(error) => {
                    assert(reads_hello(hello, Ok(identity)));
                    Err(error)
                },
            },
            Err(error) => Err(error),
        }
    }

    /// Open a connection for a control request. A failure to reach the Runtime
    /// is a command that was not applied.
    pub fn connect_control(&self, hello: Received) -> (r: Result<RuntimeIdentity, ClientError>)
        ensures
            match r {
                Ok(identity) => reads_hello(hello, Ok(identity)) && self@.admits(identity@),
                Err(e) => {
                    ||| e matches ClientError::ControlNotApplied { source } && reads_hello(
                        hello,
                        Err(*source),
                    )
                    ||| exists|identity: RuntimeIdentity| #[trigger]
                        reads_hello(hello, Ok(identity)) && !self@.admits(identity@)
                            && self@.rejects_with(identity@, e)
                },
            },
            r matches Err(e) ==> e.disposition() == Some(CommandDisposition::NotApplied),
    {
        match accept_hello(hello) {
            Ok(identity) => match self.check_runtime(&identity) {
                Ok(()) => Ok(identity),
                Err(error) => {
                    assert(reads_hello(hello, Ok(identity)));
                    Err(error)
                },
            },
            Err(error) => Err(control_not_applied(error)),
        }
    }

    /// The Run that a start created or found.
    pub fn start(&self, reply: Result<Response, ClientError>) -> (r: Result<RunInfo, ClientError>)
        ensures
            match reply {
                Ok(Response::Started { run }) => r == Ok::<RunInfo, ClientError>(run),
                Ok(_) => r matches Err(e) && e.unexpected("expected started response"@),
                Err(error) => r == Err::<RunInfo, ClientError>(error),
            },
    {
        self.start_with_operation_key(reply)
    }

    /// The Run that a start with a retained key created or found.
    pub fn start_with_operation_key(&self, reply: Result<Response, ClientError>) -> (r: Result<
        RunInfo,
        ClientError,
    >)
        ensures
            match reply {
                Ok(Response::Started { run }) => r == Ok::<RunInfo, ClientError>(run),
                Ok(_) => r matches Err(e) && e.unexpected("expected started response"@),
                Err(error) => r == Err::<RunInfo, ClientError>(error),
            },
    {
        match reply {
            Ok(Response::Started { run }) => Ok(run),
            Ok(_) => Err(ClientError::UnexpectedFrame("expected started response")),
            Err(error) => Err(error),
        }
    }

    /// The panes that a tmux server offers.
    pub fn discover_tmux(&self, reply: Result<Response, ClientError>) -> (r: Result<
        (String, Vec<TmuxPaneInfo>),
        ClientError,
    >)
        ensures
            match reply {
                Ok(Response::TmuxPanes { tmux_version, panes }) => r == Ok::<
                    (String, Vec<TmuxPaneInfo>),
                    ClientError,
                >((tmux_version, panes)),
                Ok(_) => r matches Err(e) && e.unexpected("expected tmux panes response"@),
                Err(error) => r == Err::<(String, Vec<TmuxPaneInfo>), ClientError>(error),
            },
    {
        match reply {
            Ok(Response::TmuxPanes { tmux_version, panes }) => Ok((tmux_version, panes)),
            Ok(_) => Err(ClientError::UnexpectedFrame("expected tmux panes response")),
            Err(error) => Err(error),
        }
    }

    /// The Run that observes an imported tmux pane.
    pub fn import_tmux(&self, reply: Result<Response, ClientError>) -> (r: Result<
        RunInfo,
        ClientError,
    >)
        ensures
            match reply {
                Ok(Response::Imported { run }) => r == Ok::<RunInfo, ClientError>(run),
                Ok(_) => r matches Err(e) && e.unexpected("expected imported response"@),
                Err(error) => r == Err::<RunInfo, ClientError>(error),
            },
    {
        match reply {
            Ok(Response::Imported { run }) => Ok(run),
            Ok(_) => Err(ClientError::UnexpectedFrame("expected imported response")),
            Err(error) => Err(error),
        }
    }

    /// The child Run that a fork created or found.
    pub fn fork(&self, reply: Result<Response, ClientError>) -> (r: Result<RunInfo, ClientError>)
        ensures
            match reply {
                Ok(Response::Forked { run }) => r == Ok::<RunInfo, ClientError>(run),
                Ok(_) => r matches Err(e) && e.unexpected("expected forked response"@),
                Err(error) => r == Err::<RunInfo, ClientError>(error),
            },
    {
        self.fork_with_operation_key(reply)
    }

    /// The child Run that a fork with a retained key created or found.
    pub fn fork_with_operation_key(&self, reply: Result<Response, ClientError>) -> (r: Result<
        RunInfo,
        ClientError,
    >)
        ensures
            match reply {
                Ok(Response::Forked { run }) => r == Ok::<RunInfo, ClientError>(run),
                Ok(_) => r matches Err(e) && e.unexpected("expected forked response"@),
                Err(error) => r == Err::<RunInfo, ClientError>(error),
            },
    {
        match reply {
            Ok(Response::Forked { run }) => Ok(run),
            Ok(_) => Err(ClientError::UnexpectedFrame("expected forked response")),
            Err(error) => Err(error),
        }
    }

    /// The Runs that the daemon retains.
    pub fn list(&self, reply: Result<Response, ClientError>) -> (r: Result<
        Vec<RunInfo>,
        ClientError,
    >)
        ensures
            match reply {
                Ok(Response::Runs { runs }) => r == Ok::<Vec<RunInfo>, ClientError>(runs),
                Ok(_) => r matches Err(e) && e.unexpected("expected runs response"@),
                Err(error) => r == Err::<Vec<RunInfo>, ClientError>(error),
            },
    {
        match reply {
            Ok(Response::Runs { runs }) => Ok(runs),
            Ok(_) => Err(ClientError::UnexpectedFrame("expected runs response")),
            Err(error) => Err(error),
        }
    }

    /// Current metadata of one Run.
    pub fn status(&self, reply: Result<Response, ClientError>) -> (r: Result<RunInfo, ClientError>)
        ensures
            match reply {
                Ok(Response::Status { run }) => r == Ok::<RunInfo, ClientError>(run),
                Ok(_) => r matches Err(e) && e.unexpected("expected status response"@),
                Err(error) => r == Err::<RunInfo, ClientError>(error),
            },
    {
        match reply {
            Ok(Response::Status { run }) => Ok(run),
            Ok(_) => Err(ClientError::UnexpectedFrame("expected status response")),
            Err(error) => Err(error),
        }
    }

    /// The outcome of an Input of `expected_bytes` bytes.
    pub fn input(&self, expected_bytes: usize, reply: Result<Response, ClientError>) -> (r: Result<
        ControlAccepted<InputReceipt>,
        ClientError,
    >)
        ensures
            control_outcome(
                reply,
                |receipt: ControlReceipt| input_receipt(expected_bytes as int, receipt),
                r,
            ),
    {
        match decode_short_control(reply) {
            ShortControl::Failed(error) => Err(error),
            ShortControl::Accepted { run, receipt } => match decode_input_receipt(
                &receipt,
                expected_bytes,
            ) {
                Ok(receipt) => Ok(ControlAccepted { run, receipt }),
                Err(error) => Err(control_request_unknown(error)),
            },
        }
    }

    /// Check a recoverable Input before it is sent: the cursor that proves its
    /// application, or why there is none.
    pub fn recoverable_input_end(&self, operation: &RecoverableInput) -> (r: Result<
        u64,
        ClientError,
    >)
        ensures
            match expected_end(*operation) {
                Some(end) => r == Ok::<u64, ClientError>(end),
                None => r matches Err(ClientError::ControlNotApplied { source })
                    && source.violates("recoverable Input expected cursor overflows"@),
            },
    {
        match operation.expected_byte.checked_add(operation.data.len() as u64) {
            Some(end) => Ok(end),
            None => Err(
                control_not_applied(
                    ClientError::ProtocolContractViolation(
                        "recoverable Input expected cursor overflows",
                    ),
                ),
            ),
        }
    }

    /// The outcome of a recoverable Input of the bytes from `expected_byte` to
    /// `expected_end`: success only where the answer proves exactly these bytes
    /// of exactly this Run.
    pub fn recoverable_input(
        &self,
        id: RunId,
        expected_byte: u64,
        expected_end: u64,
        reply: Result<Response, ClientError>,
    ) -> (r: Result<ControlAccepted<AppliedInputRange>, ClientError>)
        ensures
            match reply {
                Err(error) => r == Err::<ControlAccepted<AppliedInputRange>, ClientError>(error),
                Ok(Response::InputApplied { run, range }) => if proves_input(
                    id,
                    expected_byte,
                    expected_end,
                    run,
                    range,
                ) {
                    r == Ok::<ControlAccepted<AppliedInputRange>, ClientError>(
                        ControlAccepted { run, receipt: range },
                    )
                } else {
                    r matches Err(e) && unknown_because(
                        e,
                        |source: ClientError|
                            source.violates(
                                "recoverable Input Run, range, or cursor does not prove its request"@,
                            ),
                    )
                },
                Ok(Response::ControlRejected { failure }) => r matches Err(e) && reads_control(
                    reply,
                    ShortControl::Failed(e),
                ),
                Ok(_) => r matches Err(e) && unknown_because(
                    e,
                    |source: ClientError| source.unexpected("expected recoverable Input result"@),
                ),
            },
    {
        match reply {
            Err(error) => Err(error),
            Ok(Response::InputApplied { run, range }) => {
                let covered = match run.applied_input_bytes {
                    Some(cursor) => cursor >= range.end_byte,
                    None => false,
                };
                if run.id == id && range.start_byte == expected_byte && range.end_byte
                    == expected_end && covered {
                    Ok(ControlAccepted { run, receipt: range })
                } else {
                    Err(
                        control_request_unknown(
                            ClientError::ProtocolContractViolation(
                                "recoverable Input Run, range, or cursor does not prove its request",
                            ),
                        ),
                    )
                }
            },
            Ok(Response::ControlRejected { failure }) => match validate_control_failure(&failure) {
                Ok(()) => Err(ClientError::ControlRejected { failure }),
                Err(message) => Err(
                    control_request_unknown(ClientError::ProtocolContractViolation(message)),
                ),
            },
            Ok(_) => Err(
                control_request_unknown(
                    ClientError::UnexpectedFrame("expected recoverable Input result"),
                ),
            ),
        }
    }

    /// The outcome of a resize.
    pub fn resize(&self, reply: Result<Response, ClientError>) -> (r: Result<
        ControlAccepted<ResizeReceipt>,
        ClientError,
    >)
        ensures
            control_outcome(reply, |receipt: ControlReceipt| resize_receipt(receipt), r),
    {
        match decode_short_control(reply) {
            ShortControl::Failed(error) => Err(error),
            ShortControl::Accepted { run, receipt } => match decode_resize_receipt(&receipt) {
                Ok(receipt) => Ok(ControlAccepted { run, receipt }),
                Err(error) => Err(control_request_unknown(error)),
            },
        }
    }

    /// The outcome of an interrupt of the foreground process group.
    pub fn interrupt(&self, reply: Result<Response, ClientError>) -> (r: Result<
        ControlAccepted<SignalReceipt>,
        ClientError,
    >)
        ensures
            control_outcome(
                reply,
                |receipt: ControlReceipt| signal_receipt(RunSignal::Interrupt, receipt),
                r,
            ),
    {
        match decode_short_control(reply) {
            ShortControl::Failed(error) => Err(error),
            ShortControl::Accepted { run, receipt } => match decode_signal_receipt(
                &receipt,
                RunSignal::Interrupt,
            ) {
                Ok(receipt) => Ok(ControlAccepted { run, receipt }),
                Err(error) => Err(control_request_unknown(error)),
            },
        }
    }

    /// The outcome of a stop.
    pub fn stop(&self, reply: Result<Response, ClientError>) -> (r: Result<
        ControlAccepted<StopReceipt>,
        ClientError,
    >)
        ensures
            control_outcome(reply, |receipt: ControlReceipt| stop_receipt(receipt), r),
    {
        match decode_short_control(reply) {
            ShortControl::Failed(error) => Err(error),
            ShortControl::Accepted { run, receipt } => match decode_stop_receipt(&receipt) {
                Ok(receipt) => Ok(ControlAccepted { run, receipt }),
                Err(error) => Err(control_request_unknown(error)),
            },
        }
    }

    /// The snapshot that the first frame of an attachment announces. Its
    /// retained output follows, see [`crate::client::replay::receive_replay`].
    pub fn attach(&self, received: Received) -> (r: Result<AttachedSnapshot, ClientError>)
        ensures
            match received {
                Err(error) => r == Err::<AttachedSnapshot, ClientError>(error),
                Ok(ServerFrame::Attached { snapshot }) => r matches Ok(begun) && {
                    &&& begun.run == snapshot.run
                    &&& begun.replay.chunks@ == Seq::<OutputChunk>::empty()
                    &&& begun.replay.first_available_byte == snapshot.replay.first_available_byte
                    &&& begun.replay.latest_output_bytes == snapshot.replay.latest_output_bytes
                    &&& begun.replay.truncated == snapshot.replay.truncated
                },
                Ok(ServerFrame::Error { error }) => r == Err::<AttachedSnapshot, ClientError>(
                    ClientError::Protocol { code: error.code, message: error.message },
                ),
                Ok(_) => r matches Err(e) && e.unexpected("expected attached snapshot"@),
            },
    {
        match received {
            Err(error) => Err(error),
            Ok(ServerFrame::Attached { snapshot }) => Ok(begin_replay(snapshot)),
            Ok(ServerFrame::Error { error }) => Err(ClientError::from_protocol(error)),
            Ok(_) => Err(ClientError::UnexpectedFrame("expected attached snapshot")),
        }
    }
}

/// A connector that expects one Runtime never admits another: no business
/// frame reaches a replacement.
pub proof fn law_expected_identity_fences_replacements(
    client: ClientView,
    expected: RuntimeIdentityView,
    actual: RuntimeIdentityView,
)
    requires
        client.expected == Some(expected),
        expected != actual,
    ensures
        !client.admits(actual),
{
}

/// Meeting a higher requirement meets every lower one.
pub proof fn law_higher_capability_versions_meet_lower_requirements(
    capabilities: Seq<(Seq<char>, u64)>,
    name: Seq<char>,
    low: u64,
    high: u64,
)
    requires
        low <= high,
        meets(capabilities, (name, high)),
    ensures
        meets(capabilities, (name, low)),
{
}

/// Every failed control call says whether the command may have been applied.
/// What `connect_control` and [`control_request`] fail with says so already.
pub proof fn law_control_failures_state_their_disposition<R>(
    reply: Result<Response, ClientError>,
    good: spec_fn(ControlReceipt) -> Result<R, Seq<char>>,
    r: Result<ControlAccepted<R>, ClientError>,
)
    requires
        reply matches Err(e) ==> e.disposition() is Some,
        control_outcome(reply, good, r),
    ensures
        r matches Err(e) ==> e.disposition() is Some,
{
}

} // verus!
